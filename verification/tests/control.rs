use audio_proxy::control::handle_ipc_command;
use audio_proxy::control::ControlState;
use audio_proxy::control::IpcCommand;
use audio_proxy::control::IpcResponse;
use audio_proxy::control::MicControl;

fn state_with_mic() -> ControlState {
    ControlState {
        running: true,
        output_device: "Speakers".to_string(),
        mic: Some(MicControl { input_device: "Mic".to_string(), enabled: true }),
    }
}

fn state_without_mic() -> ControlState {
    ControlState { running: true, output_device: "Speakers".to_string(), mic: None }
}

#[test]
fn test_set_output_retargets_speaker() {
    let mut state = state_without_mic();
    let cmd = IpcCommand::SetOutput { device_id: "Headphones".to_string() };
    let resp = handle_ipc_command(cmd, &mut state);
    assert!(resp.success);
    assert_eq!(resp.message, "Output device updated");
    assert_eq!(state.output_device, "Headphones");
    assert!(state.running);
}

#[test]
fn test_get_status_without_mic() {
    let mut state = state_without_mic();
    let resp = handle_ipc_command(IpcCommand::GetStatus, &mut state);
    assert!(resp.success);
    assert_eq!(resp.running, Some(true));
    assert_eq!(resp.output_device, Some("Speakers".to_string()));
    assert_eq!(resp.mic_enabled, None);
    assert_eq!(resp.mic_input_device, None);
}

#[test]
fn test_get_status_with_mic() {
    let mut state = state_with_mic();
    let resp = handle_ipc_command(IpcCommand::GetStatus, &mut state);
    assert!(resp.success);
    assert_eq!(resp.running, Some(true));
    assert_eq!(resp.output_device, Some("Speakers".to_string()));
    assert_eq!(resp.mic_enabled, Some(true));
    assert_eq!(resp.mic_input_device, Some("Mic".to_string()));
}

#[test]
fn test_stop_clears_run_flag() {
    let mut state = state_without_mic();
    let resp = handle_ipc_command(IpcCommand::Stop, &mut state);
    assert!(resp.success);
    assert_eq!(resp.message, "Stopping proxy");
    assert!(!state.running);
}

#[test]
fn test_set_mic_input_requires_mic_path() {
    let mut state = state_without_mic();
    let cmd = IpcCommand::SetMicInput { device_id: "Other".to_string() };
    let resp = handle_ipc_command(cmd, &mut state);
    assert!(!resp.success);
    assert_eq!(resp.message, "Mic proxy not configured");

    let mut state = state_with_mic();
    let cmd = IpcCommand::SetMicInput { device_id: "Other".to_string() };
    let resp = handle_ipc_command(cmd, &mut state);
    assert!(resp.success);
    assert_eq!(resp.message, "Mic input device updated");
    assert_eq!(state.mic.as_ref().unwrap().input_device, "Other");
    assert!(state.mic.as_ref().unwrap().enabled);
}

#[test]
fn test_enable_mic_toggles_flag() {
    let mut state = state_with_mic();
    let resp = handle_ipc_command(IpcCommand::EnableMic { enabled: false }, &mut state);
    assert!(resp.success);
    assert_eq!(resp.message, "Mic proxy disabled");
    assert!(!state.mic.as_ref().unwrap().enabled);

    let resp = handle_ipc_command(IpcCommand::EnableMic { enabled: true }, &mut state);
    assert!(resp.success);
    assert_eq!(resp.message, "Mic proxy enabled");
    assert!(state.mic.as_ref().unwrap().enabled);

    let mut bare = state_without_mic();
    let resp = handle_ipc_command(IpcCommand::EnableMic { enabled: false }, &mut bare);
    assert!(!resp.success);
}

#[test]
fn test_response_constructors() {
    let ok = IpcResponse::success("done");
    assert!(ok.success);
    assert_eq!(ok.message, "done");
    assert_eq!(ok.running, None);

    let err = IpcResponse::error("nope");
    assert!(!err.success);
    assert_eq!(err.message, "nope");

    let st = IpcResponse::status(true, "device-123");
    assert!(st.success);
    assert_eq!(st.running, Some(true));
    assert_eq!(st.output_device, Some("device-123".to_string()));
    assert_eq!(st.mic_enabled, None);

    let full = IpcResponse::status_full(false, "out", true, Some("in"));
    assert_eq!(full.running, Some(false));
    assert_eq!(full.output_device, Some("out".to_string()));
    assert_eq!(full.mic_enabled, Some(true));
    assert_eq!(full.mic_input_device, Some("in".to_string()));
}
