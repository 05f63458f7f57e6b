//! The control channel's command set and its effect on the shared control
//! variables.
//!
//! An external supervisor sends one command per connection; the dispatcher
//! mutates the control state and replies.  The byte transport and its JSON
//! framing live outside the library; here the commands are plain values and
//! the dispatch is a pure state transition.

use vstd::prelude::*;

verus! {

/// Commands that can be sent to the proxy.
#[derive(Debug, Clone)]
pub enum IpcCommand {
    /// Set the speaker output device.
    SetOutput { device_id: String },
    /// Get the current status.
    GetStatus,
    /// Stop the proxy.
    Stop,
    /// Set the microphone input device (hot-swap the physical mic).
    SetMicInput { device_id: String },
    /// Enable or disable the microphone path.
    EnableMic { enabled: bool },
}

/// Reply to one command.  The status fields are filled only for
/// `GetStatus`.
#[derive(Debug, Clone)]
pub struct IpcResponse {
    pub success: bool,
    pub message: String,
    pub running: Option<bool>,
    pub output_device: Option<String>,
    pub mic_enabled: Option<bool>,
    pub mic_input_device: Option<String>,
}

impl IpcResponse {
    /// A bare success reply carrying `message`.
    pub fn success(message: &str) -> (r: IpcResponse)
        ensures
            r.success == true,
            r.message@ == message@,
            r.running is None,
            r.output_device is None,
            r.mic_enabled is None,
            r.mic_input_device is None,
    {
        IpcResponse {
            success: true,
            message: message.to_owned(),
            running: None,
            output_device: None,
            mic_enabled: None,
            mic_input_device: None,
        }
    }

    /// A bare error reply carrying `message`.
    pub fn error(message: &str) -> (r: IpcResponse)
        ensures
            r.success == false,
            r.message@ == message@,
            r.running is None,
            r.output_device is None,
            r.mic_enabled is None,
            r.mic_input_device is None,
    {
        IpcResponse {
            success: false,
            message: message.to_owned(),
            running: None,
            output_device: None,
            mic_enabled: None,
            mic_input_device: None,
        }
    }

    /// A status reply for an engine without a configured mic path.
    pub fn status(running: bool, output_device: &str) -> (r: IpcResponse)
        ensures
            r.success == true,
            r.message@ == "Status retrieved"@,
            r.running == Some(running),
            r.output_device matches Some(d) && d@ == output_device@,
            r.mic_enabled is None,
            r.mic_input_device is None,
    {
        IpcResponse {
            success: true,
            message: "Status retrieved".to_owned(),
            running: Some(running),
            output_device: Some(output_device.to_owned()),
            mic_enabled: None,
            mic_input_device: None,
        }
    }

    /// A status reply for an engine with a configured mic path.
    pub fn status_full(
        running: bool,
        output_device: &str,
        mic_enabled: bool,
        mic_input_device: Option<&str>,
    ) -> (r: IpcResponse)
        ensures
            r.success == true,
            r.message@ == "Status retrieved"@,
            r.running == Some(running),
            r.output_device matches Some(d) && d@ == output_device@,
            r.mic_enabled == Some(mic_enabled),
            match mic_input_device {
                Some(m) => r.mic_input_device matches Some(d) && d@ == m@,
                None => r.mic_input_device is None,
            },
    {
        let mic_input = match mic_input_device {
            Some(m) => Some(m.to_owned()),
            None => None,
        };
        IpcResponse {
            success: true,
            message: "Status retrieved".to_owned(),
            running: Some(running),
            output_device: Some(output_device.to_owned()),
            mic_enabled: Some(mic_enabled),
            mic_input_device: mic_input,
        }
    }
}

/// Control variables of the mic path: its hot-swappable capture target and
/// its enable flag.
pub struct MicControl {
    pub input_device: String,
    pub enabled: bool,
}

/// The shared control variables the dispatcher mutates: the run flag, the
/// speaker path's render target, and the mic path's controls when that
/// path is configured.
pub struct ControlState {
    pub running: bool,
    pub output_device: String,
    pub mic: Option<MicControl>,
}

/// Apply one command to the control state and build the reply.
///
/// `SetOutput` retargets the speaker path; `Stop` clears the run flag;
/// `GetStatus` reads without writing; the two mic commands fail when no
/// mic path is configured.
pub fn handle_ipc_command(command: IpcCommand, state: &mut ControlState) -> (r: IpcResponse)
    ensures
        match command {
            IpcCommand::SetOutput { device_id } => {
                &&& final(state).output_device == device_id
                &&& final(state).running == old(state).running
                &&& final(state).mic == old(state).mic
                &&& r.success == true
                &&& r.message@ == "Output device updated"@
            },
            IpcCommand::GetStatus => {
                &&& *final(state) == *old(state)
                &&& r.success == true
                &&& r.message@ == "Status retrieved"@
                &&& r.running == Some(old(state).running)
                &&& r.output_device matches Some(d) && d@ == old(state).output_device@
                &&& match old(state).mic {
                    Some(mic) => r.mic_enabled == Some(mic.enabled) && (r.mic_input_device
                        matches Some(d) && d@ == mic.input_device@),
                    None => r.mic_enabled is None && r.mic_input_device is None,
                }
            },
            IpcCommand::Stop => {
                &&& final(state).running == false
                &&& final(state).output_device == old(state).output_device
                &&& final(state).mic == old(state).mic
                &&& r.success == true
                &&& r.message@ == "Stopping proxy"@
            },
            IpcCommand::SetMicInput { device_id } => match old(state).mic {
                Some(mic) => {
                    &&& final(state).mic matches Some(m) && m.input_device == device_id
                        && m.enabled == mic.enabled
                    &&& final(state).running == old(state).running
                    &&& final(state).output_device == old(state).output_device
                    &&& r.success == true
                    &&& r.message@ == "Mic input device updated"@
                },
                None => {
                    &&& *final(state) == *old(state)
                    &&& r.success == false
                    &&& r.message@ == "Mic proxy not configured"@
                },
            },
            IpcCommand::EnableMic { enabled } => match old(state).mic {
                Some(mic) => {
                    &&& final(state).mic matches Some(m) && m.enabled == enabled
                        && m.input_device == mic.input_device
                    &&& final(state).running == old(state).running
                    &&& final(state).output_device == old(state).output_device
                    &&& r.success == true
                    &&& r.message@ == if enabled {
                        "Mic proxy enabled"@
                    } else {
                        "Mic proxy disabled"@
                    }
                },
                None => {
                    &&& *final(state) == *old(state)
                    &&& r.success == false
                    &&& r.message@ == "Mic proxy not configured"@
                },
            },
        },
{
    match command {
        IpcCommand::SetOutput { device_id } => {
            state.output_device = device_id;
            IpcResponse::success("Output device updated")
        },
        IpcCommand::GetStatus => {
            match &state.mic {
                Some(mic) => IpcResponse::status_full(
                    state.running,
                    state.output_device.as_str(),
                    mic.enabled,
                    Some(mic.input_device.as_str()),
                ),
                None => IpcResponse::status(state.running, state.output_device.as_str()),
            }
        },
        IpcCommand::Stop => {
            state.running = false;
            IpcResponse::success("Stopping proxy")
        },
        IpcCommand::SetMicInput { device_id } => {
            match &state.mic {
                Some(mic) => {
                    let enabled = mic.enabled;
                    state.mic = Some(MicControl { input_device: device_id, enabled });
                    IpcResponse::success("Mic input device updated")
                },
                None => IpcResponse::error("Mic proxy not configured"),
            }
        },
        IpcCommand::EnableMic { enabled } => {
            match &state.mic {
                Some(mic) => {
                    let input_device = mic.input_device.clone();
                    state.mic = Some(MicControl { input_device, enabled });
                    if enabled {
                        IpcResponse::success("Mic proxy enabled")
                    } else {
                        IpcResponse::success("Mic proxy disabled")
                    }
                },
                None => IpcResponse::error("Mic proxy not configured"),
            }
        },
    }
}

} // verus!
