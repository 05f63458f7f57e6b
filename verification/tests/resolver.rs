use audio_proxy::resolver::find_device_by_id;
use audio_proxy::resolver::DeviceInfo;
use audio_proxy::resolver::MatchPass;

fn dev(id: &str, name: &str) -> DeviceInfo {
    DeviceInfo { id: id.as_bytes().to_vec(), name: name.as_bytes().to_vec() }
}

fn corpus() -> Vec<DeviceInfo> {
    vec![
        dev("{0.0.0.00000000}.{aaaa}", "Speakers (Realtek)"),
        dev("{0.0.0.00000000}.{bbbb}", "Headphones"),
        dev("{0.0.0.00000000}.{cccc}", "CABLE Output (VB-Audio)"),
    ]
}

#[test]
fn test_exact_id_wins() {
    let devices = corpus();
    let r = find_device_by_id(&devices, b"{0.0.0.00000000}.{bbbb}");
    assert_eq!(r, Some((1, MatchPass::ById)));
}

#[test]
fn test_id_beats_name_substring() {
    // One device whose id is the query, another whose name contains it.
    let devices = vec![dev("Headphones", "Some other card"), dev("{id2}", "USB Headphones Pro")];
    let r = find_device_by_id(&devices, b"Headphones");
    assert_eq!(r, Some((0, MatchPass::ById)));
}

#[test]
fn test_exact_name_case_insensitive() {
    let devices = corpus();
    let r = find_device_by_id(&devices, b"hEADPHONES");
    assert_eq!(r, Some((1, MatchPass::ByName)));
}

#[test]
fn test_partial_name_match() {
    let devices = corpus();
    let r = find_device_by_id(&devices, b"cable");
    assert_eq!(r, Some((2, MatchPass::ByPartialName)));
}

#[test]
fn test_first_in_enumeration_order_wins() {
    let devices = vec![dev("a", "USB Audio One"), dev("b", "USB Audio Two")];
    let r = find_device_by_id(&devices, b"usb audio");
    assert_eq!(r, Some((0, MatchPass::ByPartialName)));
}

#[test]
fn test_total_miss() {
    let devices = corpus();
    assert_eq!(find_device_by_id(&devices, b"no such device"), None);
}

#[test]
fn test_empty_corpus() {
    let devices: Vec<DeviceInfo> = Vec::new();
    assert_eq!(find_device_by_id(&devices, b"anything"), None);
}
