use ergodox_display::hid::{
    decode_packet, disconnected, init_failed, is_oryx_interface, not_found_error, paired,
    pairing_command, pairing_step, pairing_timeout_error, HidMonitor, KbEvent, PairingStep,
    PACKET_SIZE,
};

fn packet(bytes: &[u8]) -> Vec<u8> {
    let mut p = vec![0u8; PACKET_SIZE];
    p[..bytes.len()].copy_from_slice(bytes);
    p
}

fn status(connected: bool, detail: &str) -> KbEvent {
    KbEvent::Status { connected, detail: detail.to_string() }
}

#[test]
fn disconnected_event() {
    assert_eq!(disconnected("gone".to_string()), status(false, "gone"));
    assert_eq!(paired(), status(true, "paired"));
    assert_eq!(init_failed("no backend"), status(false, "hidapi init failed: no backend"));
}

#[test]
fn oryx_interface_matching() {
    assert!(is_oryx_interface(0x3297, 0xFF60, 0x61));
    assert!(!is_oryx_interface(0x3298, 0xFF60, 0x61));
    assert!(!is_oryx_interface(0x3297, 0xFF61, 0x61));
    assert!(!is_oryx_interface(0x3297, 0xFF60, 0x62));
}

#[test]
fn pairing_command_bytes() {
    let cmd = pairing_command();
    assert_eq!(cmd.len(), 33);
    let mut expected = vec![0u8; 33];
    expected[1] = 0x01;
    assert_eq!(cmd, expected);
}

#[test]
fn pairing_steps() {
    assert_eq!(pairing_step(0, 32, &packet(&[0x04])), PairingStep::Paired);
    assert_eq!(pairing_step(4, 1, &packet(&[0x04])), PairingStep::Paired);
    assert_eq!(pairing_step(0, 0, &packet(&[0x04])), PairingStep::ReadAgain);
    assert_eq!(pairing_step(3, 32, &packet(&[0x05])), PairingStep::ReadAgain);
    assert_eq!(pairing_step(4, 0, &packet(&[])), PairingStep::TimedOut);
    assert_eq!(pairing_step(4, 32, &packet(&[0x06])), PairingStep::TimedOut);
}

#[test]
fn pairing_gives_up_after_five_silent_reads() {
    let silent = packet(&[]);
    let steps: Vec<PairingStep> = (0..5).map(|a| pairing_step(a, 0, &silent)).collect();
    assert_eq!(
        steps,
        vec![
            PairingStep::ReadAgain,
            PairingStep::ReadAgain,
            PairingStep::ReadAgain,
            PairingStep::ReadAgain,
            PairingStep::TimedOut
        ]
    );
}

#[test]
fn error_texts() {
    assert_eq!(not_found_error(), "keyboard not found");
    assert_eq!(pairing_timeout_error(), "pairing timed out");
}

#[test]
fn decode_layer_and_keys() {
    assert_eq!(decode_packet(32, &packet(&[0x05, 3])), Some(KbEvent::Layer { layer: 3 }));
    assert_eq!(
        decode_packet(32, &packet(&[0x06, 7, 2])),
        Some(KbEvent::Key { down: true, row: 2, col: 7 })
    );
    assert_eq!(
        decode_packet(3, &packet(&[0x07, 13, 5])),
        Some(KbEvent::Key { down: false, row: 5, col: 13 })
    );
}

#[test]
fn decode_timeouts_and_unknown_packets() {
    assert_eq!(decode_packet(0, &packet(&[0x06, 1, 1])), None);
    assert_eq!(decode_packet(32, &packet(&[0x04])), None);
    assert_eq!(decode_packet(32, &packet(&[0x00])), None);
    assert_eq!(decode_packet(32, &packet(&[0xFF, 1, 2])), None);
}

#[test]
fn monitor_reports_only_changes() {
    let mut m = HidMonitor::new();
    assert_eq!(m.connect_failed("keyboard not found".to_string()), Some(status(false, "keyboard not found")));
    assert_eq!(m.connect_failed("keyboard not found".to_string()), None);
    assert_eq!(m.connect_failed("keyboard not found".to_string()), None);
    assert_eq!(m.connect_failed("pairing timed out".to_string()), Some(status(false, "pairing timed out")));
    assert_eq!(m.connect_failed("pairing timed out".to_string()), None);
}

#[test]
fn monitor_reports_afresh_after_pairing() {
    let mut m = HidMonitor::new();
    assert!(m.connect_failed("keyboard not found".to_string()).is_some());
    assert_eq!(m.connected(), status(true, "paired"));
    assert_eq!(m.last_detail, "");
    assert_eq!(m.listen_ended("device unplugged".to_string()), status(false, "device unplugged"));
    assert_eq!(m.connect_failed("keyboard not found".to_string()), Some(status(false, "keyboard not found")));
}

#[test]
fn monitor_empty_detail_is_not_reported_at_start() {
    let mut m = HidMonitor::new();
    assert_eq!(m.connect_failed(String::new()), None);
}
