use clicks_core::boot::{
    get_config_path, get_path, get_show_path, get_usb_show_path, get_usb_update_path,
    log_rotation_name, BootError,
};
use clicks_core::bus::EngineBus;
use clicks_core::display::{
    ask_copy_show, ask_patch, ask_usb, button_decision, debug_print, generic_failure,
    generic_success, patch_failure, patch_success, show_load_failure,
};
use clicks_core::protocol::{kind_bit, kind_is_small, mask_contains, ControlAction, MessageKind};
use clicks_core::subscribers::{
    frame_message, parse_frame_class, IpAddress, SubscriberInfo, SubscriberTable,
};

fn sub(d: u8, port: u16, kinds: u32, last_contact: u64) -> SubscriberInfo {
    SubscriberInfo { addr: IpAddress { a: 10, b: 0, c: 0, d }, port, message_kinds: kinds, last_contact }
}

// A subscriber sixteen minutes silent is dropped before the next
// outbound send; a fresh one is kept.
#[test]
fn stale_subscriber_pruned() {
    let now: u64 = 1_000_000;
    let mut table = SubscriberTable::new();
    table.subscribe(sub(1, 9000, 0x1, now - 16 * 60));
    table.subscribe(sub(2, 9000, 0x1, now - 14 * 60));
    let plan = table.plan_notify(now, MessageKind::TransportData);
    assert_eq!(plan.len(), 1);
    assert_eq!(plan[0].addr.d, 2);
    assert_eq!(table.subs.len(), 1);
}

// Subscribing again from the same endpoint replaces the kind mask; a
// new endpoint is appended; unsubscribing removes the endpoint.
#[test]
fn subscribe_update_unsubscribe() {
    let mut table = SubscriberTable::new();
    assert!(!table.subscribe(sub(1, 9000, 0x1, 100)));
    assert!(table.subscribe(sub(1, 9000, 0x3, 100)));
    assert_eq!(table.subs.len(), 1);
    assert_eq!(table.subs[0].message_kinds, 0x3);
    assert!(!table.subscribe(sub(1, 9001, 0x4, 100)));
    assert_eq!(table.subs.len(), 2);
    table.unsubscribe(IpAddress { a: 10, b: 0, c: 0, d: 1 }, 9000);
    assert_eq!(table.subs.len(), 1);
    assert_eq!(table.subs[0].port, 9001);
    table.touch(IpAddress { a: 10, b: 0, c: 0, d: 1 }, 9001, 777);
    assert_eq!(table.subs[0].last_contact, 777);
}

// Only subscribers whose mask admits the kind are in the send plan.
#[test]
fn plan_filters_by_kind() {
    let transport_bit = kind_bit(MessageKind::TransportData);
    let cue_bit = kind_bit(MessageKind::CueData);
    let mut table = SubscriberTable::new();
    table.subscribe(sub(1, 9000, transport_bit, 50));
    table.subscribe(sub(2, 9000, cue_bit, 50));
    table.subscribe(sub(3, 9000, transport_bit | cue_bit, 50));
    let plan = table.plan_notify(60, MessageKind::CueData);
    let ds: Vec<u8> = plan.iter().map(|s| s.addr.d).collect();
    assert_eq!(ds, vec![2, 3]);
    assert!(mask_contains(transport_bit | cue_bit, MessageKind::TransportData));
    assert!(!mask_contains(cue_bit, MessageKind::TransportData));
}

// The frame's size-class byte survives a round trip and rejects noise.
#[test]
fn frame_class_round_trip() {
    let small = frame_message(vec![1, 2, 3], true);
    assert_eq!(small[0], 0xE1);
    assert_eq!(&small[1..], &[1, 2, 3]);
    assert_eq!(parse_frame_class(&small), Some(true));
    let large = frame_message(Vec::new(), false);
    assert_eq!(parse_frame_class(&large), Some(false));
    assert_eq!(parse_frame_class(&vec![0x42, 1]), None);
    assert_eq!(parse_frame_class(&Vec::new()), None);
    assert!(kind_is_small(MessageKind::TransportData));
    assert!(!kind_is_small(MessageKind::CueData));
}

// The bus carries commands across in order, drained within the bound.
#[test]
fn bus_drains_in_order() {
    let bus = EngineBus::new();
    let remote = bus.share();
    remote.command(ControlAction::TransportStart);
    remote.command(ControlAction::TransportStop);
    remote.command(ControlAction::TransportZero);
    let first = bus.drain_commands(2);
    assert_eq!(first, vec![ControlAction::TransportStart, ControlAction::TransportStop]);
    let rest = bus.drain_commands(16);
    assert_eq!(rest, vec![ControlAction::TransportZero]);
    assert!(bus.drain_commands(16).is_empty());
}

#[test]
fn boot_paths() {
    assert_eq!(get_usb_update_path().unwrap(), "/media/usb_mem/clicks.update");
    assert_eq!(get_usb_show_path().unwrap(), "/media/usb_mem/clicks.show");
    assert_eq!(get_show_path("/opt/engine").unwrap(), "/opt/engine/program_memory/clicks.show");
    assert_eq!(get_config_path(), ".config/clicks/clicks.conf");
    assert_eq!(get_path(), "logs");
}

#[test]
fn boot_error_messages() {
    assert_eq!(
        BootError::FileDoesNotExist.message(),
        "Could not find show data. No results. Exiting."
    );
    assert_eq!(
        BootError::FileReadError("nope".to_string()).message(),
        "Could not read file: nope"
    );
    assert_eq!(
        BootError::ConfigWriteError("disk full".to_string()).message(),
        "An error occured when writing configuration: disk full"
    );
}

// The rotated log name spells the start time in little-endian base 32.
#[test]
fn log_rotation_names() {
    assert_eq!(log_rotation_name(0), b"log_.txt".to_vec());
    // 1 -> digit '1'
    assert_eq!(log_rotation_name(1), b"log_1.txt".to_vec());
    // 33 = 1 + 1*32 -> "11"
    assert_eq!(log_rotation_name(33), b"log_11.txt".to_vec());
    // 10 -> 'a'
    assert_eq!(log_rotation_name(10), b"log_a.txt".to_vec());
}

#[test]
fn display_lines() {
    let lines = patch_success();
    assert_eq!(lines, vec!["Update succeeded".to_string(), "".to_string(), "Please reboot".to_string()]);
    assert_eq!(patch_failure().len(), 5);
    let fail = show_load_failure("bad file");
    assert_eq!(fail, vec!["Show load failed".to_string(), "bad file".to_string()]);
    assert_eq!(ask_usb().len(), 5);
    assert_eq!(ask_patch()[3], "Update?");
    assert_eq!(ask_copy_show()[1], "USB show found");
    assert_eq!(generic_success()[1], "Success!");
    assert_eq!(generic_failure("x".to_string()), vec!["Op. failed".to_string(), "x".to_string()]);
    assert_eq!(debug_print("hello".to_string()), vec!["hello".to_string()]);
}

#[test]
fn buttons_decide() {
    assert_eq!(button_decision(0), None);
    assert_eq!(button_decision(0x1), Some(true));
    assert_eq!(button_decision(0x2), Some(false));
    // no wins over yes when both are down
    assert_eq!(button_decision(0x3), Some(false));
}
