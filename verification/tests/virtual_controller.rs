use joycombinerd::errors::Error;
use joycombinerd::events::InputEventData;
use joycombinerd::key_map::{Id, KeyMap};
use joycombinerd::virtual_controller::{
    capability_spec, ForwardTarget, OutputAction, OutputEvent, VirtualController,
};

fn two_halves() -> VirtualController {
    VirtualController::new(vec![10, 11], KeyMap::Combined, 42)
}

#[test]
fn ff_round_trip_with_two_constituents() {
    let mut vc = two_halves();

    // A fresh virtual id orders an upload to both constituents.
    let action = vc.relay_output_events(&OutputEvent::FfUpload { effect_id: -1 }).unwrap();
    assert_eq!(action, OutputAction::BeginUpload { first_fd: 10, second_fd: Some(11) });

    // The reported virtual id equals constituent 0's assigned physical id.
    let virtual_id = vc.record_effect(Some(5), Some(9)).unwrap();
    assert_eq!(virtual_id, 5);

    // Play forwards the same intensity to both, under each side's own id.
    let action = vc.relay_output_events(&OutputEvent::Force { code: 5, value: 77 }).unwrap();
    assert_eq!(
        action,
        OutputAction::Forward {
            first: Some(ForwardTarget { fd: 10, effect_id: 5 }),
            second: Some(ForwardTarget { fd: 11, effect_id: 9 }),
            value: 77,
        }
    );

    // Erase drops the correlation; a second erase is reported, not raised.
    let action = vc.relay_output_events(&OutputEvent::FfErase { effect_id: 5 }).unwrap();
    assert_eq!(action, OutputAction::Erased);
    let action = vc.relay_output_events(&OutputEvent::FfErase { effect_id: 5 }).unwrap();
    assert_eq!(action, OutputAction::EraseRejected);
}

#[test]
fn reupload_of_known_id_is_a_correlation_noop() {
    let mut vc = two_halves();
    vc.relay_output_events(&OutputEvent::FfUpload { effect_id: -1 }).unwrap();
    vc.record_effect(Some(3), Some(4)).unwrap();
    let action = vc.relay_output_events(&OutputEvent::FfUpload { effect_id: 3 }).unwrap();
    assert_eq!(action, OutputAction::UploadKnown);
    // An unknown non-negative id is treated as fresh.
    let action = vc.relay_output_events(&OutputEvent::FfUpload { effect_id: 6 }).unwrap();
    assert_eq!(action, OutputAction::BeginUpload { first_fd: 10, second_fd: Some(11) });
}

#[test]
fn lone_constituent_upload_and_play() {
    let mut vc = VirtualController::new(vec![20], KeyMap::Identity, 41);
    let action = vc.relay_output_events(&OutputEvent::FfUpload { effect_id: -1 }).unwrap();
    assert_eq!(action, OutputAction::BeginUpload { first_fd: 20, second_fd: None });
    let virtual_id = vc.record_effect(Some(2), None).unwrap();
    assert_eq!(virtual_id, 2);
    let action = vc.relay_output_events(&OutputEvent::Force { code: 2, value: 1 }).unwrap();
    assert_eq!(
        action,
        OutputAction::Forward {
            first: Some(ForwardTarget { fd: 20, effect_id: 2 }),
            second: None,
            value: 1,
        }
    );
}

#[test]
fn play_of_uncorrelated_id_is_a_reported_failure() {
    let mut vc = two_halves();
    assert_eq!(
        vc.relay_output_events(&OutputEvent::Force { code: 1, value: 3 }),
        Err(Error::NotFound)
    );
}

#[test]
fn record_without_a_canonical_id_fails() {
    let mut vc = two_halves();
    assert_eq!(vc.record_effect(None, Some(4)), Err(Error::NotFound));
}

#[test]
fn unexpected_event_class_fails_the_turn() {
    let mut vc = two_halves();
    assert_eq!(
        vc.relay_output_events(&OutputEvent::Unsupported { kind: 0x01, code: 0 }),
        Err(Error::ProtocolViolation)
    );
}

#[test]
fn input_relay_maps_each_event_and_keeps_slot_order() {
    let vc = two_halves();
    let batch = vec![
        InputEventData::new(0x01, 0x136, 1),
        InputEventData::new(0x03, 0x00, -500),
        InputEventData::new(0x01, 0x136, 0),
    ];
    // Every current policy is the identity, so the batch survives whole.
    let out = vc.relay_input_events(0, &batch).unwrap();
    assert_eq!(out, batch);
    let out = vc.relay_input_events(1, &batch).unwrap();
    assert_eq!(out, batch);
    assert_eq!(vc.relay_input_events(2, &batch), Err(Error::NotFound));
}

#[test]
fn key_map_policies_pass_events_through() {
    let ev = InputEventData::new(0x01, 0x130, 1);
    assert_eq!(KeyMap::Identity.map_key(0, ev), Some(ev));
    assert_eq!(KeyMap::Combined.map_key(1, ev), Some(ev));
    assert_eq!(KeyMap::HorizontalLeft.map_key(0, ev), Some(ev));
    assert_eq!(KeyMap::HorizontalRight.map_key(0, ev), Some(ev));
    assert_eq!(Id::new().map_key(0, 0x01, 0x130, 1), Some((0x01, 0x130, 1)));
}

#[test]
fn declared_capability_set_is_fixed() {
    let cap = capability_spec();
    assert_eq!(cap.bus_type, 0x06);
    assert_eq!(cap.vendor_id, 0x059e);
    assert_eq!(cap.product_id, 0x2008);
    assert_eq!(cap.version, 0);
    assert_eq!(cap.keys.len(), 18);
    assert!(cap.keys.contains(&0x136));
    assert!(cap.keys.contains(&0x223));
    assert_eq!(cap.axes.len(), 4);
    assert_eq!(cap.axes[0].axis, 0x00);
    assert_eq!(cap.axes[3].axis, 0x04);
    assert_eq!(cap.axes[1].min, -32767);
    assert_eq!(cap.axes[1].max, 32767);
    assert_eq!(cap.axes[1].fuzz, 250);
    assert_eq!(cap.axes[1].flat, 500);
    assert_eq!(cap.ff_effects, vec![0x50, 0x51, 0x58, 0x59, 0x5a, 0x60]);
}
