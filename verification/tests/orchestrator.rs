use joycombinerd::controller::{
    Controller, Model, PairingState, LEFT_JOYCON_PRODUCT_ID, RIGHT_JOYCON_PRODUCT_ID,
};
use joycombinerd::controller_manager::{
    ControllerManager, ControllerMessage, DeviceDescriptor, Effect, PollHandler, PollerOp,
    UdevEventKind, WakeEvent,
};
use joycombinerd::errors::Error;
use joycombinerd::events::{InputEventData, BTN_TL, BTN_TL2, EV_KEY};
use joycombinerd::key_map::KeyMap;
use joycombinerd::poll_manager::PollManager;
use joycombinerd::virtual_controller::{OutputAction, OutputEvent};

fn descriptor(path: u8, fd: i32, product_id: u16) -> DeviceDescriptor {
    DeviceDescriptor { path: Some(vec![b'/', path]), fd, product_id }
}

fn enroll(
    cm: &mut ControllerManager,
    pm: &mut PollManager<PollHandler>,
    path: u8,
    fd: i32,
    product_id: u16,
) -> Vec<Effect> {
    cm.process(pm, ControllerMessage::DeviceScan(descriptor(path, fd, product_id)))
        .expect("admission should succeed")
}

#[test]
fn end_to_end_pairing_fuses_left_and_right() {
    let mut cm = ControllerManager::new();
    let mut pm: PollManager<PollHandler> = PollManager::new();

    // Cold-start style admission of one left and one right half.
    let effects = enroll(&mut cm, &mut pm, b'a', 10, LEFT_JOYCON_PRODUCT_ID);
    assert!(matches!(effects[0], Effect::Poller(PollerOp::Add { fd: 10, .. })));
    enroll(&mut cm, &mut pm, b'b', 11, RIGHT_JOYCON_PRODUCT_ID);
    let left_token: usize = 0;
    let right_token: usize = 1;
    assert!(cm.waiting_controller_manager.get_controller(left_token).is_ok());
    assert!(cm.waiting_controller_manager.get_controller(right_token).is_ok());

    // A verdict from the left half alone arms its register, nothing more.
    let effects = cm
        .process(
            &mut pm,
            ControllerMessage::StateUpdate(left_token, PairingState::Waiting(Model::LeftJoycon)),
        )
        .unwrap();
    assert!(effects.is_empty());

    // The right half's verdict completes the pair: a fusion is requested.
    let effects = cm
        .process(
            &mut pm,
            ControllerMessage::StateUpdate(right_token, PairingState::Waiting(Model::RightJoycon)),
        )
        .unwrap();
    assert_eq!(effects.len(), 1);
    let (tokens, key_map) = match &effects[0] {
        Effect::BuildFusion { tokens, key_map } => (tokens.clone(), *key_map),
        other => panic!("expected a fusion request, got {:?}", other),
    };
    assert_eq!(tokens, vec![left_token, right_token]);
    assert_eq!(key_map, KeyMap::Combined);

    // The binary builds the synthetic device and completes the fusion.
    let (result, _effects) = cm.fuse(&mut pm, &tokens, key_map, 99);
    let group = result.expect("fusion should succeed");

    // Exactly one fused group now contains both tokens, and neither
    // remains in the waiting set.
    assert_eq!(cm.combined_controller_manager.group_of(left_token), Some(group));
    assert_eq!(cm.combined_controller_manager.group_of(right_token), Some(group));
    assert!(cm.waiting_controller_manager.get_controller(left_token).is_err());
    assert!(cm.waiting_controller_manager.get_controller(right_token).is_err());
}

#[test]
fn removing_one_of_two_constituents_reenrolls_exactly_the_survivor() {
    let mut cm = ControllerManager::new();
    let mut pm: PollManager<PollHandler> = PollManager::new();
    enroll(&mut cm, &mut pm, b'a', 10, LEFT_JOYCON_PRODUCT_ID);
    enroll(&mut cm, &mut pm, b'b', 11, RIGHT_JOYCON_PRODUCT_ID);
    cm.process(&mut pm, ControllerMessage::StateUpdate(0, PairingState::Waiting(Model::LeftJoycon)))
        .unwrap();
    cm.process(
        &mut pm,
        ControllerMessage::StateUpdate(1, PairingState::Waiting(Model::RightJoycon)),
    )
    .unwrap();
    let (result, _) = cm.fuse(&mut pm, &vec![0, 1], KeyMap::Combined, 99);
    let group = result.unwrap();

    // Removing the left half tears the whole group down and returns the
    // right half to the waiting set.
    let effects = cm
        .process(
            &mut pm,
            ControllerMessage::UdevEvent(UdevEventKind::Remove, descriptor(b'a', -1, 0)),
        )
        .unwrap();
    assert!(effects.iter().any(|e| matches!(e, Effect::Poller(PollerOp::Add { fd: 11, .. }))));
    assert_eq!(cm.combined_controller_manager.group_of(0), None);
    assert_eq!(cm.combined_controller_manager.group_of(1), None);
    assert!(cm.waiting_controller_manager.get_controller(1).is_ok());
    let _ = group;

    // The adopted policy is full teardown: a subsequent removal of the
    // survivor finds it in the waiting set, not in a group.
    let effects = cm
        .process(
            &mut pm,
            ControllerMessage::UdevEvent(UdevEventKind::Remove, descriptor(b'b', -1, 0)),
        )
        .unwrap();
    assert_eq!(effects.len(), 1);
    assert!(cm.waiting_controller_manager.get_controller(1).is_err());
}

#[test]
fn lone_gesture_through_the_reactor_requests_a_single_fusion() {
    let mut cm = ControllerManager::new();
    let mut pm: PollManager<PollHandler> = PollManager::new();
    let effects = enroll(&mut cm, &mut pm, b'a', 10, LEFT_JOYCON_PRODUCT_ID);
    let key = match effects[0] {
        Effect::Poller(PollerOp::Add { key, .. }) => key,
        _ => panic!("expected a subscription"),
    };

    // One wake of the half's source with both own triggers held.
    let batch = vec![
        InputEventData::new(EV_KEY, BTN_TL, 1),
        InputEventData::new(EV_KEY, BTN_TL2, 1),
    ];
    let (results, effects, _) = cm.poll(&mut pm, vec![(key, WakeEvent::Input(batch))]);
    assert_eq!(results.len(), 1);
    assert_eq!(results[0].0, key);
    assert!(results[0].1.is_ok());
    assert_eq!(effects.len(), 1);
    match &effects[0] {
        Effect::BuildFusion { tokens, key_map } => {
            assert_eq!(tokens, &vec![0]);
            assert_eq!(*key_map, KeyMap::Identity);
        }
        other => panic!("expected a fusion request, got {:?}", other),
    }

    // Horizontal gesture of a right half picks the right horizontal map.
    enroll(&mut cm, &mut pm, b'b', 11, RIGHT_JOYCON_PRODUCT_ID);
    let effects = cm
        .process(&mut pm, ControllerMessage::StateUpdate(1, PairingState::Horizontal))
        .unwrap();
    match &effects[0] {
        Effect::BuildFusion { tokens, key_map } => {
            assert_eq!(tokens, &vec![1]);
            assert_eq!(*key_map, KeyMap::HorizontalRight);
        }
        other => panic!("expected a fusion request, got {:?}", other),
    }
}

#[test]
fn wake_of_an_unsubscribed_key_is_contained() {
    let mut cm = ControllerManager::new();
    let mut pm: PollManager<PollHandler> = PollManager::new();
    let (results, effects, _) = cm.poll(&mut pm, vec![(17, WakeEvent::Output)]);
    assert_eq!(results.len(), 1);
    assert_eq!(results[0], (17, Err(Error::NotFound)));
    assert!(effects.is_empty());
}

#[test]
fn admission_error_cases() {
    let mut cm = ControllerManager::new();
    let mut pm: PollManager<PollHandler> = PollManager::new();
    // No usable path.
    let r = cm.process(
        &mut pm,
        ControllerMessage::DeviceScan(DeviceDescriptor { path: None, fd: 5, product_id: 0x2006 }),
    );
    assert_eq!(r.unwrap_err(), Error::MissingPath);
    // Unknown product id aborts only that admission.
    let r = cm.process(&mut pm, ControllerMessage::DeviceScan(descriptor(b'x', 5, 0x9999)));
    assert_eq!(r.unwrap_err(), Error::UnknownModel);
    // Removal of a path that was never admitted.
    let r = cm.process(
        &mut pm,
        ControllerMessage::UdevEvent(UdevEventKind::Remove, descriptor(b'z', -1, 0)),
    );
    assert_eq!(r.unwrap_err(), Error::NotFound);
    // A hotplug notification of an unhandled kind.
    let r = cm.process(
        &mut pm,
        ControllerMessage::UdevEvent(UdevEventKind::Other, descriptor(b'z', -1, 0)),
    );
    assert_eq!(r.unwrap_err(), Error::ProtocolViolation);
    // Relay messages have no orchestrator-level effect.
    assert_eq!(cm.process(&mut pm, ControllerMessage::Relay).unwrap().len(), 0);
}

#[test]
fn relay_paths_through_the_orchestrator() {
    let mut cm = ControllerManager::new();
    let mut pm: PollManager<PollHandler> = PollManager::new();
    enroll(&mut cm, &mut pm, b'a', 10, LEFT_JOYCON_PRODUCT_ID);
    let (result, effects) = cm.fuse(&mut pm, &vec![0], KeyMap::Identity, 99);
    let group = result.unwrap();

    // The fusion subscribed the synthetic device and the constituent.
    let constituent_key = match effects.last() {
        Some(Effect::Poller(PollerOp::Add { key, fd: 10 })) => *key,
        other => panic!("expected the constituent subscription, got {:?}", other),
    };

    // A wake of the constituent relays its batch to the synthetic device.
    let batch = vec![InputEventData::new(EV_KEY, BTN_TL, 1)];
    let (results, effects, _) = cm.poll(
        &mut pm,
        vec![(constituent_key, WakeEvent::Input(batch.clone()))],
    );
    assert!(results[0].1.is_ok());
    match &effects[0] {
        Effect::EmitInput { virtual_fd, events } => {
            assert_eq!(*virtual_fd, 99);
            assert_eq!(events, &batch);
        }
        other => panic!("expected an input relay, got {:?}", other),
    }

    // Force-feedback through the orchestrator-level relay.
    let action = cm.relay_output_events(group, &OutputEvent::FfUpload { effect_id: -1 }).unwrap();
    assert_eq!(action, OutputAction::BeginUpload { first_fd: 10, second_fd: None });
    assert_eq!(cm.record_effect(group, Some(4), None), Ok(4));
    let out = cm.relay_input_events(group, 0, &batch).unwrap();
    assert_eq!(out, batch);
    assert_eq!(cm.relay_output_events(group + 1, &OutputEvent::FfUpload { effect_id: -1 }), Err(Error::NotFound));
}

#[test]
fn readmission_after_removal_reuses_the_token() {
    let mut cm = ControllerManager::new();
    let mut pm: PollManager<PollHandler> = PollManager::new();
    enroll(&mut cm, &mut pm, b'a', 10, LEFT_JOYCON_PRODUCT_ID);
    let r = cm.process(
        &mut pm,
        ControllerMessage::UdevEvent(UdevEventKind::Remove, descriptor(b'a', -1, 0)),
    );
    assert!(r.is_ok());
    assert!(cm.waiting_controller_manager.get_controller(0).is_err());
    // The token returned to the pool; the same node path admits again.
    enroll(&mut cm, &mut pm, b'a', 12, LEFT_JOYCON_PRODUCT_ID);
    let c: Controller = cm.waiting_controller_manager.get_controller(0).unwrap();
    assert_eq!(c.fd, 12);
}

#[test]
fn hotplug_notification_through_the_reactor_admits_the_device() {
    let mut cm = ControllerManager::new();
    let mut pm: PollManager<PollHandler> = PollManager::new();
    let monitor_key = joycombinerd::poll_manager::KEY_CAPACITY - 1;
    pm.subscribe_with_key(monitor_key, PollHandler::Detector).unwrap();

    let wake = WakeEvent::Udev(UdevEventKind::Add, descriptor(b'a', 10, LEFT_JOYCON_PRODUCT_ID));
    let (results, effects, _) = cm.poll(&mut pm, vec![(monitor_key, wake)]);
    assert_eq!(results.len(), 1);
    assert_eq!(results[0].0, monitor_key);
    assert!(results[0].1.is_ok());
    assert!(matches!(effects[0], Effect::Poller(PollerOp::Add { fd: 10, .. })));
    assert!(cm.waiting_controller_manager.get_controller(0).is_ok());

    // A payload that does not match the subscription's kind is contained.
    let (results, _, _) = cm.poll(&mut pm, vec![(monitor_key, WakeEvent::Output)]);
    assert_eq!(results[0].1, Err(Error::ProtocolViolation));
}

#[test]
fn token_pool_exhausts_after_capacity_admissions() {
    let mut cm = ControllerManager::new();
    let mut pm: PollManager<PollHandler> = PollManager::new();
    for i in 0..joycombinerd::controller_manager::CONTROLLER_TOKEN_CAPACITY {
        let d = DeviceDescriptor {
            path: Some(vec![b'/', (i / 256) as u8, (i % 256) as u8]),
            fd: i as i32,
            product_id: LEFT_JOYCON_PRODUCT_ID,
        };
        cm.process(&mut pm, ControllerMessage::DeviceScan(d)).unwrap();
    }
    let d = descriptor(b'x', 999, LEFT_JOYCON_PRODUCT_ID);
    let r = cm.process(&mut pm, ControllerMessage::DeviceScan(d));
    assert_eq!(r.unwrap_err(), Error::AllocationExhausted);
}
