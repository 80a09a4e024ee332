use joycombinerd::combined_controller_manager::CombinedControllerManager;
use joycombinerd::controller::{Controller, LEFT_JOYCON_PRODUCT_ID, RIGHT_JOYCON_PRODUCT_ID};
use joycombinerd::controller_manager::{PollHandler, PollerOp};
use joycombinerd::errors::Error;
use joycombinerd::key_map::KeyMap;
use joycombinerd::poll_manager::PollManager;

fn halves() -> (Controller, Controller) {
    (
        Controller::new(10, LEFT_JOYCON_PRODUCT_ID).unwrap(),
        Controller::new(11, RIGHT_JOYCON_PRODUCT_ID).unwrap(),
    )
}

#[test]
fn removing_one_of_two_returns_exactly_the_other() {
    let mut ccm = CombinedControllerManager::new();
    let mut pm: PollManager<PollHandler> = PollManager::new();
    let (a, b) = halves();
    let token_a: usize = 7;
    let token_b: usize = 9;

    let (group, ops) = ccm
        .add_new_devices(vec![(token_a, a), (token_b, b)], KeyMap::Combined, 50, &mut pm)
        .unwrap();
    // The synthetic device is subscribed first, then each constituent.
    assert_eq!(ops.len(), 3);
    assert!(matches!(ops[0], PollerOp::Add { fd: 50, .. }));
    assert!(matches!(ops[1], PollerOp::Add { fd: 10, .. }));
    assert!(matches!(ops[2], PollerOp::Add { fd: 11, .. }));
    assert_eq!(ccm.group_of(token_a), Some(group));
    assert_eq!(ccm.group_of(token_b), Some(group));

    let (survivors, ops) = ccm.remove_device(token_a, &mut pm).unwrap();
    assert_eq!(survivors.len(), 1);
    assert_eq!(survivors[0].0, token_b);
    assert_eq!(survivors[0].1.fd, 11);
    assert_eq!(ops.len(), 3);
    assert!(matches!(ops[0], PollerOp::Delete { fd: 50, .. }));

    // Full-teardown policy: the group is gone, so a second removal finds
    // nothing to remove here.
    assert_eq!(ccm.group_of(token_b), None);
    assert!(matches!(ccm.remove_device(token_b, &mut pm), Err(Error::NotFound)));
}

#[test]
fn removing_a_lone_constituent_yields_no_survivor() {
    let mut ccm = CombinedControllerManager::new();
    let mut pm: PollManager<PollHandler> = PollManager::new();
    let (a, _) = halves();
    let (group, _) = ccm.add_new_devices(vec![(3, a)], KeyMap::Identity, 50, &mut pm).unwrap();
    let (survivors, ops) = ccm.remove_device(3, &mut pm).unwrap();
    assert!(survivors.is_empty());
    assert_eq!(ops.len(), 2);
    assert_eq!(ccm.group_of(3), None);
    // The group token returned to the pool: a fresh admission reuses it.
    let (b, _) = halves();
    let (group2, _) = ccm.add_new_devices(vec![(4, b)], KeyMap::Identity, 51, &mut pm).unwrap();
    assert_eq!(group2, group);
}

#[test]
fn unknown_token_is_not_found() {
    let mut ccm = CombinedControllerManager::new();
    let mut pm: PollManager<PollHandler> = PollManager::new();
    assert!(matches!(ccm.remove_device(1, &mut pm), Err(Error::NotFound)));
    assert_eq!(ccm.group_of(1), None);
}
