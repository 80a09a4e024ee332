use joycombinerd::controller_manager::PollHandler;
use joycombinerd::errors::Error;
use joycombinerd::poll_manager::{PollManager, KEY_CAPACITY};

#[test]
fn one_result_per_ready_source_keys_matching() {
    let mut pm: PollManager<PollHandler> = PollManager::new();
    let key_a = pm.subscribe(PollHandler::PairingController { token: 7 }).unwrap();
    let key_b = pm.subscribe(PollHandler::PairingController { token: 8 }).unwrap();
    assert_ne!(key_a, key_b);

    let out = pm.poll(&vec![key_a, key_b]);
    assert_eq!(out.len(), 2);
    assert_eq!(out[0], Ok((key_a, PollHandler::PairingController { token: 7 })));
    assert_eq!(out[1], Ok((key_b, PollHandler::PairingController { token: 8 })));
}

#[test]
fn removed_key_never_reaches_its_stale_handler() {
    let mut pm: PollManager<PollHandler> = PollManager::new();
    let key_a = pm.subscribe(PollHandler::Detector).unwrap();
    let key_b = pm.subscribe(PollHandler::VirtualOutput { group: 1 }).unwrap();
    assert_eq!(pm.remove(key_a), Ok(()));

    // A wake for the removed key yields a per-event miss and must not
    // abort the rest of the batch.
    let out = pm.poll(&vec![key_a, key_b]);
    assert_eq!(out.len(), 2);
    assert_eq!(out[0], Err(Error::NotFound));
    assert_eq!(out[1], Ok((key_b, PollHandler::VirtualOutput { group: 1 })));

    assert_eq!(pm.remove(key_a), Err(Error::NotFound));
}

#[test]
fn subscribe_with_key_reserves_the_fixed_slot() {
    let mut pm: PollManager<PollHandler> = PollManager::new();
    let fixed = KEY_CAPACITY - 1;
    assert_eq!(pm.subscribe_with_key(fixed, PollHandler::Detector), Ok(()));
    assert_eq!(
        pm.subscribe_with_key(fixed, PollHandler::Detector),
        Err(Error::AlreadyAllocated)
    );
    let out = pm.poll(&vec![fixed]);
    assert_eq!(out, vec![Ok((fixed, PollHandler::Detector))]);
}

#[test]
fn modify_replaces_a_live_handler_only() {
    let mut pm: PollManager<PollHandler> = PollManager::new();
    let key = pm.subscribe(PollHandler::VirtualOutput { group: 3 }).unwrap();
    assert_eq!(pm.modify(key, PollHandler::VirtualOutput { group: 4 }), Ok(()));
    assert_eq!(pm.poll(&vec![key]), vec![Ok((key, PollHandler::VirtualOutput { group: 4 }))]);
    assert_eq!(pm.modify(key + 1, PollHandler::Detector), Err(Error::NotFound));
}

#[test]
fn key_pool_exhausts_and_recovers() {
    let mut pm: PollManager<PollHandler> = PollManager::new();
    let mut last: usize = 0;
    for _ in 0..KEY_CAPACITY {
        last = pm.subscribe(PollHandler::Detector).unwrap();
    }
    assert_eq!(pm.subscribe(PollHandler::Detector), Err(Error::AllocationExhausted));
    assert_eq!(pm.remove(last), Ok(()));
    assert_eq!(pm.subscribe(PollHandler::Detector), Ok(last));
}
