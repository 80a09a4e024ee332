use joycombinerd::controller::{
    Controller, Model, PairingState, LEFT_JOYCON_PRODUCT_ID, RIGHT_JOYCON_PRODUCT_ID,
};
use joycombinerd::errors::Error;
use joycombinerd::events::{InputEventData, BTN_TL, BTN_TL2, BTN_TR, BTN_TR2, EV_KEY};

fn key(code: u16, value: i32) -> InputEventData {
    InputEventData::new(EV_KEY, code, value)
}

fn left() -> Controller {
    Controller::new(3, LEFT_JOYCON_PRODUCT_ID).expect("left product id is known")
}

fn right() -> Controller {
    Controller::new(4, RIGHT_JOYCON_PRODUCT_ID).expect("right product id is known")
}

#[test]
fn model_classification() {
    assert_eq!(Model::from_product_id(LEFT_JOYCON_PRODUCT_ID), Ok(Model::LeftJoycon));
    assert_eq!(Model::from_product_id(RIGHT_JOYCON_PRODUCT_ID), Ok(Model::RightJoycon));
    assert_eq!(Model::from_product_id(0x2008), Err(Error::UnknownModel));
    assert_eq!(Model::from_product_id(0), Err(Error::UnknownModel));
    assert!(Model::LeftJoycon.is_left());
    assert!(!Model::LeftJoycon.is_right());
    assert!(Model::RightJoycon.is_right());
    assert!(!Model::RightJoycon.is_left());
}

#[test]
fn construction_fails_on_unknown_product() {
    assert!(Controller::new(9, 0x1234).is_err());
    assert_eq!(left().get_model(), Model::LeftJoycon);
    assert_eq!(right().get_model(), Model::RightJoycon);
}

#[test]
fn left_one_trigger_waits() {
    let mut c = left();
    let state = c.handle_pairing_events(&vec![key(BTN_TL, 1)]);
    assert_eq!(state, PairingState::Waiting(Model::LeftJoycon));
}

#[test]
fn left_both_triggers_lone() {
    let mut c = left();
    let state = c.handle_pairing_events(&vec![key(BTN_TL, 1), key(BTN_TL2, 1)]);
    assert_eq!(state, PairingState::Lone);
}

#[test]
fn left_side_buttons_horizontal_even_with_triggers_held() {
    let mut c = left();
    let state = c.handle_pairing_events(&vec![
        key(BTN_TL, 1),
        key(BTN_TL2, 1),
        key(BTN_TR, 1),
        key(BTN_TR2, 1),
    ]);
    assert_eq!(state, PairingState::Horizontal);
}

#[test]
fn all_released_is_pairing() {
    let mut c = left();
    assert_eq!(c.handle_pairing_events(&Vec::new()), PairingState::Pairing);
    let state = c.handle_pairing_events(&vec![key(BTN_TL, 1), key(BTN_TL, 0)]);
    assert_eq!(state, PairingState::Pairing);
}

#[test]
fn right_model_is_symmetric() {
    let mut c = right();
    // On a right half the two shoulder-trigger codes are its own triggers.
    let state = c.handle_pairing_events(&vec![key(BTN_TR, 1)]);
    assert_eq!(state, PairingState::Waiting(Model::RightJoycon));
    let state = c.handle_pairing_events(&vec![key(BTN_TR2, 1)]);
    assert_eq!(state, PairingState::Lone);
    // The same raw side-button codes land in sl/sr on a right half too.
    let mut c2 = right();
    let state = c2.handle_pairing_events(&vec![key(BTN_TL, 1), key(BTN_TL2, 1)]);
    assert_eq!(state, PairingState::Horizontal);
}

#[test]
fn non_key_events_are_ignored() {
    let mut c = left();
    let state = c.handle_pairing_events(&vec![InputEventData::new(0x03, BTN_TL, 1)]);
    assert_eq!(state, PairingState::Pairing);
}

#[test]
fn state_is_recomputed_fresh_from_accumulators() {
    let mut c = left();
    assert_eq!(
        c.handle_pairing_events(&vec![key(BTN_TL, 1)]),
        PairingState::Waiting(Model::LeftJoycon)
    );
    assert_eq!(c.handle_pairing_events(&vec![key(BTN_TL2, 1)]), PairingState::Lone);
    assert_eq!(
        c.handle_pairing_events(&vec![key(BTN_TL, 0)]),
        PairingState::Waiting(Model::LeftJoycon)
    );
    assert_eq!(c.handle_pairing_events(&vec![key(BTN_TL2, 0)]), PairingState::Pairing);
}
