use vstd::prelude::*;

verus! {

/// Event-type code of key (button) events in the kernel input protocol.
pub const EV_KEY: u16 = 0x01;
/// Event-type code of force-feedback request events.
pub const EV_FORCE_FEEDBACK: u16 = 0x15;

/// Key code of the left shoulder trigger.
pub const BTN_TL: u16 = 0x136;
/// Key code of the right shoulder trigger.
pub const BTN_TR: u16 = 0x137;
/// Key code of the lower left trigger.
pub const BTN_TL2: u16 = 0x138;
/// Key code of the lower right trigger.
pub const BTN_TR2: u16 = 0x139;

/// One pending input event of a physical or synthetic device, reduced to
/// the three words the control plane reads: event type, code and value.
#[derive(Clone, Copy, Debug, PartialEq, Eq, Structural)]
pub struct InputEventData {
    /// Event type (`EV_KEY` for buttons).
    pub kind: u16,
    /// Event code (a key code for `EV_KEY` events).
    pub code: u16,
    /// Event value (for keys: 0 released, nonzero held).
    pub value: i32,
}

impl InputEventData {
    /// Builds an event from its three raw words.
    pub fn new(kind: u16, code: u16, value: i32) -> (ev: InputEventData)
        ensures
            ev == (InputEventData { kind, code, value }),
    {
        InputEventData { kind, code, value }
    }
}

} // verus!
