use vstd::prelude::*;

use crate::events::InputEventData;

verus! {

/// Remap policy of a virtual controller: a pure function of (relay slot,
/// event) to an optional remapped event.  The policy set is a closed
/// tagged variant, so dispatch is an exhaustive match and every policy is
/// statically enumerable.
#[derive(Clone, Copy, Debug, PartialEq, Eq, Structural)]
pub enum KeyMap {
    /// Pass-through map, used for a lone vertical half.
    Identity,
    /// Map of a fused left+right pair; currently the identity.
    Combined,
    /// Map of a lone left half held horizontally.  Its rotation table is
    /// an acknowledged placeholder: until designed, it passes events
    /// through unchanged.
    HorizontalLeft,
    /// Map of a lone right half held horizontally; placeholder like the
    /// left one.
    HorizontalRight,
}

impl KeyMap {
    /// The remapped event a policy yields for a raw event of a slot, or
    /// `None` for an event the policy drops.
    pub open spec fn map_key_spec(self, controller_id: usize, ev: InputEventData) -> Option<
        InputEventData,
    > {
        match self {
            KeyMap::Identity => Some(ev),
            KeyMap::Combined => Some(ev),
            KeyMap::HorizontalLeft => Some(ev),
            KeyMap::HorizontalRight => Some(ev),
        }
    }

    /// Applies the policy to one raw event.
    pub fn map_key(&self, controller_id: usize, ev: InputEventData) -> (r: Option<InputEventData>)
        ensures
            r == self.map_key_spec(controller_id, ev),
    {
        match self {
            KeyMap::Identity => Some(ev),
            KeyMap::Combined => Some(ev),
            KeyMap::HorizontalLeft => Some(ev),
            KeyMap::HorizontalRight => Some(ev),
        }
    }
}

/// The identity remap as a standalone value: every event of every slot
/// passes through unchanged.
#[derive(Clone, Copy, Debug, PartialEq, Eq, Structural)]
pub struct Id;

impl Id {
    pub fn new() -> (r: Id)
        ensures
            r == Id,
    {
        Id
    }

    /// Passes the raw tuple through unchanged.
    pub fn map_key(&self, controller_id: usize, event_type: u16, code: u16, value: i32) -> (r:
        Option<(u16, u16, i32)>)
        ensures
            r == Some((event_type, code, value)),
    {
        Some((event_type, code, value))
    }
}

} // verus!
