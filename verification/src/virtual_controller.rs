use vstd::prelude::*;

use std::collections::HashMap;

use crate::errors::Error;
use crate::events::InputEventData;
use crate::key_map::KeyMap;

verus! {

/// One drained event of the synthetic device, modeled as the words the
/// relay engine reads.  The surrounding binary converts each raw event it
/// fetches into one of these before handing it over.
#[derive(Clone, Copy, Debug, PartialEq, Eq, Structural)]
#[allow(inconsistent_fields)]
pub enum OutputEvent {
    /// A force-feedback play request: the OS asks to run the effect with
    /// this virtual id at this intensity.
    Force { code: u16, value: i32 },
    /// A force-feedback upload request carrying the virtual effect id the
    /// OS proposes (-1 for a fresh effect).
    FfUpload { effect_id: i16 },
    /// A force-feedback erase request for this virtual effect id.
    FfErase { effect_id: u16 },
    /// Any other event class; handling it is a protocol violation.
    Unsupported { kind: u16, code: u16 },
}

/// One destination of a forwarded play request: a constituent's device
/// handle and the physical effect id it holds.
#[derive(Clone, Copy, Debug, PartialEq, Eq, Structural)]
pub struct ForwardTarget {
    pub fd: i32,
    pub effect_id: u16,
}

/// What the surrounding binary must do with one output event, decided by
/// the relay engine.
#[derive(Clone, Copy, Debug, PartialEq, Eq, Structural)]
pub enum OutputAction {
    /// Send the play request on to constituent 0 and/or 1 at the original
    /// intensity.
    Forward { first: Option<ForwardTarget>, second: Option<ForwardTarget>, value: i32 },
    /// The id is fresh: upload the identical effect definition to every
    /// available constituent, then record the returned physical ids with
    /// `record_effect`.
    BeginUpload { first_fd: i32, second_fd: Option<i32> },
    /// The id is already correlated: the upload is a correlation no-op.
    UploadKnown,
    /// The correlation entry was dropped; acknowledge the erase.
    Erased,
    /// The id is unknown: report failure through the erase response's
    /// return-code field rather than raising.
    EraseRejected,
}

/// The events of one relay batch that survive the key map, in order: each
/// raw event is remapped by the policy, and events mapped to `None` are
/// dropped.
pub open spec fn mapped_events(km: KeyMap, slot: usize, evs: Seq<InputEventData>) -> Seq<
    InputEventData,
>
    decreases evs.len(),
{
    if evs.len() == 0 {
        Seq::empty()
    } else {
        let rest = mapped_events(km, slot, evs.skip(1));
        match km.map_key_spec(slot, evs[0]) {
            Some(ev) => seq![ev] + rest,
            None => rest,
        }
    }
}

/// Declared range of one absolute axis of the synthetic device.
#[derive(Clone, Copy, Debug, PartialEq, Eq, Structural)]
pub struct AbsAxisSetup {
    pub axis: u16,
    pub value: i32,
    pub min: i32,
    pub max: i32,
    pub fuzz: i32,
    pub flat: i32,
    pub resolution: i32,
}

/// The fixed capability set the surrounding binary declares when it
/// builds the synthetic device: identity words, digital buttons, stick
/// axes with their ranges, and the supported force-feedback classes.
pub struct CapabilitySpec {
    pub bus_type: u16,
    pub vendor_id: u16,
    pub product_id: u16,
    pub version: u16,
    pub keys: Vec<u16>,
    pub axes: Vec<AbsAxisSetup>,
    pub ff_effects: Vec<u16>,
}

/// The declared setup shared by all four stick axes.
pub open spec fn default_axis(axis: u16) -> AbsAxisSetup {
    AbsAxisSetup {
        axis,
        value: 0,
        min: -32767i32,
        max: 32767,
        fuzz: 250,
        flat: 500,
        resolution: 0,
    }
}

/// The key codes of the synthetic device's digital buttons.
pub open spec fn capability_keys() -> Seq<u16> {
    seq![
        0x13a,  // select
        0x135,  // z
        0x13d,  // left thumb stick
        0x13b,  // start
        0x13c,  // mode
        0x13e,  // right thumb stick
        0x130,  // south
        0x131,  // east
        0x133,  // north
        0x134,  // west
        0x220,  // d-pad up
        0x221,  // d-pad down
        0x222,  // d-pad left
        0x223,  // d-pad right
        0x136,  // upper left trigger
        0x137,  // upper right trigger
        0x138,  // lower left trigger
        0x139,  // lower right trigger
    ]
}

/// The force-feedback effect classes the synthetic device supports:
/// rumble, periodic, square, triangle, sine and gain.
pub open spec fn capability_ff_effects() -> Seq<u16> {
    seq![0x50, 0x51, 0x58, 0x59, 0x5a, 0x60]
}

/// The fixed synthetic capability set.  The identity is declared on the
/// virtual bus under a product id no physical half carries, so the
/// synthetic device is never re-admitted as a controller; the four axes
/// are the two stick pairs, every one with the same declared range.
pub fn capability_spec() -> (cap: CapabilitySpec)
    ensures
        cap.bus_type == 0x06,
        cap.vendor_id == 0x059e,
        cap.product_id == 0x2008,
        cap.version == 0,
        cap.keys@ == capability_keys(),
        cap.axes@ == seq![
            default_axis(0x00),
            default_axis(0x01),
            default_axis(0x03),
            default_axis(0x04),
        ],
        cap.ff_effects@ == capability_ff_effects(),
{
    let mut keys: Vec<u16> = Vec::new();
    keys.push(0x13a);
    keys.push(0x135);
    keys.push(0x13d);
    keys.push(0x13b);
    keys.push(0x13c);
    keys.push(0x13e);
    keys.push(0x130);
    keys.push(0x131);
    keys.push(0x133);
    keys.push(0x134);
    keys.push(0x220);
    keys.push(0x221);
    keys.push(0x222);
    keys.push(0x223);
    keys.push(0x136);
    keys.push(0x137);
    keys.push(0x138);
    keys.push(0x139);
    let mut axes: Vec<AbsAxisSetup> = Vec::new();
    axes.push(AbsAxisSetup { axis: 0x00, value: 0, min: -32767, max: 32767, fuzz: 250, flat: 500, resolution: 0 });
    axes.push(AbsAxisSetup { axis: 0x01, value: 0, min: -32767, max: 32767, fuzz: 250, flat: 500, resolution: 0 });
    axes.push(AbsAxisSetup { axis: 0x03, value: 0, min: -32767, max: 32767, fuzz: 250, flat: 500, resolution: 0 });
    axes.push(AbsAxisSetup { axis: 0x04, value: 0, min: -32767, max: 32767, fuzz: 250, flat: 500, resolution: 0 });
    let mut ff_effects: Vec<u16> = Vec::new();
    ff_effects.push(0x50);
    ff_effects.push(0x51);
    ff_effects.push(0x58);
    ff_effects.push(0x59);
    ff_effects.push(0x5a);
    ff_effects.push(0x60);
    proof {
        assert(keys@ =~= capability_keys());
        assert(axes@ =~= seq![
            default_axis(0x00),
            default_axis(0x01),
            default_axis(0x03),
            default_axis(0x04),
        ]);
        assert(ff_effects@ =~= capability_ff_effects());
    }
    CapabilitySpec {
        bus_type: 0x06,
        vendor_id: 0x059e,
        product_id: 0x2008,
        version: 0,
        keys,
        axes,
        ff_effects,
    }
}

/// The synthetic device formed over 1-2 physical constituents: relays
/// input forward through the key-map policy, relays force-feedback
/// backward, and owns the correlation table from virtual effect id to the
/// physical effect ids uploaded to the constituents (one per relay slot).
pub struct VirtualController {
    /// Handle of the synthetic device (the binary reads haptic requests
    /// from it and emits merged input into it).
    pub fd: i32,
    /// Handles of the physical constituents; the list index is the relay
    /// slot id.
    pub constituent_fds: Vec<i32>,
    /// The remap policy of this device.
    pub key_map: KeyMap,
    /// Correlation table from virtual effect id to the physical effect
    /// ids held by slot 0 and slot 1.
    pub rumble_effects: HashMap<u16, (Option<u16>, Option<u16>)>,
}

impl VirtualController {
    /// The correlation table as a map.
    pub open spec fn effects(&self) -> Map<u16, (Option<u16>, Option<u16>)> {
        self.rumble_effects@
    }

    /// A virtual controller always holds one or two constituents.
    pub open spec fn wf(&self) -> bool {
        1 <= self.constituent_fds@.len() <= 2
    }

    /// Builds the relay engine over the given constituents and policy,
    /// with an empty correlation table.  The synthetic device itself is
    /// created by the surrounding binary, which declares the fixed
    /// capability set of `capability_spec` and passes the handle in.
    pub fn new(constituent_fds: Vec<i32>, key_map: KeyMap, fd: i32) -> (vc: VirtualController)
        requires
            1 <= constituent_fds@.len() <= 2,
        ensures
            vc.wf(),
            vc.fd == fd,
            vc.constituent_fds == constituent_fds,
            vc.key_map == key_map,
            vc.effects() == Map::<u16, (Option<u16>, Option<u16>)>::empty(),
    {
        VirtualController { fd, constituent_fds, key_map, rumble_effects: HashMap::new() }
    }

    /// Drains one slot's pending input batch through the key map: the
    /// surviving events, in the slot's original order, are returned for
    /// the binary to emit atomically on the synthetic device.  A slot
    /// with no constituent fails with `NotFound`.
    pub fn relay_input_events(&self, physical_device_id: usize, events: &Vec<InputEventData>) -> (r:
        Result<Vec<InputEventData>, Error>)
        ensures
            physical_device_id < self.constituent_fds@.len() ==> (r matches Ok(out) && out@
                == mapped_events(self.key_map, physical_device_id, events@)),
            physical_device_id >= self.constituent_fds@.len() ==> r == Err::<
                Vec<InputEventData>,
                Error,
            >(Error::NotFound),
    {
        if physical_device_id >= self.constituent_fds.len() {
            return Err(Error::NotFound);
        }
        let mut out: Vec<InputEventData> = Vec::new();
        let mut i: usize = 0;
        proof {
            assert(events@.skip(0) =~= events@);
        }
        while i < events.len()
            invariant
                i <= events@.len(),
                mapped_events(self.key_map, physical_device_id, events@) == out@ + mapped_events(
                    self.key_map,
                    physical_device_id,
                    events@.skip(i as int),
                ),
            decreases events@.len() - i,
        {
            let ev = events[i];
            proof {
                assert(events@.skip(i as int)[0] == events@[i as int]);
                assert(events@.skip(i as int).skip(1) =~= events@.skip(i + 1));
            }
            let ghost rest = mapped_events(self.key_map, physical_device_id, events@.skip(i + 1));
            match self.key_map.map_key(physical_device_id, ev) {
                Some(mapped) => {
                    out.push(mapped);
                    proof {
                        assert((out@.drop_last() + seq![mapped]) + rest =~= out@.drop_last() + (
                        seq![mapped] + rest));
                        assert(out@.drop_last().push(mapped) =~= out@.drop_last() + seq![mapped]);
                    }
                }
                None => {}
            }
            i = i + 1;
        }
        proof {
            assert(events@.skip(events@.len() as int) =~= Seq::<InputEventData>::empty());
            assert(out@ + Seq::<InputEventData>::empty() =~= out@);
        }
        Ok(out)
    }

    /// The forwarding order a play request resolves to: the correlated
    /// physical id of each slot that holds one, paired with that slot's
    /// device handle.
    pub open spec fn play_action(&self, code: u16, value: i32) -> OutputAction {
        let pair = self.effects()[code];
        OutputAction::Forward {
            first: if pair.0 is Some {
                Some(ForwardTarget { fd: self.constituent_fds@[0], effect_id: pair.0->Some_0 })
            } else {
                None
            },
            second: if self.constituent_fds@.len() >= 2 && pair.1 is Some {
                Some(ForwardTarget { fd: self.constituent_fds@[1], effect_id: pair.1->Some_0 })
            } else {
                None
            },
            value,
        }
    }

    /// The upload order for a fresh effect: every available constituent,
    /// slot 0 first.
    pub open spec fn upload_action(&self) -> OutputAction {
        OutputAction::BeginUpload {
            first_fd: self.constituent_fds@[0],
            second_fd: if self.constituent_fds@.len() >= 2 {
                Some(self.constituent_fds@[1])
            } else {
                None
            },
        }
    }

    /// Handles one drained event of the synthetic device (the OS's haptic
    /// requests):
    /// - play: resolves the correlated physical id(s); a missing
    ///   correlation is a reported, non-fatal `NotFound`;
    /// - upload: decides fresh (the binary must upload to each available
    ///   constituent and then call `record_effect`) versus already
    ///   correlated (a no-op);
    /// - erase: drops the correlation entry, or reports an unknown id
    ///   through the response's return code;
    /// - anything else fails the turn with `ProtocolViolation`.
    pub fn relay_output_events(&mut self, event: &OutputEvent) -> (r: Result<OutputAction, Error>)
        requires
            old(self).wf(),
        ensures
            final(self).wf(),
            output_relay_transition(*old(self), *final(self), *event, r),
    {
        match event {
            OutputEvent::Force { code, value } => {
                match self.rumble_effects.get(code) {
                    Some(pair) => {
                        let (ff_l, ff_r) = *pair;
                        let first = match ff_l {
                            Some(id) => Some(
                                ForwardTarget { fd: self.constituent_fds[0], effect_id: id },
                            ),
                            None => None,
                        };
                        let second = if self.constituent_fds.len() >= 2 {
                            match ff_r {
                                Some(id) => Some(
                                    ForwardTarget { fd: self.constituent_fds[1], effect_id: id },
                                ),
                                None => None,
                            }
                        } else {
                            None
                        };
                        Ok(OutputAction::Forward { first, second, value: *value })
                    }
                    None => Err(Error::NotFound),
                }
            }
            OutputEvent::FfUpload { effect_id } => {
                let fresh = if *effect_id < 0 {
                    true
                } else {
                    !self.rumble_effects.contains_key(&(*effect_id as u16))
                };
                if fresh {
                    let second_fd = if self.constituent_fds.len() >= 2 {
                        Some(self.constituent_fds[1])
                    } else {
                        None
                    };
                    Ok(OutputAction::BeginUpload { first_fd: self.constituent_fds[0], second_fd })
                } else {
                    Ok(OutputAction::UploadKnown)
                }
            }
            OutputEvent::FfErase { effect_id } => {
                if self.rumble_effects.contains_key(effect_id) {
                    self.rumble_effects.remove(effect_id);
                    Ok(OutputAction::Erased)
                } else {
                    Ok(OutputAction::EraseRejected)
                }
            }
            OutputEvent::Unsupported { .. } => Err(Error::ProtocolViolation),
        }
    }

    /// Records a completed fresh upload: the physical ids the constituents
    /// returned, keyed by the id constituent 0 reported, which becomes the
    /// canonical virtual id and is returned for the binary to write into
    /// the upload response.  With no id from constituent 0 there is
    /// nothing to key by: `NotFound`.
    pub fn record_effect(&mut self, phys0: Option<u16>, phys1: Option<u16>) -> (r: Result<
        u16,
        Error,
    >)
        ensures
            final(self).wf() == old(self).wf(),
            record_transition(*old(self), *final(self), phys0, phys1, r),
    {
        match phys0 {
            Some(p) => {
                self.rumble_effects.insert(p, (phys0, phys1));
                Ok(p)
            }
            None => Err(Error::NotFound),
        }
    }
}


/// How one output event changes the relay engine and what it orders the
/// surrounding binary to do.  The synthetic device handle, the
/// constituents and the policy never change; only the correlation table
/// moves, and only on a successful erase.
pub open spec fn output_relay_transition(
    pre: VirtualController,
    post: VirtualController,
    event: OutputEvent,
    r: Result<OutputAction, Error>,
) -> bool {
    &&& post.fd == pre.fd
    &&& post.constituent_fds == pre.constituent_fds
    &&& post.key_map == pre.key_map
    &&& match event {
        OutputEvent::Force { code, value } => {
            &&& pre.effects().contains_key(code) ==> {
                &&& r == Ok::<OutputAction, Error>(pre.play_action(code, value))
                &&& post.effects() == pre.effects()
            }
            &&& !pre.effects().contains_key(code) ==> {
                &&& r == Err::<OutputAction, Error>(Error::NotFound)
                &&& post.effects() == pre.effects()
            }
        },
        OutputEvent::FfUpload { effect_id } => {
            &&& post.effects() == pre.effects()
            &&& (effect_id < 0 || !pre.effects().contains_key(effect_id as u16)) ==> r == Ok::<
                OutputAction,
                Error,
            >(pre.upload_action())
            &&& (effect_id >= 0 && pre.effects().contains_key(effect_id as u16)) ==> r == Ok::<
                OutputAction,
                Error,
            >(OutputAction::UploadKnown)
        },
        OutputEvent::FfErase { effect_id } => {
            &&& pre.effects().contains_key(effect_id) ==> {
                &&& r == Ok::<OutputAction, Error>(OutputAction::Erased)
                &&& post.effects() == pre.effects().remove(effect_id)
            }
            &&& !pre.effects().contains_key(effect_id) ==> {
                &&& r == Ok::<OutputAction, Error>(OutputAction::EraseRejected)
                &&& post.effects() == pre.effects()
            }
        },
        OutputEvent::Unsupported { .. } => {
            &&& r == Err::<OutputAction, Error>(Error::ProtocolViolation)
            &&& post.effects() == pre.effects()
        },
    }
}

/// How recording a completed fresh upload changes the relay engine: the
/// pair of returned physical ids joins the correlation table under
/// constituent 0's id, which is handed back as the canonical virtual id.
pub open spec fn record_transition(
    pre: VirtualController,
    post: VirtualController,
    phys0: Option<u16>,
    phys1: Option<u16>,
    r: Result<u16, Error>,
) -> bool {
    &&& post.fd == pre.fd
    &&& post.constituent_fds == pre.constituent_fds
    &&& post.key_map == pre.key_map
    &&& phys0 matches Some(p) ==> {
        &&& r == Ok::<u16, Error>(p)
        &&& post.effects() == pre.effects().insert(p, (phys0, phys1))
    }
    &&& phys0 is None ==> {
        &&& r == Err::<u16, Error>(Error::NotFound)
        &&& post.effects() == pre.effects()
    }
}

/// Law: the force-feedback round trip.  Recording a fresh upload under
/// constituent 0's reported id correlates exactly the recorded pair;
/// erasing it removes the correlation, so a second erase of the same id
/// misses.
pub proof fn lemma_ff_round_trip(
    effects: Map<u16, (Option<u16>, Option<u16>)>,
    first_id: u16,
    second_id: u16,
)
    requires
        !effects.contains_key(first_id),
    ensures
        ({
            let recorded = effects.insert(first_id, (Some(first_id), Some(second_id)));
            let erased = recorded.remove(first_id);
            &&& recorded.contains_key(first_id)
            &&& recorded[first_id] == (Some(first_id), Some(second_id))
            &&& !erased.contains_key(first_id)
        }),
{
}

} // verus!
