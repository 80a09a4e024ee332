use vstd::prelude::*;

use std::collections::HashMap;

use crate::controller::Controller;
use crate::controller_manager::{PollHandler, PollerOp};
use crate::key_allocator::KeyAllocator;
use crate::key_map::KeyMap;
use crate::poll_manager::{PollManager, KEY_CAPACITY};
use crate::errors::Error;
use crate::events::InputEventData;
use crate::virtual_controller::{mapped_events, output_relay_transition, record_transition, OutputAction, OutputEvent, VirtualController};

verus! {

/// Capacity of the group-token allocator: at most this many fused groups
/// exist at once.
pub const COMBINED_GROUP_CAPACITY: usize = 0x100;

/// One fused group: the virtual controller, its reactor key, and the
/// constituents, each as (reactor key, controller token, controller).
/// The list index is the constituent's relay slot id.
pub struct Group {
    pub virtual_poll_key: usize,
    pub virtual_controller: VirtualController,
    pub constituents: Vec<(usize, usize, Controller)>,
}

impl Group {
    /// This controller token belongs to the group.
    pub open spec fn has_token(&self, token: usize) -> bool {
        exists|i: int| 0 <= i < self.constituents@.len() && self.constituents@[i].1 == token
    }

    /// A group holds one or two constituents with distinct tokens, and
    /// its virtual controller mirrors them slot by slot.
    pub open spec fn wf(&self) -> bool {
        &&& 1 <= self.constituents@.len() <= 2
        &&& self.virtual_controller.wf()
        &&& self.constituents@.len() == 2 ==> self.constituents@[0].1 != self.constituents@[1].1
        &&& self.virtual_controller.constituent_fds@.len() == self.constituents@.len()
        &&& self.virtual_poll_key < KEY_CAPACITY
        &&& forall|i: int|
            0 <= i < self.constituents@.len() ==> (#[trigger] self.constituents@[i]).0
                < KEY_CAPACITY
    }
}

/// The group just admitted over this list of (token, controller): its
/// constituents are exactly the list, in slot order, and its virtual
/// controller runs the given policy over their handles with an empty
/// correlation table.
pub open spec fn group_matches(
    gr: Group,
    controllers: Seq<(usize, Controller)>,
    key_map: KeyMap,
    virtual_fd: i32,
) -> bool {
    &&& gr.constituents@.len() == controllers.len()
    &&& forall|i: int|
        0 <= i < controllers.len() ==> {
            &&& (#[trigger] gr.constituents@[i]).1 == controllers[i].0
            &&& gr.constituents@[i].2 == controllers[i].1
        }
    &&& gr.virtual_controller.fd == virtual_fd
    &&& gr.virtual_controller.key_map == key_map
    &&& gr.virtual_controller.effects() == Map::<u16, (Option<u16>, Option<u16>)>::empty()
    &&& gr.virtual_controller.constituent_fds@.len() == controllers.len()
    &&& forall|i: int|
        0 <= i < controllers.len() ==> #[trigger] gr.virtual_controller.constituent_fds@[i]
            == controllers[i].1.fd
}

/// Owns the fused groups.  The controller-token index and the group table
/// stay mutually consistent: every indexed token belongs to exactly the
/// group it is indexed under, and every group's constituents are indexed
/// back to it.
pub struct CombinedControllerManager {
    pub combined_group_token_allocator: KeyAllocator,
    pub controller_groups: HashMap<usize, usize>,
    pub groups: HashMap<usize, Group>,
}

impl CombinedControllerManager {
    /// This controller token belongs to some fused group.
    pub open spec fn contains_token(&self, token: usize) -> bool {
        self.controller_groups@.contains_key(token)
    }

    /// The mutual-consistency invariant of the index and the group table.
    pub open spec fn wf(&self) -> bool {
        &&& self.combined_group_token_allocator.capacity_spec() == COMBINED_GROUP_CAPACITY
        &&& forall|t: usize|
            #[trigger] self.controller_groups@.contains_key(t) ==> {
                &&& self.groups@.contains_key(self.controller_groups@[t])
                &&& self.groups@[self.controller_groups@[t]].has_token(t)
            }
        &&& forall|g: usize|
            #[trigger] self.groups@.contains_key(g) ==> {
                &&& self.groups@[g].wf()
                &&& self.combined_group_token_allocator.live().contains(g)
                &&& forall|i: int|
                    0 <= i < self.groups@[g].constituents@.len() ==> {
                        let t = (#[trigger] self.groups@[g].constituents@[i]).1;
                        &&& self.controller_groups@.contains_key(t)
                        &&& self.controller_groups@[t] == g
                    }
            }
    }

    /// Creates an empty manager: no groups, no indexed tokens.
    pub fn new() -> (m: CombinedControllerManager)
        ensures
            m.wf(),
            m.controller_groups@ == Map::<usize, usize>::empty(),
            m.groups@ == Map::<usize, Group>::empty(),
    {
        CombinedControllerManager {
            combined_group_token_allocator: KeyAllocator::new(COMBINED_GROUP_CAPACITY),
            controller_groups: HashMap::new(),
            groups: HashMap::new(),
        }
    }

    /// Which group a controller token belongs to, if any.
    pub fn group_of(&self, token: usize) -> (r: Option<usize>)
        ensures
            self.contains_token(token) ==> r == Some(self.controller_groups@[token]),
            !self.contains_token(token) ==> r is None,
    {
        match self.controller_groups.get(&token) {
            Some(g) => Some(*g),
            None => None,
        }
    }


    /// A group's bookkeeping (index, allocator, membership, reactor keys)
    /// is the same in `self` as in `other`; only the virtual controller
    /// of group `g` may differ, and only in its correlation table.
    pub open spec fn same_groups_except_effects(
        &self,
        other: &CombinedControllerManager,
        g: usize,
    ) -> bool {
        &&& self.controller_groups@ == other.controller_groups@
        &&& self.combined_group_token_allocator.live()
            == other.combined_group_token_allocator.live()
        &&& self.combined_group_token_allocator.capacity_spec()
            == other.combined_group_token_allocator.capacity_spec()
        &&& self.groups@.dom() == other.groups@.dom()
        &&& forall|h: usize|
            #[trigger] other.groups@.contains_key(h) && h != g ==> self.groups@[h]
                == other.groups@[h]
        &&& other.groups@.contains_key(g) ==> {
            let pre = other.groups@[g];
            let post = self.groups@[g];
            &&& post.virtual_poll_key == pre.virtual_poll_key
            &&& post.constituents == pre.constituents
            &&& post.virtual_controller.fd == pre.virtual_controller.fd
            &&& post.virtual_controller.constituent_fds == pre.virtual_controller.constituent_fds
            &&& post.virtual_controller.key_map == pre.virtual_controller.key_map
        }
    }

    /// Relays one input batch of a group's constituent slot through the
    /// group's key map; the surviving events are returned for the binary
    /// to emit on the group's synthetic device.  `NotFound` if the token
    /// belongs to no group or the slot holds no constituent.
    pub fn relay_input_events(&self, group: usize, slot: usize, events: &Vec<InputEventData>) -> (r:
        Result<Vec<InputEventData>, Error>)
        ensures
            !self.groups@.contains_key(group) ==> r == Err::<Vec<InputEventData>, Error>(
                Error::NotFound,
            ),
            self.groups@.contains_key(group) ==> ({
                let vc = self.groups@[group].virtual_controller;
                &&& slot < vc.constituent_fds@.len() ==> (r matches Ok(out) && out@
                    == mapped_events(vc.key_map, slot, events@))
                &&& slot >= vc.constituent_fds@.len() ==> r == Err::<Vec<InputEventData>, Error>(
                    Error::NotFound,
                )
            }),
    {
        match self.groups.get(&group) {
            Some(gr) => gr.virtual_controller.relay_input_events(slot, events),
            None => Err(Error::NotFound),
        }
    }

    /// Feeds one drained event of a group's synthetic device to the
    /// group's output relay.  `NotFound`, changing nothing, if the group
    /// does not exist.
    pub fn relay_output_events(&mut self, group: usize, event: &OutputEvent) -> (r: Result<
        OutputAction,
        Error,
    >)
        requires
            old(self).wf(),
        ensures
            final(self).wf(),
            !old(self).groups@.contains_key(group) ==> {
                &&& r == Err::<OutputAction, Error>(Error::NotFound)
                &&& final(self).same_groups_except_effects(old(self), group)
            },
            old(self).groups@.contains_key(group) ==> {
                &&& final(self).same_groups_except_effects(old(self), group)
                &&& output_relay_transition(
                    old(self).groups@[group].virtual_controller,
                    final(self).groups@[group].virtual_controller,
                    *event,
                    r,
                )
            },
    {
        let mut gr = match self.groups.remove(&group) {
            Some(gr) => gr,
            None => {
                proof {
                    assert(self.groups@ =~= old(self).groups@);
                }
                return Err(Error::NotFound);
            }
        };
        proof {
            assert(old(self).groups@[group].wf());
        }
        let r = gr.virtual_controller.relay_output_events(event);
        self.groups.insert(group, gr);
        proof {
            self.lemma_group_rewrap_wf(*old(self), group);
        }
        r
    }

    /// Records the physical ids of a completed fresh upload in a group's
    /// correlation table and returns the canonical virtual id.
    /// `NotFound`, changing nothing, if the group does not exist or no id
    /// came back from constituent 0.
    pub fn record_effect(&mut self, group: usize, phys0: Option<u16>, phys1: Option<u16>) -> (r:
        Result<u16, Error>)
        requires
            old(self).wf(),
        ensures
            final(self).wf(),
            !old(self).groups@.contains_key(group) ==> {
                &&& r == Err::<u16, Error>(Error::NotFound)
                &&& final(self).same_groups_except_effects(old(self), group)
            },
            old(self).groups@.contains_key(group) ==> {
                &&& final(self).same_groups_except_effects(old(self), group)
                &&& record_transition(
                    old(self).groups@[group].virtual_controller,
                    final(self).groups@[group].virtual_controller,
                    phys0,
                    phys1,
                    r,
                )
            },
    {
        let mut gr = match self.groups.remove(&group) {
            Some(gr) => gr,
            None => {
                proof {
                    assert(self.groups@ =~= old(self).groups@);
                }
                return Err(Error::NotFound);
            }
        };
        proof {
            assert(old(self).groups@[group].wf());
        }
        let r = gr.virtual_controller.record_effect(phys0, phys1);
        self.groups.insert(group, gr);
        proof {
            self.lemma_group_rewrap_wf(*old(self), group);
        }
        r
    }

    /// Putting a group back with the same bookkeeping and an intact
    /// virtual controller (same handle, constituents and policy) keeps
    /// the manager consistent.
    proof fn lemma_group_rewrap_wf(&self, pre: CombinedControllerManager, g: usize)
        requires
            pre.wf(),
            pre.groups@.contains_key(g),
            self.same_groups_except_effects(&pre, g),
            self.groups@[g].virtual_controller.wf(),
        ensures
            self.wf(),
    {
        assert forall|t: usize| #[trigger] self.controller_groups@.contains_key(t) implies {
            &&& self.groups@.contains_key(self.controller_groups@[t])
            &&& self.groups@[self.controller_groups@[t]].has_token(t)
        } by {
            let h = pre.controller_groups@[t];
            assert(pre.groups@.contains_key(h));
            assert(self.groups@.dom() == pre.groups@.dom());
            assert(self.groups@.contains_key(h));
            if h != g {
                assert(self.groups@[h] == pre.groups@[h]);
            } else {
                assert(pre.groups@[g].has_token(t));
                let i = choose|i: int|
                    0 <= i < pre.groups@[g].constituents@.len() && pre.groups@[g].constituents@[
                        i].1 == t;
                assert(self.groups@[g].constituents@[i].1 == t);
            }
        }
        assert forall|h: usize| #[trigger] self.groups@.contains_key(h) implies {
            &&& self.groups@[h].wf()
            &&& self.combined_group_token_allocator.live().contains(h)
            &&& forall|i: int|
                0 <= i < self.groups@[h].constituents@.len() ==> {
                    let t = (#[trigger] self.groups@[h].constituents@[i]).1;
                    &&& self.controller_groups@.contains_key(t)
                    &&& self.controller_groups@[t] == h
                }
        } by {
            assert(pre.groups@.contains_key(h));
            if h != g {
                assert(self.groups@[h] == pre.groups@[h]);
            } else {
                assert(pre.groups@[g].wf());
                assert(self.groups@[g].constituents == pre.groups@[g].constituents);
                assert(self.groups@[g].virtual_controller.constituent_fds
                    == pre.groups@[g].virtual_controller.constituent_fds);
                assert(self.groups@[g].wf());
                assert forall|i: int|
                    0 <= i < self.groups@[g].constituents@.len() implies {
                    let t = (#[trigger] self.groups@[g].constituents@[i]).1;
                    &&& self.controller_groups@.contains_key(t)
                    &&& self.controller_groups@[t] == g
                } by {
                    assert(self.groups@[g].constituents@[i] == pre.groups@[g].constituents@[i]);
                }
            }
        }
    }

    /// Fuses one or two controllers into a fresh group: allocates a group
    /// token, builds the virtual controller over the constituents and the
    /// policy, subscribes the synthetic device and every constituent as
    /// independent reactor registrations, and records the group.  The
    /// returned operations (synthetic device first, then each constituent
    /// in slot order) must be mirrored into the readiness queue.
    ///
    /// Admission is atomic: a mid-registration failure rolls every
    /// subscription already made for this call back, in reverse order of
    /// subscription, and leaves manager and reactor as they were.
    #[verifier::rlimit(60)]
    pub fn add_new_devices(
        &mut self,
        controllers: Vec<(usize, Controller)>,
        keymap: KeyMap,
        virtual_fd: i32,
        poll_manager: &mut PollManager<PollHandler>,
    ) -> (r: Result<(usize, Vec<PollerOp>), Error>)
        requires
            old(self).wf(),
            old(poll_manager).wf(),
            1 <= controllers@.len() <= 2,
            controllers@.len() == 2 ==> controllers@[0].0 != controllers@[1].0,
            forall|i: int|
                0 <= i < controllers@.len() ==> !old(self).contains_token(
                    #[trigger] controllers@[i].0,
                ),
        ensures
            final(self).wf(),
            final(poll_manager).wf(),
            r matches Ok((g, ops)) ==> {
                &&& !old(self).groups@.contains_key(g)
                &&& final(self).groups@.contains_key(g)
                &&& group_matches(final(self).groups@[g], controllers@, keymap, virtual_fd)
            },
            r matches Ok((g, ops)) ==> final(self).groups@ == old(self).groups@.insert(
                g,
                final(self).groups@[g],
            ),
            r matches Ok((g, ops)) ==> final(self).controller_groups@ == if controllers@.len()
                == 1 {
                old(self).controller_groups@.insert(controllers@[0].0, g)
            } else {
                old(self).controller_groups@.insert(controllers@[0].0, g).insert(
                    controllers@[1].0,
                    g,
                )
            },
            r matches Ok((g, ops)) ==> final(self).combined_group_token_allocator.live() == old(
                self,
            ).combined_group_token_allocator.live().insert(g),
            r matches Ok((g, ops)) ==> {
                &&& ops@.len() == 1 + controllers@.len()
                &&& ops@[0] == (PollerOp::Add {
                    key: final(self).groups@[g].virtual_poll_key,
                    fd: virtual_fd,
                })
                &&& forall|i: int|
                    0 <= i < controllers@.len() ==> ops@[i + 1] == (PollerOp::Add {
                        key: final(self).groups@[g].constituents@[i].0,
                        fd: controllers@[i].1.fd,
                    })
            },
            r matches Ok((g, ops)) ==> {
                &&& final(poll_manager).registered(final(self).groups@[g].virtual_poll_key)
                &&& final(poll_manager).handler_of(final(self).groups@[g].virtual_poll_key)
                    == (PollHandler::VirtualOutput { group: g })
                &&& forall|i: int|
                    0 <= i < controllers@.len() ==> {
                        &&& final(poll_manager).registered(
                            (#[trigger] final(self).groups@[g].constituents@[i]).0,
                        )
                        &&& final(poll_manager).handler_of(final(self).groups@[g].constituents@[i].0)
                            == (PollHandler::ConstituentInput { group: g, slot: i as usize })
                    }
            },
            r is Ok ==> forall|j: usize|
                j < KEY_CAPACITY && old(poll_manager).registered(j) ==> {
                    &&& #[trigger] final(poll_manager).registered(j)
                    &&& final(poll_manager).handler_of(j) == old(poll_manager).handler_of(j)
                },
            r is Err ==> {
                &&& r == Err::<(usize, Vec<PollerOp>), Error>(Error::AllocationExhausted)
                &&& final(self).groups@ == old(self).groups@
                &&& final(self).controller_groups@ == old(self).controller_groups@
                &&& final(self).combined_group_token_allocator.live() == old(
                    self,
                ).combined_group_token_allocator.live()
                &&& final(poll_manager).same_subscriptions(old(poll_manager))
                &&& (old(self).combined_group_token_allocator.exhausted() || !old(
                    poll_manager,
                ).can_supply_group_keys(controllers@.len() as int))
            },
    {
        let n = controllers.len();
        let new_group = match self.combined_group_token_allocator.allocate() {
            Ok(g) => g,
            Err(e) => {
                return Err(e);
            }
        };
        let ghost live0 = old(self).combined_group_token_allocator.live();
        let virtual_poll_key = match poll_manager.subscribe(
            PollHandler::VirtualOutput { group: new_group },
        ) {
            Ok(k) => k,
            Err(e) => {
                self.combined_group_token_allocator.release(new_group);
                proof {
                    assert(live0.insert(new_group).remove(new_group) =~= live0);
                    assert(!old(poll_manager).can_supply_group_keys(controllers@.len() as int))
                        by {
                        assert forall|a: usize, b: usize|
                            a < b < KEY_CAPACITY && !old(poll_manager).registered(
                                a,
                            ) implies old(poll_manager).registered(b) by {}
                    }
                }
                return Err(e);
            }
        };
        let ghost pm_after_virtual = *poll_manager;
        let key0 = match poll_manager.subscribe(
            PollHandler::ConstituentInput { group: new_group, slot: 0 },
        ) {
            Ok(k) => k,
            Err(e) => {
                proof {
                    assert(!old(poll_manager).can_supply_group_keys(controllers@.len() as int))
                        by {
                        assert forall|a: usize, b: usize|
                            a < b < KEY_CAPACITY && !old(poll_manager).registered(
                                a,
                            ) implies old(poll_manager).registered(b) by {
                            if a == virtual_poll_key {
                                assert(pm_after_virtual.registered(b));
                                assert(old(poll_manager).registered(b));
                            } else {
                                assert(pm_after_virtual.registered(a));
                                assert(old(poll_manager).registered(a));
                            }
                        }
                    }
                }
                let _ = poll_manager.remove(virtual_poll_key);
                self.combined_group_token_allocator.release(new_group);
                proof {
                    assert(live0.insert(new_group).remove(new_group) =~= live0);
                    assert forall|j: usize| j < KEY_CAPACITY implies {
                        &&& (#[trigger] poll_manager.registered(j) <==> old(
                            poll_manager,
                        ).registered(j))
                        &&& (old(poll_manager).registered(j) ==> poll_manager.handler_of(j) == old(
                            poll_manager,
                        ).handler_of(j))
                    } by {
                        if j != virtual_poll_key {
                            assert(pm_after_virtual.registered(j) <==> old(
                                poll_manager,
                            ).registered(j));
                        }
                    }
                }
                return Err(e);
            }
        };
        let ghost pm_after_first = *poll_manager;
        let mut key1: usize = 0;
        if n == 2 {
            match poll_manager.subscribe(
                PollHandler::ConstituentInput { group: new_group, slot: 1 },
            ) {
                Ok(k) => {
                    key1 = k;
                }
                Err(e) => {
                    proof {
                        assert(!old(poll_manager).has_free_triple()) by {
                            assert forall|a: usize, b: usize, c: usize|
                                a < b < KEY_CAPACITY && b < c < KEY_CAPACITY && !old(
                                    poll_manager,
                                ).registered(a) && !old(poll_manager).registered(
                                b,
                            ) implies old(poll_manager).registered(c) by {
                                if a != virtual_poll_key && a != key0 {
                                    assert(pm_after_first.registered(a));
                                    assert(pm_after_virtual.registered(a));
                                    assert(old(poll_manager).registered(a));
                                } else if b != virtual_poll_key && b != key0 {
                                    assert(pm_after_first.registered(b));
                                    assert(pm_after_virtual.registered(b));
                                    assert(old(poll_manager).registered(b));
                                } else {
                                    assert(c != virtual_poll_key && c != key0);
                                    assert(pm_after_first.registered(c));
                                    assert(pm_after_virtual.registered(c));
                                    assert(old(poll_manager).registered(c));
                                }
                            }
                        }
                    }
                    let _ = poll_manager.remove(key0);
                    let _ = poll_manager.remove(virtual_poll_key);
                    self.combined_group_token_allocator.release(new_group);
                    proof {
                        assert(live0.insert(new_group).remove(new_group) =~= live0);
                    }
                    return Err(e);
                }
            }
        }
        let mut constituent_fds: Vec<i32> = Vec::new();
        constituent_fds.push(controllers[0].1.fd);
        if n == 2 {
            constituent_fds.push(controllers[1].1.fd);
        }
        let virtual_controller = VirtualController::new(constituent_fds, keymap, virtual_fd);
        let mut constituents: Vec<(usize, usize, Controller)> = Vec::new();
        constituents.push((key0, controllers[0].0, controllers[0].1));
        if n == 2 {
            constituents.push((key1, controllers[1].0, controllers[1].1));
        }
        let mut ops: Vec<PollerOp> = Vec::new();
        ops.push(PollerOp::Add { key: virtual_poll_key, fd: virtual_fd });
        ops.push(PollerOp::Add { key: key0, fd: controllers[0].1.fd });
        if n == 2 {
            ops.push(PollerOp::Add { key: key1, fd: controllers[1].1.fd });
        }
        self.controller_groups.insert(controllers[0].0, new_group);
        if n == 2 {
            self.controller_groups.insert(controllers[1].0, new_group);
        }
        self.groups.insert(
            new_group,
            Group { virtual_poll_key, virtual_controller, constituents },
        );
        proof {
            assert forall|j: usize| j < KEY_CAPACITY && old(poll_manager).registered(j) implies {
                &&& poll_manager.registered(j)
                &&& poll_manager.handler_of(j) == old(poll_manager).handler_of(j)
            } by {}
            assert(poll_manager.registered(virtual_poll_key));
            assert(poll_manager.handler_of(virtual_poll_key) == (PollHandler::VirtualOutput {
                group: new_group,
            }));
            assert(poll_manager.registered(key0));
            assert(poll_manager.handler_of(key0) == (PollHandler::ConstituentInput {
                group: new_group,
                slot: 0,
            }));
            if n == 2 {
                assert(poll_manager.registered(key1));
                assert(poll_manager.handler_of(key1) == (PollHandler::ConstituentInput {
                    group: new_group,
                    slot: 1,
                }));
            }
            let s1 = *self;
            let cg1 = s1.controller_groups@;
            let gr = s1.groups@[new_group];
            assert(gr.virtual_poll_key == virtual_poll_key);
            assert(gr.constituents@[0].0 == key0);
            if n == 2 {
                assert(gr.constituents@[1].0 == key1);
            }
            assert forall|i: int| 0 <= i < controllers@.len() implies {
                &&& poll_manager.registered((#[trigger] gr.constituents@[i]).0)
                &&& poll_manager.handler_of(gr.constituents@[i].0)
                    == (PollHandler::ConstituentInput { group: new_group, slot: i as usize })
            } by {
                assert(i == 0 || i == 1);
            }
            let t0 = controllers@[0].0;
            assert(!old(self).groups@.contains_key(new_group));
            assert(gr.constituents@[0].1 == t0);
            assert(gr.has_token(t0));
            if n == 2 {
                assert(gr.constituents@[1].1 == controllers@[1].0);
                assert(gr.has_token(controllers@[1].0));
            }
            assert forall|t: usize| #[trigger] cg1.contains_key(t) implies {
                &&& s1.groups@.contains_key(cg1[t])
                &&& s1.groups@[cg1[t]].has_token(t)
            } by {
                if t == t0 || (n == 2 && t == controllers@[1].0) {
                } else {
                    assert(old(self).controller_groups@.contains_key(t));
                    assert(old(self).groups@.contains_key(old(self).controller_groups@[t]));
                }
            }
            assert forall|g: usize| #[trigger] s1.groups@.contains_key(g) implies {
                &&& s1.groups@[g].wf()
                &&& s1.combined_group_token_allocator.live().contains(g)
                &&& forall|i: int|
                    0 <= i < s1.groups@[g].constituents@.len() ==> {
                        let t = (#[trigger] s1.groups@[g].constituents@[i]).1;
                        &&& cg1.contains_key(t)
                        &&& cg1[t] == g
                    }
            } by {
                if g == new_group {
                    assert(s1.groups@[g].wf());
                    assert forall|i: int| 0 <= i < s1.groups@[g].constituents@.len() implies {
                        let t = (#[trigger] s1.groups@[g].constituents@[i]).1;
                        &&& cg1.contains_key(t)
                        &&& cg1[t] == g
                    } by {
                        if i == 0 {
                            assert(cg1[t0] == new_group);
                        }
                    }
                } else {
                    assert(old(self).groups@.contains_key(g));
                    let gr0 = old(self).groups@[g];
                    assert forall|i: int| 0 <= i < gr0.constituents@.len() implies {
                        let t = (#[trigger] gr0.constituents@[i]).1;
                        &&& cg1.contains_key(t)
                        &&& cg1[t] == g
                    } by {
                        let t = gr0.constituents@[i].1;
                        assert(old(self).controller_groups@.contains_key(t));
                        assert(t != t0 && (n == 2 ==> t != controllers@[1].0));
                    }
                }
            }
        }
        Ok((new_group, ops))
    }

    /// Tears the owning group down: unsubscribes the virtual controller
    /// and every constituent, releases the group token, drops the index
    /// entries, and returns every constituent other than the removed one
    /// for re-enrollment by the caller (with the reactor operations to
    /// mirror).  Fails with `NotFound`, changing nothing, if and only if
    /// the token belongs to no group.  Removing one of two constituents
    /// yields exactly the survivor.
    #[verifier::rlimit(60)]
    pub fn remove_device(
        &mut self,
        remove_token: usize,
        poll_manager: &mut PollManager<PollHandler>,
    ) -> (r: Result<(Vec<(usize, Controller)>, Vec<PollerOp>), Error>)
        requires
            old(self).wf(),
            old(poll_manager).wf(),
        ensures
            final(self).wf(),
            final(poll_manager).wf(),
            !old(self).contains_token(remove_token) ==> {
                &&& r == Err::<(Vec<(usize, Controller)>, Vec<PollerOp>), Error>(Error::NotFound)
                &&& final(self).groups@ == old(self).groups@
                &&& final(self).controller_groups@ == old(self).controller_groups@
                &&& final(self).combined_group_token_allocator.live() == old(
                    self,
                ).combined_group_token_allocator.live()
                &&& *final(poll_manager) == *old(poll_manager)
            },
            old(self).contains_token(remove_token) ==> ({
                let g = old(self).controller_groups@[remove_token];
                let gr = old(self).groups@[g];
                &&& r matches Ok((survivors, ops))
                &&& final(self).groups@ == old(self).groups@.remove(g)
                &&& final(self).controller_groups@ == if gr.constituents@.len() == 1 {
                    old(self).controller_groups@.remove(gr.constituents@[0].1)
                } else {
                    old(self).controller_groups@.remove(gr.constituents@[0].1).remove(
                        gr.constituents@[1].1,
                    )
                }
                &&& final(self).combined_group_token_allocator.live() == old(
                    self,
                ).combined_group_token_allocator.live().remove(g)
                &&& survivors@ == if gr.constituents@.len() == 1 {
                    Seq::<(usize, Controller)>::empty()
                } else if remove_token == gr.constituents@[0].1 {
                    seq![(gr.constituents@[1].1, gr.constituents@[1].2)]
                } else {
                    seq![(gr.constituents@[0].1, gr.constituents@[0].2)]
                }
                &&& ops@.len() == 1 + gr.constituents@.len()
                &&& ops@[0] == (PollerOp::Delete {
                    key: gr.virtual_poll_key,
                    fd: gr.virtual_controller.fd,
                })
                &&& forall|i: int|
                    0 <= i < gr.constituents@.len() ==> ops@[i + 1] == (PollerOp::Delete {
                        key: (#[trigger] gr.constituents@[i]).0,
                        fd: gr.constituents@[i].2.fd,
                    })
                &&& !final(poll_manager).registered(gr.virtual_poll_key)
                &&& forall|i: int|
                    0 <= i < gr.constituents@.len() ==> !final(poll_manager).registered(
                        (#[trigger] gr.constituents@[i]).0,
                    )
                &&& forall|j: usize|
                    j < KEY_CAPACITY && j != gr.virtual_poll_key && (forall|i: int|
                        0 <= i < gr.constituents@.len() ==> j != (#[trigger] gr.constituents@[i]).0)
                        ==> {
                        &&& (#[trigger] final(poll_manager).registered(j) <==> old(
                            poll_manager,
                        ).registered(j))
                        &&& (old(poll_manager).registered(j) ==> final(poll_manager).handler_of(j)
                            == old(poll_manager).handler_of(j))
                    }
            }),
    {
        let group_token = match self.controller_groups.get(&remove_token) {
            Some(g) => *g,
            None => {
                return Err(Error::NotFound);
            }
        };
        let group = match self.groups.remove(&group_token) {
            Some(gr) => gr,
            None => {
                proof {
                    assert(false);
                }
                return Err(Error::NotFound);
            }
        };
        self.combined_group_token_allocator.release(group_token);
        let _ = poll_manager.remove(group.virtual_poll_key);
        let mut ops: Vec<PollerOp> = Vec::new();
        ops.push(PollerOp::Delete {
            key: group.virtual_poll_key,
            fd: group.virtual_controller.fd,
        });
        let mut survivors: Vec<(usize, Controller)> = Vec::new();
        let c0 = group.constituents[0];
        let _ = poll_manager.remove(c0.0);
        self.controller_groups.remove(&c0.1);
        ops.push(PollerOp::Delete { key: c0.0, fd: c0.2.fd });
        if c0.1 != remove_token {
            survivors.push((c0.1, c0.2));
        }
        if group.constituents.len() == 2 {
            let c1 = group.constituents[1];
            let _ = poll_manager.remove(c1.0);
            self.controller_groups.remove(&c1.1);
            ops.push(PollerOp::Delete { key: c1.0, fd: c1.2.fd });
            if c1.1 != remove_token {
                survivors.push((c1.1, c1.2));
            }
        }
        proof {
            let rt = remove_token;
            let g = old(self).controller_groups@[rt];
            let gr = old(self).groups@[g];
            let s1 = *self;
            assert(old(self).groups@.contains_key(g));
            assert(gr.has_token(rt));
            let wit = choose|i: int|
                0 <= i < gr.constituents@.len() && gr.constituents@[i].1 == rt;
            assert(wit == 0 || wit == 1);
            assert(!poll_manager.registered(gr.virtual_poll_key));
            assert forall|i: int| 0 <= i < gr.constituents@.len() implies !poll_manager.registered(
                (#[trigger] gr.constituents@[i]).0,
            ) by {
                assert(i == 0 || i == 1);
            }
            if gr.constituents@.len() == 1 {
                assert(gr.constituents@[0].1 == rt);
                assert(survivors@ =~= Seq::<(usize, Controller)>::empty());
            } else {
                if gr.constituents@[0].1 == rt {
                    assert(survivors@ =~= seq![(gr.constituents@[1].1, gr.constituents@[1].2)]);
                } else {
                    assert(gr.constituents@[1].1 == rt);
                    assert(survivors@ =~= seq![(gr.constituents@[0].1, gr.constituents@[0].2)]);
                }
            }
            assert forall|t: usize| #[trigger] s1.controller_groups@.contains_key(t) implies {
                &&& s1.groups@.contains_key(s1.controller_groups@[t])
                &&& s1.groups@[s1.controller_groups@[t]].has_token(t)
            } by {
                assert(old(self).controller_groups@.contains_key(t));
                let g2 = old(self).controller_groups@[t];
                if g2 == g {
                    let i = choose|i: int|
                        0 <= i < gr.constituents@.len() && gr.constituents@[i].1 == t;
                    assert(i == 0 || i == 1);
                    assert(false);
                }
                assert(s1.groups@.contains_key(g2));
                assert(s1.controller_groups@[t] == g2);
            }
            assert forall|g2: usize| #[trigger] s1.groups@.contains_key(g2) implies {
                &&& s1.groups@[g2].wf()
                &&& s1.combined_group_token_allocator.live().contains(g2)
                &&& forall|i: int|
                    0 <= i < s1.groups@[g2].constituents@.len() ==> {
                        let t = (#[trigger] s1.groups@[g2].constituents@[i]).1;
                        &&& s1.controller_groups@.contains_key(t)
                        &&& s1.controller_groups@[t] == g2
                    }
            } by {
                assert(old(self).groups@.contains_key(g2));
                assert(g2 != g);
                let gr2 = old(self).groups@[g2];
                assert forall|i: int| 0 <= i < gr2.constituents@.len() implies {
                    let t = (#[trigger] gr2.constituents@[i]).1;
                    &&& s1.controller_groups@.contains_key(t)
                    &&& s1.controller_groups@[t] == g2
                } by {
                    let t = gr2.constituents@[i].1;
                    assert(old(self).controller_groups@.contains_key(t));
                    assert(old(self).controller_groups@[t] == g2);
                    assert(old(self).controller_groups@[gr.constituents@[0].1] == g);
                    assert(t != gr.constituents@[0].1);
                    if gr.constituents@.len() == 2 {
                        assert(old(self).controller_groups@[gr.constituents@[1].1] == g);
                        assert(t != gr.constituents@[1].1);
                    }
                }
            }
        }
        Ok((survivors, ops))
    }
}

} // verus!
