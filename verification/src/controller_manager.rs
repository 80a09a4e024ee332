use vstd::prelude::*;

use crate::combined_controller_manager::CombinedControllerManager;
use crate::controller::{known_product, model_of_product, ButtonsState, Controller, PairingState};
use crate::errors::Error;
use crate::events::InputEventData;
use crate::key_allocator::KeyAllocator;
use crate::key_map::KeyMap;
use crate::poll_manager::{PollManager, KEY_CAPACITY};
use crate::virtual_controller::{mapped_events, output_relay_transition, record_transition, OutputAction, OutputEvent};
use crate::waiting_controller_manager::WaitingControllerManager;

verus! {

/// Capacity of the controller-token allocator: at most this many physical
/// controllers are admitted at once.
pub const CONTROLLER_TOKEN_CAPACITY: usize = 0x100;

/// What one reactor subscription watches.  Callbacks are closed tags: the
/// orchestrator's dispatcher interprets them, so the reactor itself holds
/// no per-source closures.
#[derive(Clone, Copy, Debug, PartialEq, Eq, Structural)]
pub enum PollHandler {
    /// The hotplug monitor's fixed slot.
    Detector,
    /// A waiting controller, observed for the pairing gesture.
    PairingController { token: usize },
    /// The synthetic device of a fused group: its readable events are the
    /// OS's haptic requests, relayed backward.
    VirtualOutput { group: usize },
    /// One constituent of a fused group: its readable events are input,
    /// relayed forward under this relay slot id.
    ConstituentInput { group: usize, slot: usize },
}

/// One change to the OS readiness queue that the surrounding binary must
/// mirror: this crate keeps the key-to-handler registry, the binary keeps
/// the queue itself.
#[derive(Clone, Copy, Debug, PartialEq, Eq, Structural)]
pub enum PollerOp {
    /// Start watching the descriptor under this key.
    Add { key: usize, fd: i32 },
    /// Stop watching the descriptor registered under this key.
    Delete { key: usize, fd: i32 },
}

/// What the control plane consumes of one hotplug or enumeration
/// notification: the device's node path, its open handle, and the product
/// id that classifies its model.  A removal notification carries no
/// usable handle; its `fd` and `product_id` are ignored.
#[derive(Debug)]
pub struct DeviceDescriptor {
    pub path: Option<Vec<u8>>,
    pub fd: i32,
    pub product_id: u16,
}

/// Kind of a hotplug notification.
#[derive(Clone, Copy, Debug, PartialEq, Eq, Structural)]
pub enum UdevEventKind {
    Add,
    Remove,
    Other,
}

/// One message routed by the orchestrator.
#[derive(Debug)]
pub enum ControllerMessage {
    /// A waiting controller's freshly recomputed pairing verdict.
    StateUpdate(usize, PairingState),
    /// A live hotplug notification.
    UdevEvent(UdevEventKind, DeviceDescriptor),
    /// One device found by the cold-start enumeration pass; it takes the
    /// same admission path as hotplug.
    DeviceScan(DeviceDescriptor),
    /// A relay turn completed; no orchestrator-level effect.
    Relay,
}

/// An effect the orchestrator asks the surrounding binary to perform.
/// The binary carries each out in order; the control plane has already
/// committed the bookkeeping the effect mirrors.
#[derive(Debug)]
pub enum Effect {
    /// Mirror one subscription change into the OS readiness queue.
    Poller(PollerOp),
    /// A fusing verdict fell: build a synthetic device with the declared
    /// capability set, then hand its handle to `fuse` with these same
    /// tokens and this policy.
    BuildFusion { tokens: Vec<usize>, key_map: KeyMap },
    /// Emit this surviving relay batch atomically on the synthetic
    /// device.
    EmitInput { virtual_fd: i32, events: Vec<InputEventData> },
    /// Drain the synthetic device of this group and feed each drained
    /// event to the group's output relay.
    DrainVirtualOutput { group: usize, virtual_fd: i32 },
}

/// What the surrounding binary observed on one ready source.
#[derive(Debug)]
pub enum WakeEvent {
    /// The drained pending input batch of a physical device.
    Input(Vec<InputEventData>),
    /// One notification read from the hotplug monitor.
    Udev(UdevEventKind, DeviceDescriptor),
    /// The synthetic device of some group became readable.
    Output,
}


/// How one admission notification (hotplug add or enumeration entry)
/// changes the orchestrator.  A notification without a usable path is
/// rejected with `MissingPath`; an unknown product id aborts only that
/// device's admission with `UnknownModel`; otherwise a fresh token is
/// allocated, the device path indexed to it, and the new controller
/// handed to the waiting manager, subscribed for pairing observation.
/// Admission fails with `AllocationExhausted`, leaving everything as it
/// was, exactly when the token pool or the reactor's key pool is empty.
pub open spec fn admit_transition(
    pre: ControllerManager,
    pre_pm: PollManager<PollHandler>,
    post: ControllerManager,
    post_pm: PollManager<PollHandler>,
    desc: DeviceDescriptor,
    r: Result<Vec<Effect>, Error>,
) -> bool {
    match desc.path {
        Option::None => {
            &&& r == Err::<Vec<Effect>, Error>(Error::MissingPath)
            &&& post == pre
            &&& post_pm == pre_pm
        }
        Option::Some(path) => {
            if !known_product(desc.product_id) {
                &&& r == Err::<Vec<Effect>, Error>(Error::UnknownModel)
                &&& post == pre
                &&& post_pm == pre_pm
            } else {
                match r {
                    Result::Ok(effects) => {
                        let token = post.token_of_path(path@);
                        let key = post.waiting_controller_manager.view_map()[token].0;
                        let ctl = Controller {
                            fd: desc.fd,
                            model: model_of_product(desc.product_id),
                            buttons_state: ButtonsState::released(),
                        };
                        &&& post.has_path(path@)
                        &&& post.same_paths_except(&pre, path@)
                        &&& !pre.controller_token_allocator.live().contains(token)
                        &&& post.controller_token_allocator.live()
                            == pre.controller_token_allocator.live().insert(token)
                        &&& post.waiting_controller_manager.view_map()
                            == pre.waiting_controller_manager.view_map().insert(
                            token,
                            (key, ctl),
                        )
                        &&& post.combined_controller_manager == pre.combined_controller_manager
                        &&& post.left == pre.left
                        &&& post.right == pre.right
                        &&& post_pm.registered(key)
                        &&& post_pm.handler_of(key) == (PollHandler::PairingController { token })
                        &&& post_pm.same_except(&pre_pm, key)
                        &&& effects@ == seq![Effect::Poller(PollerOp::Add { key, fd: desc.fd })]
                    }
                    Result::Err(e) => {
                        &&& e == Error::AllocationExhausted
                        &&& (pre.controller_token_allocator.exhausted() || forall|k: usize|
                            k < KEY_CAPACITY ==> pre_pm.registered(k))
                        &&& post.controller_token_allocator.live()
                            == pre.controller_token_allocator.live()
                        &&& post.waiting_controller_manager.view_map()
                            == pre.waiting_controller_manager.view_map()
                        &&& post.combined_controller_manager == pre.combined_controller_manager
                        &&& post.controller_token_map@ == pre.controller_token_map@
                        &&& post.left == pre.left
                        &&& post.right == pre.right
                        &&& post_pm.same_subscriptions(&pre_pm)
                    }
                }
            }
        }
    }
}


/// The two orchestrator states expose the same observable content:
/// waiting set, groups and index, allocator live sets, path index and
/// pairing registers.
pub open spec fn observably_same(pre: ControllerManager, post: ControllerManager) -> bool {
    &&& post.waiting_controller_manager.view_map() == pre.waiting_controller_manager.view_map()
    &&& post.combined_controller_manager.groups@ == pre.combined_controller_manager.groups@
    &&& post.combined_controller_manager.controller_groups@
        == pre.combined_controller_manager.controller_groups@
    &&& post.combined_controller_manager.combined_group_token_allocator.live()
        == pre.combined_controller_manager.combined_group_token_allocator.live()
    &&& post.controller_token_allocator.live() == pre.controller_token_allocator.live()
    &&& post.controller_token_map@ == pre.controller_token_map@
    &&& post.left == pre.left
    &&& post.right == pre.right
}

/// How one removal notification changes the orchestrator.  The path
/// resolves to the token it was indexed under ( `MissingPath` without a
/// usable path, `NotFound` for an unindexed one).  The controller leaves
/// whichever manager owns it; leaving the combined manager tears its
/// whole group down and re-enrolls the surviving constituent, if any,
/// into the waiting set.  Either way the token returns to the pool and
/// the path leaves the index, even if unregistering errs; a token owned
/// by neither manager is `NotFound`.
pub open spec fn remove_transition(
    pre: ControllerManager,
    pre_pm: PollManager<PollHandler>,
    post: ControllerManager,
    post_pm: PollManager<PollHandler>,
    desc: DeviceDescriptor,
    r: Result<Vec<Effect>, Error>,
) -> bool {
    match desc.path {
        Option::None => {
            &&& r == Err::<Vec<Effect>, Error>(Error::MissingPath)
            &&& observably_same(pre, post)
            &&& post_pm == pre_pm
        }
        Option::Some(path) => {
            if !pre.has_path(path@) {
                &&& r == Err::<Vec<Effect>, Error>(Error::NotFound)
                &&& observably_same(pre, post)
                &&& post_pm == pre_pm
            } else {
                let token = pre.token_of_path(path@);
                if pre.waiting_controller_manager.contains_token(token) {
                    let key = pre.waiting_controller_manager.view_map()[token].0;
                    let c = pre.waiting_controller_manager.view_map()[token].1;
                    &&& r matches Ok(effects) && effects@ == seq![
                        Effect::Poller(PollerOp::Delete { key, fd: c.fd }),
                    ]
                    &&& post.waiting_controller_manager.view_map()
                        == pre.waiting_controller_manager.view_map().remove(token)
                    &&& post.combined_controller_manager.groups@
                        == pre.combined_controller_manager.groups@
                    &&& post.combined_controller_manager.controller_groups@
                        == pre.combined_controller_manager.controller_groups@
                    &&& post.controller_token_allocator.live()
                        == pre.controller_token_allocator.live().remove(token)
                    &&& !post.has_path(path@)
                    &&& post.same_paths_except(&pre, path@)
                    &&& post.left == pre.left
                    &&& post.right == pre.right
                    &&& !post_pm.registered(key)
                    &&& post_pm.same_except(&pre_pm, key)
                } else if pre.combined_controller_manager.contains_token(token) {
                    let g = pre.combined_controller_manager.controller_groups@[token];
                    let gr = pre.combined_controller_manager.groups@[g];
                    let two = gr.constituents@.len() == 2;
                    let other = if gr.constituents@[0].1 == token {
                        gr.constituents@[1]
                    } else {
                        gr.constituents@[0]
                    };
                    &&& post.combined_controller_manager.groups@
                        == pre.combined_controller_manager.groups@.remove(g)
                    &&& post.combined_controller_manager.controller_groups@ == if !two {
                        pre.combined_controller_manager.controller_groups@.remove(
                            gr.constituents@[0].1,
                        )
                    } else {
                        pre.combined_controller_manager.controller_groups@.remove(
                            gr.constituents@[0].1,
                        ).remove(gr.constituents@[1].1)
                    }
                    &&& post.controller_token_allocator.live()
                        == pre.controller_token_allocator.live().remove(token)
                    &&& !post.has_path(path@)
                    &&& post.same_paths_except(&pre, path@)
                    &&& post.left == pre.left
                    &&& post.right == pre.right
                    &&& (!two ==> post.waiting_controller_manager.view_map()
                        == pre.waiting_controller_manager.view_map())
                    &&& (two ==> {
                        &&& post.waiting_controller_manager.contains_token(other.1)
                        &&& post.waiting_controller_manager.view_map()[other.1].1 == other.2
                        &&& post.waiting_controller_manager.view_map()
                            == pre.waiting_controller_manager.view_map().insert(
                            other.1,
                            post.waiting_controller_manager.view_map()[other.1],
                        )
                        &&& post_pm.registered(post.waiting_controller_manager.view_map()[other.1].0)
                        &&& post_pm.handler_of(post.waiting_controller_manager.view_map()[other.1].0)
                            == (PollHandler::PairingController { token: other.1 })
                    })
                    &&& r matches Ok(effects) && {
                        let dels = 1 + gr.constituents@.len() as int;
                        &&& effects@.len() == dels + if two {
                            1int
                        } else {
                            0int
                        }
                        &&& effects@[0] == Effect::Poller(PollerOp::Delete {
                            key: gr.virtual_poll_key,
                            fd: gr.virtual_controller.fd,
                        })
                        &&& forall|i: int|
                            0 <= i < gr.constituents@.len() ==> effects@[i + 1] == Effect::Poller(
                                PollerOp::Delete {
                                    key: (#[trigger] gr.constituents@[i]).0,
                                    fd: gr.constituents@[i].2.fd,
                                },
                            )
                        &&& (two ==> effects@[dels] == Effect::Poller(PollerOp::Add {
                            key: post.waiting_controller_manager.view_map()[other.1].0,
                            fd: other.2.fd,
                        }))
                    }
                } else {
                    &&& r == Err::<Vec<Effect>, Error>(Error::NotFound)
                    &&& observably_same(pre, post)
                    &&& post_pm == pre_pm
                }
            }
        }
    }
}


/// The two orchestrator states agree on everything but the two pairing
/// registers.
pub open spec fn same_but_registers(pre: ControllerManager, post: ControllerManager) -> bool {
    &&& post.waiting_controller_manager.view_map() == pre.waiting_controller_manager.view_map()
    &&& post.combined_controller_manager.groups@ == pre.combined_controller_manager.groups@
    &&& post.combined_controller_manager.controller_groups@
        == pre.combined_controller_manager.controller_groups@
    &&& post.combined_controller_manager.combined_group_token_allocator.live()
        == pre.combined_controller_manager.combined_group_token_allocator.live()
    &&& post.controller_token_allocator.live() == pre.controller_token_allocator.live()
    &&& post.controller_token_map@ == pre.controller_token_map@
}

/// How one pairing verdict drives the cross-device protocol.  `Pairing`
/// is ignored.  `Waiting` stores the token in the register of its side;
/// once both registers hold a token, both are taken and a fusion of the
/// pair under the combined policy is requested (the verdict source stays
/// in the waiting set until `fuse` moves it).  `Lone` and `Horizontal`
/// request a fusion of the single half under the identity policy or the
/// horizontal policy of its handedness.  A fusion is only requested for
/// tokens that are actually waiting: otherwise `NotFound`, with the
/// registers already cleared, as taking them is what arms the check.
pub open spec fn pairing_transition(
    pre: ControllerManager,
    post: ControllerManager,
    token: usize,
    state: PairingState,
    r: Result<Vec<Effect>, Error>,
) -> bool {
    match state {
        PairingState::Pairing => {
            &&& r matches Ok(effects) && effects@.len() == 0
            &&& observably_same(pre, post)
        }
        PairingState::Waiting(model) => {
            let left2 = if model is LeftJoycon {
                Some(token)
            } else {
                pre.left
            };
            let right2 = if model is RightJoycon {
                Some(token)
            } else {
                pre.right
            };
            if left2 is Some && right2 is Some {
                let lt = left2->Some_0;
                let rt = right2->Some_0;
                &&& same_but_registers(pre, post)
                &&& post.left is None
                &&& post.right is None
                &&& if lt == rt {
                    r == Err::<Vec<Effect>, Error>(Error::ProtocolViolation)
                } else if pre.waiting_controller_manager.contains_token(lt)
                    && pre.waiting_controller_manager.contains_token(rt) {
                    r matches Ok(effects) && effects@.len() == 1 && (effects@[0] matches
                    Effect::BuildFusion { tokens, key_map } && tokens@ == seq![lt, rt] && key_map
                        == KeyMap::Combined)
                } else {
                    r == Err::<Vec<Effect>, Error>(Error::NotFound)
                }
            } else {
                &&& r matches Ok(effects) && effects@.len() == 0
                &&& same_but_registers(pre, post)
                &&& post.left == left2
                &&& post.right == right2
            }
        }
        PairingState::Lone => {
            &&& observably_same(pre, post)
            &&& if pre.waiting_controller_manager.contains_token(token) {
                r matches Ok(effects) && effects@.len() == 1 && (effects@[0] matches
                Effect::BuildFusion { tokens, key_map } && tokens@ == seq![token] && key_map
                    == KeyMap::Identity)
            } else {
                r == Err::<Vec<Effect>, Error>(Error::NotFound)
            }
        }
        PairingState::Horizontal => {
            &&& observably_same(pre, post)
            &&& if pre.waiting_controller_manager.contains_token(token) {
                let km = if pre.waiting_controller_manager.view_map()[token].1.model
                    is LeftJoycon {
                    KeyMap::HorizontalLeft
                } else {
                    KeyMap::HorizontalRight
                };
                r matches Ok(effects) && effects@.len() == 1 && (effects@[0] matches
                Effect::BuildFusion { tokens, key_map } && tokens@ == seq![token] && key_map == km)
            } else {
                r == Err::<Vec<Effect>, Error>(Error::NotFound)
            }
        }
    }
}

/// How a requested fusion changes the orchestrator.  Every named token
/// must still be waiting, else `NotFound` and no change.  On success the
/// named controllers move from the waiting set into one fresh group, in
/// the order given (the list position is the relay slot), and the
/// returned operations first unsubscribe each half's pairing
/// registration, then subscribe the synthetic device and each
/// constituent.  On a failed group admission everything is rolled back:
/// the group manager is untouched and the halves return to the waiting
/// set under fresh keys (should that re-subscription itself fail, that
/// half is dropped and is absent until its next notification).
pub open spec fn fuse_transition(
    pre: ControllerManager,
    pre_pm: PollManager<PollHandler>,
    post: ControllerManager,
    post_pm: PollManager<PollHandler>,
    tokens: Seq<usize>,
    key_map: KeyMap,
    virtual_fd: i32,
    r: (Result<usize, Error>, Vec<Effect>),
) -> bool {
    if !(forall|i: int|
        0 <= i < tokens.len() ==> pre.waiting_controller_manager.contains_token(
            #[trigger] tokens[i],
        )) {
        &&& r.0 == Err::<usize, Error>(Error::NotFound)
        &&& r.1@.len() == 0
        &&& observably_same(pre, post)
    } else {
        let two = tokens.len() == 2;
        match r.0 {
            Result::Ok(g) => {
                let gr = post.combined_controller_manager.groups@[g];
                &&& !pre.combined_controller_manager.groups@.contains_key(g)
                &&& post.combined_controller_manager.groups@.contains_key(g)
                &&& post.combined_controller_manager.groups@
                    == pre.combined_controller_manager.groups@.insert(g, gr)
                &&& crate::combined_controller_manager::group_matches(
                    gr,
                    Seq::new(
                        tokens.len(),
                        |i: int|
                            (tokens[i], pre.waiting_controller_manager.view_map()[tokens[i]].1),
                    ),
                    key_map,
                    virtual_fd,
                )
                &&& post.combined_controller_manager.controller_groups@ == if !two {
                    pre.combined_controller_manager.controller_groups@.insert(tokens[0], g)
                } else {
                    pre.combined_controller_manager.controller_groups@.insert(
                        tokens[0],
                        g,
                    ).insert(tokens[1], g)
                }
                &&& post.waiting_controller_manager.view_map() == if !two {
                    pre.waiting_controller_manager.view_map().remove(tokens[0])
                } else {
                    pre.waiting_controller_manager.view_map().remove(tokens[0]).remove(tokens[1])
                }
                &&& post.controller_token_allocator.live()
                    == pre.controller_token_allocator.live()
                &&& post.controller_token_map@ == pre.controller_token_map@
                &&& post.left == pre.left
                &&& post.right == pre.right
                &&& r.1@.len() == 2 * tokens.len() + 1
                &&& forall|i: int|
                    0 <= i < tokens.len() ==> r.1@[i] == Effect::Poller(
                        PollerOp::Delete {
                            key: pre.waiting_controller_manager.view_map()[#[trigger] tokens[i]].0,
                            fd: pre.waiting_controller_manager.view_map()[tokens[i]].1.fd,
                        },
                    )
                &&& r.1@[tokens.len() as int] == Effect::Poller(
                    PollerOp::Add { key: gr.virtual_poll_key, fd: virtual_fd },
                )
                &&& forall|i: int|
                    0 <= i < tokens.len() ==> r.1@[tokens.len() + 1 + i] == Effect::Poller(
                        PollerOp::Add {
                            key: (#[trigger] gr.constituents@[i]).0,
                            fd: gr.constituents@[i].2.fd,
                        },
                    )
                &&& post_pm.registered(gr.virtual_poll_key)
                &&& post_pm.handler_of(gr.virtual_poll_key) == (PollHandler::VirtualOutput {
                    group: g,
                })
            }
            Result::Err(e) => {
                &&& e == Error::AllocationExhausted
                &&& (pre.combined_controller_manager.combined_group_token_allocator.exhausted()
                    || !pre_pm.can_supply_group_keys(tokens.len() as int))
                &&& post.combined_controller_manager.groups@
                    == pre.combined_controller_manager.groups@
                &&& post.combined_controller_manager.controller_groups@
                    == pre.combined_controller_manager.controller_groups@
                &&& post.controller_token_allocator.live()
                    == pre.controller_token_allocator.live()
                &&& post.controller_token_map@ == pre.controller_token_map@
                &&& post.left == pre.left
                &&& post.right == pre.right
                &&& post.waiting_controller_manager.view_map()
                    == pre.waiting_controller_manager.view_map()
            }
        }
    }
}

/// How the registered handler of one ready source turns what the binary
/// observed into the message to route plus the relay effects of the
/// turn.  The registry is read only; the orchestrator changes only on a
/// pairing wake, where the batch folds into that half's accumulators.
pub open spec fn produce_transition(
    pre: ControllerManager,
    pm: PollManager<PollHandler>,
    post: ControllerManager,
    key: usize,
    wake: WakeEvent,
    r: Result<(ControllerMessage, Vec<Effect>), Error>,
) -> bool {
    &&& (!pm.registered(key) ==> r == Err::<(ControllerMessage, Vec<Effect>), Error>(
                Error::NotFound,
            ) && post == pre)
    &&& (pm.registered(key) ==> match pm.handler_of(key) {
                PollHandler::Detector => match wake {
                    WakeEvent::Udev(kind, desc) => (r matches Ok(p) && p.0
                        == ControllerMessage::UdevEvent(kind, desc) && p.1@.len() == 0) && post == pre,
                    _ => r == Err::<(ControllerMessage, Vec<Effect>), Error>(
                        Error::ProtocolViolation,
                    ) && post == pre,
                },
                PollHandler::PairingController { token } => match wake {
                    WakeEvent::Input(batch) => {
                        &&& pre.waiting_controller_manager.contains_token(token) ==> ({
                            let entry = pre.waiting_controller_manager.view_map()[token];
                            let moved = Controller {
                                buttons_state: entry.1.buttons_state.apply_events(
                                    entry.1.model,
                                    batch@,
                                ),
                                ..entry.1
                            };
                            &&& r matches Ok(p) && p.0 == ControllerMessage::StateUpdate(
                                token,
                                crate::controller::pairing_state_of(
                                    moved.model,
                                    moved.buttons_state,
                                ),
                            ) && p.1@.len() == 0
                            &&& post.waiting_controller_manager.view_map() == pre.waiting_controller_manager.view_map().insert(
                                token,
                                (entry.0, moved),
                            )
                            &&& post.combined_controller_manager == pre.combined_controller_manager
                            &&& post.controller_token_allocator == pre.controller_token_allocator
                            &&& post.controller_token_map == pre.controller_token_map
                            &&& post.left == pre.left
                            &&& post.right == pre.right
                        })
                        &&& !pre.waiting_controller_manager.contains_token(token) ==> r
                            == Err::<(ControllerMessage, Vec<Effect>), Error>(Error::NotFound)
                            && post == pre
                    },
                    _ => r == Err::<(ControllerMessage, Vec<Effect>), Error>(
                        Error::ProtocolViolation,
                    ) && post == pre,
                },
                PollHandler::ConstituentInput { group, slot } => (match wake {
                    WakeEvent::Input(batch) => {
                        &&& pre.combined_controller_manager.groups@.contains_key(group)
                            ==> ({
                            let vc = pre.combined_controller_manager.groups@[group].virtual_controller;
                            &&& slot < vc.constituent_fds@.len() ==> (r matches Ok(p) && p.0
                                == ControllerMessage::Relay && p.1@.len() == 1 && (p.1@[0] matches
                            Effect::EmitInput { virtual_fd, events } && virtual_fd == vc.fd
                                && events@ == mapped_events(vc.key_map, slot, batch@)))
                            &&& slot >= vc.constituent_fds@.len() ==> r == Err::<
                                (ControllerMessage, Vec<Effect>),
                                Error,
                            >(Error::NotFound)
                        })
                        &&& !pre.combined_controller_manager.groups@.contains_key(group)
                            ==> r == Err::<(ControllerMessage, Vec<Effect>), Error>(Error::NotFound)
                    },
                    _ => r == Err::<(ControllerMessage, Vec<Effect>), Error>(
                        Error::ProtocolViolation,
                    ),
                }) && post == pre,
                PollHandler::VirtualOutput { group } => (match wake {
                    WakeEvent::Output => {
                        &&& pre.combined_controller_manager.groups@.contains_key(group)
                            ==> (r matches Ok(p) && p.0 == ControllerMessage::Relay && p.1@.len()
                            == 1 && p.1@[0] == (Effect::DrainVirtualOutput {
                            group,
                            virtual_fd: pre.combined_controller_manager.groups@[group].virtual_controller.fd,
                        }))
                        &&& !pre.combined_controller_manager.groups@.contains_key(group)
                            ==> r == Err::<(ControllerMessage, Vec<Effect>), Error>(Error::NotFound)
                    },
                    _ => r == Err::<(ControllerMessage, Vec<Effect>), Error>(
                        Error::ProtocolViolation,
                    ),
                }) && post == pre,
            })
}


/// How one routed message changes the orchestrator and the registry:
/// the per-kind transition of the admission, removal and pairing paths,
/// with relay notifications inert and unhandled notification kinds
/// rejected.
pub open spec fn process_transition(
    pre: ControllerManager,
    pre_pm: PollManager<PollHandler>,
    post: ControllerManager,
    post_pm: PollManager<PollHandler>,
    message: ControllerMessage,
    r: Result<Vec<Effect>, Error>,
) -> bool {
    match message {
                ControllerMessage::StateUpdate(token, state) => pairing_transition(
                    pre,
                    post,
                    token,
                    state,
                    r,
                ) && post_pm == pre_pm,
                ControllerMessage::UdevEvent(kind, desc) => match kind {
                    UdevEventKind::Add => admit_transition(
                        pre,
                        pre_pm,
                        post,
                        post_pm,
                        desc,
                        r,
                    ),
                    UdevEventKind::Remove => remove_transition(
                        pre,
                        pre_pm,
                        post,
                        post_pm,
                        desc,
                        r,
                    ),
                    UdevEventKind::Other => r == Err::<Vec<Effect>, Error>(
                        Error::ProtocolViolation,
                    ) && post == pre && post_pm == pre_pm,
                },
                ControllerMessage::DeviceScan(desc) => admit_transition(
                    pre,
                    pre_pm,
                    post,
                    post_pm,
                    desc,
                    r,
                ),
                ControllerMessage::Relay => (r matches Ok(effects) && effects@.len() == 0)
                    && post == pre && post_pm == pre_pm,
            }
}


/// One dispatched wake: the registered handler of the ready source runs
/// on what the binary observed (`produce_transition`), its message is
/// routed (`process_transition`), and the turn's effects are the
/// handler's followed by the router's.  A failure at either stage is the
/// source's own outcome, with the state the failing stage left.
pub open spec fn wake_step(
    pre: ControllerManager,
    pre_pm: PollManager<PollHandler>,
    post: ControllerManager,
    post_pm: PollManager<PollHandler>,
    key: usize,
    wake: WakeEvent,
    outcome: Result<(), Error>,
    effects: Seq<Effect>,
) -> bool {
    ||| (exists|msg: ControllerMessage, produced: Vec<Effect>, mid: ControllerManager, more: Vec<
        Effect,
    >|
        {
            &&& #[trigger] produce_transition(
                pre,
                pre_pm,
                mid,
                key,
                wake,
                Ok::<(ControllerMessage, Vec<Effect>), Error>((msg, produced)),
            )
            &&& #[trigger] process_transition(
                mid,
                pre_pm,
                post,
                post_pm,
                msg,
                Ok::<Vec<Effect>, Error>(more),
            )
            &&& outcome == Ok::<(), Error>(())
            &&& effects == produced@ + more@
        })
    ||| (exists|msg: ControllerMessage, produced: Vec<Effect>, mid: ControllerManager, e: Error|
        {
            &&& #[trigger] produce_transition(
                pre,
                pre_pm,
                mid,
                key,
                wake,
                Ok::<(ControllerMessage, Vec<Effect>), Error>((msg, produced)),
            )
            &&& #[trigger] process_transition(
                mid,
                pre_pm,
                post,
                post_pm,
                msg,
                Err::<Vec<Effect>, Error>(e),
            )
            &&& outcome == Err::<(), Error>(e)
            &&& effects == produced@
        })
    ||| (exists|e: Error|
        {
            &&& #[trigger] produce_transition(
                pre,
                pre_pm,
                post,
                key,
                wake,
                Err::<(ControllerMessage, Vec<Effect>), Error>(e),
            )
            &&& outcome == Err::<(), Error>(e)
            &&& post_pm == pre_pm
            &&& effects == Seq::<Effect>::empty()
        })
}





/// The dispatch record of one reactor turn over a batch of ready
/// sources.  `states[i]` is the (orchestrator, registry) pair before the
/// i-th wake and `states[i+1]` the pair after it, so the states thread
/// from wake to wake; `splits[i]` counts the effects emitted before the
/// i-th wake, so the batch's effects are the per-wake effects
/// concatenated in dispatch order.  Each wake is dispatched by
/// `wake_step`: its keyed outcome and effects are those of running the
/// registered handler and routing its message, and a failed turn is
/// contained in its source's outcome, never halting the batch.
pub open spec fn poll_trace(
    wakes: Seq<(usize, WakeEvent)>,
    results: Seq<(usize, Result<(), Error>)>,
    effects: Seq<Effect>,
    states: Seq<(ControllerManager, PollManager<PollHandler>)>,
    splits: Seq<int>,
) -> bool {
    &&& results.len() == wakes.len()
    &&& states.len() == wakes.len() + 1
    &&& splits.len() == wakes.len() + 1
    &&& splits[0] == 0
    &&& splits.last() == effects.len() as int
    &&& forall|i: int|
        0 <= i < results.len() ==> 0 <= #[trigger] splits[i] <= splits[i + 1] <= effects.len()
    &&& forall|i: int|
        0 <= i < results.len() ==> wake_step(
            states[i].0,
            states[i].1,
            states[i + 1].0,
            states[i + 1].1,
            wakes[i].0,
            wakes[i].1,
            (#[trigger] results[i]).1,
            effects.subrange(splits[i], splits[i + 1]),
        )
}

/// Byte-wise equality of two paths.
fn bytes_eq(a: &Vec<u8>, b: &Vec<u8>) -> (r: bool)
    ensures
        r == (a@ == b@),
{
    if a.len() != b.len() {
        return false;
    }
    let mut i: usize = 0;
    while i < a.len()
        invariant
            i <= a@.len(),
            a@.len() == b@.len(),
            forall|j: int| 0 <= j < i ==> a@[j] == b@[j],
        decreases a@.len() - i,
    {
        if a[i] != b[i] {
            return false;
        }
        i = i + 1;
    }
    proof {
        assert(a@ =~= b@);
    }
    true
}

/// A copy of a path's bytes.
fn bytes_clone(v: &Vec<u8>) -> (r: Vec<u8>)
    ensures
        r@ == v@,
{
    let mut r: Vec<u8> = Vec::new();
    let mut i: usize = 0;
    while i < v.len()
        invariant
            i <= v@.len(),
            r@ == v@.take(i as int),
        decreases v@.len() - i,
    {
        r.push(v[i]);
        proof {
            assert(v@.take(i as int).push(v@[i as int]) =~= v@.take(i + 1));
        }
        i = i + 1;
    }
    proof {
        assert(v@.take(v@.len() as int) =~= v@);
    }
    r
}

/// The top-level orchestrator: the controller-token allocator, the
/// device-path index that resolves path-keyed removal notifications, the
/// two sub-managers, and the two single-slot pending-pairing registers.
/// It routes every message and runs the cross-device pairing protocol.
pub struct ControllerManager {
    pub waiting_controller_manager: WaitingControllerManager,
    pub combined_controller_manager: CombinedControllerManager,
    pub controller_token_allocator: KeyAllocator,
    pub controller_token_map: Vec<(Vec<u8>, usize)>,
    /// Token of the half-paired left half awaiting its partner, if any.
    pub left: Option<usize>,
    /// Token of the half-paired right half awaiting its partner, if any.
    pub right: Option<usize>,
}

/// A path is present in an index sequence.
pub open spec fn seq_has_path(m: Seq<(Vec<u8>, usize)>, p: Seq<u8>) -> bool {
    exists|i: int| 0 <= i < m.len() && m[i].0@ == p
}

/// The token a path resolves to in an index sequence.
pub open spec fn seq_token_of(m: Seq<(Vec<u8>, usize)>, p: Seq<u8>) -> usize {
    m[choose|i: int| 0 <= i < m.len() && m[i].0@ == p].1
}

impl ControllerManager {
    /// A device path is indexed.
    pub open spec fn has_path(&self, p: Seq<u8>) -> bool {
        seq_has_path(self.controller_token_map@, p)
    }

    /// The token an indexed device path resolves to.
    pub open spec fn token_of_path(&self, p: Seq<u8>) -> usize {
        seq_token_of(self.controller_token_map@, p)
    }

    /// No device path is indexed twice.
    pub open spec fn paths_unique(&self) -> bool {
        forall|i: int, j: int|
            0 <= i < j < self.controller_token_map@.len()
                ==> self.controller_token_map@[i].0@ != self.controller_token_map@[j].0@
    }

    /// The path index of `self` agrees with that of `other` on every path
    /// but `p`.
    pub open spec fn same_paths_except(&self, other: &ControllerManager, p: Seq<u8>) -> bool {
        forall|q: Seq<u8>|
            q != p ==> {
                &&& (#[trigger] seq_has_path(self.controller_token_map@, q) <==> seq_has_path(
                    other.controller_token_map@,
                    q,
                ))
                &&& (seq_has_path(other.controller_token_map@, q) ==> seq_token_of(
                    self.controller_token_map@,
                    q,
                ) == seq_token_of(other.controller_token_map@, q))
            }
    }

    /// The orchestrator invariant: the group manager is consistent, no
    /// path is indexed twice, a controller is owned by exactly one of the
    /// two sub-managers, and every owned controller token is live in the
    /// allocator.
    pub open spec fn wf(&self) -> bool {
        &&& self.combined_controller_manager.wf()
        &&& self.paths_unique()
        &&& self.controller_token_allocator.capacity_spec() == CONTROLLER_TOKEN_CAPACITY
        &&& forall|t: usize|
            #[trigger] self.waiting_controller_manager.contains_token(t) ==> {
                &&& !self.combined_controller_manager.contains_token(t)
                &&& self.controller_token_allocator.live().contains(t)
                &&& self.waiting_controller_manager.view_map()[t].0 < KEY_CAPACITY
            }
        &&& forall|t: usize|
            #[trigger] self.combined_controller_manager.contains_token(t)
                ==> self.controller_token_allocator.live().contains(t)
    }

    /// Creates an orchestrator with nothing admitted.
    pub fn new() -> (m: ControllerManager)
        ensures
            m.wf(),
            m.waiting_controller_manager.view_map() == Map::<usize, (usize, Controller)>::empty(),
            m.combined_controller_manager.controller_groups@ == Map::<usize, usize>::empty(),
            m.combined_controller_manager.groups@ == Map::<
                usize,
                crate::combined_controller_manager::Group,
            >::empty(),
            m.controller_token_allocator.live() == Set::<usize>::empty(),
            m.controller_token_map@.len() == 0,
            m.left is None,
            m.right is None,
    {
        ControllerManager {
            waiting_controller_manager: WaitingControllerManager::new(),
            combined_controller_manager: CombinedControllerManager::new(),
            controller_token_allocator: KeyAllocator::new(CONTROLLER_TOKEN_CAPACITY),
            controller_token_map: Vec::new(),
            left: None,
            right: None,
        }
    }


    /// Admits one device: classifies its product id, allocates a token,
    /// hands the controller to the waiting manager and indexes the device
    /// path, dropping any stale entry for the same node.
    fn add_new_device(
        &mut self,
        device: &DeviceDescriptor,
        poll_manager: &mut PollManager<PollHandler>,
    ) -> (r: Result<Vec<Effect>, Error>)
        requires
            old(self).wf(),
            old(poll_manager).wf(),
        ensures
            final(self).wf(),
            final(poll_manager).wf(),
            admit_transition(
                *old(self),
                *old(poll_manager),
                *final(self),
                *final(poll_manager),
                *device,
                r,
            ),
    {
        let path = match &device.path {
            Some(p) => p,
            None => {
                return Err(Error::MissingPath);
            }
        };
        let controller = match Controller::new(device.fd, device.product_id) {
            Ok(c) => c,
            Err(e) => {
                return Err(e);
            }
        };
        let token = match self.controller_token_allocator.allocate() {
            Ok(t) => t,
            Err(e) => {
                return Err(e);
            }
        };
        let ghost live0 = old(self).controller_token_allocator.live();
        proof {
            assert(!old(self).waiting_controller_manager.contains_token(token)) by {
                if old(self).waiting_controller_manager.contains_token(token) {
                    assert(live0.contains(token));
                }
            }
        }
        let key = match self.waiting_controller_manager.add_new_device(
            token,
            controller,
            poll_manager,
        ) {
            Ok(k) => k,
            Err(e) => {
                self.controller_token_allocator.release(token);
                proof {
                    assert(live0.insert(token).remove(token) =~= live0);
                    assert forall|t: usize|
                        #[trigger] self.waiting_controller_manager.contains_token(t) implies {
                        &&& !self.combined_controller_manager.contains_token(t)
                        &&& self.controller_token_allocator.live().contains(t)
                        &&& self.waiting_controller_manager.view_map()[t].0 < KEY_CAPACITY
                    } by {
                        assert(old(self).waiting_controller_manager.contains_token(t));
                    }
                }
                return Err(e);
            }
        };
        let path_copy = bytes_clone(path);
        self.path_remove(path);
        self.path_push(path_copy, token);
        let mut effects: Vec<Effect> = Vec::new();
        effects.push(Effect::Poller(PollerOp::Add { key, fd: device.fd }));
        proof {
            let p = path@;
            assert(effects@ =~= seq![Effect::Poller(PollerOp::Add { key, fd: device.fd })]);
            assert(self.token_of_path(p) == token);
            assert forall|q: Seq<u8>| q != p implies {
                &&& (#[trigger] seq_has_path(self.controller_token_map@, q) <==> seq_has_path(
                    old(self).controller_token_map@,
                    q,
                ))
                &&& (seq_has_path(old(self).controller_token_map@, q) ==> seq_token_of(
                    self.controller_token_map@,
                    q,
                ) == seq_token_of(old(self).controller_token_map@, q))
            } by {}
            assert forall|t: usize|
                #[trigger] self.waiting_controller_manager.contains_token(t) implies {
                &&& !self.combined_controller_manager.contains_token(t)
                &&& self.controller_token_allocator.live().contains(t)
                &&& self.waiting_controller_manager.view_map()[t].0 < KEY_CAPACITY
            } by {
                if t != token {
                    assert(old(self).waiting_controller_manager.contains_token(t));
                } else {
                    if self.combined_controller_manager.contains_token(token) {
                        assert(live0.contains(token));
                    }
                }
            }
            assert forall|t: usize|
                #[trigger] self.combined_controller_manager.contains_token(t) implies self
                .controller_token_allocator.live().contains(t) by {}
        }
        Ok(effects)
    }


    /// Removes the device admitted under a path: resolves the token the
    /// path was indexed under, takes the controller out of whichever
    /// manager owns it (tearing down its fused group if it was combined,
    /// and re-enrolling the surviving constituent into the waiting set),
    /// releases the token and drops the path from the index.
    fn remove_device(
        &mut self,
        device: &DeviceDescriptor,
        poll_manager: &mut PollManager<PollHandler>,
    ) -> (r: Result<Vec<Effect>, Error>)
        requires
            old(self).wf(),
            old(poll_manager).wf(),
        ensures
            final(self).wf(),
            final(poll_manager).wf(),
            remove_transition(
                *old(self),
                *old(poll_manager),
                *final(self),
                *final(poll_manager),
                *device,
                r,
            ),
    {
        let path = match &device.path {
            Some(p) => p,
            None => {
                return Err(Error::MissingPath);
            }
        };
        let token = match self.path_lookup(path) {
            Some(t) => t,
            None => {
                return Err(Error::NotFound);
            }
        };
        let ghost live0 = old(self).controller_token_allocator.live();
        match self.waiting_controller_manager.remove_device(token, poll_manager) {
            Ok((key, c)) => {
                let mut effects: Vec<Effect> = Vec::new();
                effects.push(Effect::Poller(PollerOp::Delete { key, fd: c.fd }));
                self.controller_token_allocator.release(token);
                self.path_remove(path);
                proof {
                    assert(effects@ =~= seq![
                        Effect::Poller(
                            PollerOp::Delete {
                                key: old(self).waiting_controller_manager.view_map()[token].0,
                                fd: old(self).waiting_controller_manager.view_map()[token].1.fd,
                            },
                        ),
                    ]);
                    assert forall|t: usize|
                        #[trigger] self.waiting_controller_manager.contains_token(t) implies {
                        &&& !self.combined_controller_manager.contains_token(t)
                        &&& self.controller_token_allocator.live().contains(t)
                        &&& self.waiting_controller_manager.view_map()[t].0 < KEY_CAPACITY
                    } by {
                        assert(old(self).waiting_controller_manager.contains_token(t));
                        assert(t != token);
                    }
                    assert forall|t: usize|
                        #[trigger] self.combined_controller_manager.contains_token(t) implies self
                        .controller_token_allocator.live().contains(t) by {
                        assert(old(self).combined_controller_manager.contains_token(t));
                        assert(!old(self).waiting_controller_manager.contains_token(token)
                            || !old(self).combined_controller_manager.contains_token(token));
                        assert(t != token);
                    }
                }
                Ok(effects)
            }
            Err(_) => {
                match self.combined_controller_manager.remove_device(token, poll_manager) {
                    Ok((survivors, ops)) => {
                        let ghost g = old(self).combined_controller_manager.controller_groups@[
                            token];
                        let ghost gr = old(self).combined_controller_manager.groups@[g];
                        let mut effects: Vec<Effect> = Vec::new();
                        let mut i: usize = 0;
                        while i < ops.len()
                            invariant
                                i <= ops@.len(),
                                effects@.len() == i,
                                forall|j: int|
                                    0 <= j < i ==> effects@[j] == Effect::Poller(ops@[j]),
                            decreases ops@.len() - i,
                        {
                            effects.push(Effect::Poller(ops[i]));
                            i = i + 1;
                        }
                        self.controller_token_allocator.release(token);
                        self.path_remove(path);
                        if survivors.len() == 1 {
                            let (surv_token, surv_controller) = survivors[0];
                            proof {
                                assert(gr.constituents@.len() == 2);
                                assert(!self.waiting_controller_manager.contains_token(
                                    surv_token,
                                )) by {
                                    if self.waiting_controller_manager.contains_token(surv_token) {
                                        assert(old(self).waiting_controller_manager.contains_token(
                                            surv_token,
                                        ));
                                        assert(!old(self).combined_controller_manager.contains_token(surv_token));
                                    }
                                }
                            }
                            match self.waiting_controller_manager.add_new_device(
                                surv_token,
                                surv_controller,
                                poll_manager,
                            ) {
                                Ok(new_key) => {
                                    effects.push(
                                        Effect::Poller(
                                            PollerOp::Add { key: new_key, fd: surv_controller.fd },
                                        ),
                                    );
                                }
                                Err(_) => {
                                    proof {
                                        assert(gr.wf());
                                        assert(false);
                                    }
                                }
                            }
                        }
                        proof {
                            let pre = *old(self);
                            let two = gr.constituents@.len() == 2;
                            let other = if gr.constituents@[0].1 == token {
                                gr.constituents@[1]
                            } else {
                                gr.constituents@[0]
                            };
                            if two {
                                assert(survivors@.len() == 1);
                                assert(survivors@[0] == (other.1, other.2));
                            } else {
                                assert(survivors@.len() == 0);
                            }
                            assert forall|t: usize|
                                #[trigger] self.waiting_controller_manager.contains_token(
                                t,
                            ) implies {
                                &&& !self.combined_controller_manager.contains_token(t)
                                &&& self.controller_token_allocator.live().contains(t)
                                &&& self.waiting_controller_manager.view_map()[t].0 < KEY_CAPACITY
                            } by {
                                if two && t == other.1 {
                                    assert(old(self).combined_controller_manager.contains_token(t));
                                    assert(t != token);
                                } else {
                                    assert(old(self).waiting_controller_manager.contains_token(t));
                                    assert(!old(self).combined_controller_manager.contains_token(t));
                                    assert(t != token);
                                }
                            }
                            assert forall|t: usize|
                                #[trigger] self.combined_controller_manager.contains_token(
                                t,
                            ) implies self.controller_token_allocator.live().contains(t) by {
                                assert(old(self).combined_controller_manager.contains_token(t));
                                assert(t != gr.constituents@[0].1);
                                if two {
                                    assert(t != gr.constituents@[1].1);
                                }
                                assert(t != token) by {
                                    assert(gr.has_token(token));
                                    let w = choose|k: int|
                                        0 <= k < gr.constituents@.len() && gr.constituents@[k].1
                                            == token;
                                    assert(w == 0 || w == 1);
                                }
                            }
                        }
                        Ok(effects)
                    }
                    Err(e) => {
                        proof {
                            assert(e == Error::NotFound);
                            assert forall|t: usize|
                                #[trigger] self.waiting_controller_manager.contains_token(
                                t,
                            ) implies {
                                &&& !self.combined_controller_manager.contains_token(t)
                                &&& self.controller_token_allocator.live().contains(t)
                                &&& self.waiting_controller_manager.view_map()[t].0 < KEY_CAPACITY
                            } by {
                                assert(old(self).waiting_controller_manager.contains_token(t));
                            }
                            assert forall|t: usize|
                                #[trigger] self.combined_controller_manager.contains_token(
                                t,
                            ) implies self.controller_token_allocator.live().contains(t) by {
                                assert(old(self).combined_controller_manager.contains_token(t));
                            }
                        }
                        Err(e)
                    }
                }
            }
        }
    }


    /// Drives the cross-device pairing protocol on one freshly
    /// recomputed pairing verdict.
    fn update_pairing_state(&mut self, controller_token: usize, pairing_state: PairingState) -> (r:
        Result<Vec<Effect>, Error>)
        requires
            old(self).wf(),
        ensures
            final(self).wf(),
            pairing_transition(*old(self), *final(self), controller_token, pairing_state, r),
    {
        match pairing_state {
            PairingState::Pairing => Ok(Vec::new()),
            PairingState::Waiting(model) => {
                if model.is_left() {
                    self.left = Some(controller_token);
                } else {
                    self.right = Some(controller_token);
                }
                let (left_token, right_token) = match (self.left, self.right) {
                    (Some(l), Some(r)) => (l, r),
                    _ => {
                        return Ok(Vec::new());
                    }
                };
                self.left = None;
                self.right = None;
                if left_token == right_token {
                    return Err(Error::ProtocolViolation);
                }
                let left_there = self.waiting_controller_manager.get_controller(left_token);
                let right_there = self.waiting_controller_manager.get_controller(right_token);
                if left_there.is_err() || right_there.is_err() {
                    return Err(Error::NotFound);
                }
                let mut tokens: Vec<usize> = Vec::new();
                tokens.push(left_token);
                tokens.push(right_token);
                proof {
                    assert(tokens@ =~= seq![left_token, right_token]);
                }
                let mut effects: Vec<Effect> = Vec::new();
                effects.push(Effect::BuildFusion { tokens, key_map: KeyMap::Combined });
                Ok(effects)
            }
            PairingState::Lone => {
                match self.waiting_controller_manager.get_controller(controller_token) {
                    Ok(_) => {}
                    Err(e) => {
                        return Err(e);
                    }
                }
                let mut tokens: Vec<usize> = Vec::new();
                tokens.push(controller_token);
                proof {
                    assert(tokens@ =~= seq![controller_token]);
                }
                let mut effects: Vec<Effect> = Vec::new();
                effects.push(Effect::BuildFusion { tokens, key_map: KeyMap::Identity });
                Ok(effects)
            }
            PairingState::Horizontal => {
                let controller = match self.waiting_controller_manager.get_controller(
                    controller_token,
                ) {
                    Ok(c) => c,
                    Err(e) => {
                        return Err(e);
                    }
                };
                let key_map = if controller.get_model().is_left() {
                    KeyMap::HorizontalLeft
                } else {
                    KeyMap::HorizontalRight
                };
                let mut tokens: Vec<usize> = Vec::new();
                tokens.push(controller_token);
                proof {
                    assert(tokens@ =~= seq![controller_token]);
                }
                let mut effects: Vec<Effect> = Vec::new();
                effects.push(Effect::BuildFusion { tokens, key_map });
                Ok(effects)
            }
        }
    }

    /// Routes one message: device notifications to admission or removal,
    /// pairing verdicts into the pairing protocol; relay notifications
    /// have no orchestrator-level effect, and a hotplug notification of
    /// any other kind is a protocol violation.
    pub fn process(
        &mut self,
        poll_manager: &mut PollManager<PollHandler>,
        message: ControllerMessage,
    ) -> (r: Result<Vec<Effect>, Error>)
        requires
            old(self).wf(),
            old(poll_manager).wf(),
        ensures
            final(self).wf(),
            final(poll_manager).wf(),
            process_transition(
                *old(self),
                *old(poll_manager),
                *final(self),
                *final(poll_manager),
                message,
                r,
            ),
    {
        match message {
            ControllerMessage::StateUpdate(token, state) => self.update_pairing_state(
                token,
                state,
            ),
            ControllerMessage::UdevEvent(kind, desc) => match kind {
                UdevEventKind::Add => self.add_new_device(&desc, poll_manager),
                UdevEventKind::Remove => self.remove_device(&desc, poll_manager),
                UdevEventKind::Other => Err(Error::ProtocolViolation),
            },
            ControllerMessage::DeviceScan(desc) => self.add_new_device(&desc, poll_manager),
            ControllerMessage::Relay => Ok(Vec::new()),
        }
    }


    /// Completes a requested fusion once the surrounding binary has built
    /// the synthetic device: moves the named halves out of the waiting
    /// set and admits them as one fresh group.  Returns the group token
    /// and, in both outcomes, the reactor operations that were performed
    /// (waiting unsubscriptions first).  A failed group admission rolls
    /// everything back: the halves return to the waiting set under the
    /// very keys they held, so the waiting set is restored exactly.  The
    /// caller must honor the reactor's key model (one key per live
    /// subscription): two waiting halves never share a key.
    pub fn fuse(
        &mut self,
        poll_manager: &mut PollManager<PollHandler>,
        tokens: &Vec<usize>,
        key_map: KeyMap,
        virtual_fd: i32,
    ) -> (r: (Result<usize, Error>, Vec<Effect>))
        requires
            old(self).wf(),
            old(poll_manager).wf(),
            1 <= tokens@.len() <= 2,
            tokens@.len() == 2 ==> tokens@[0] != tokens@[1],
            tokens@.len() == 2 && old(self).waiting_controller_manager.contains_token(tokens@[0])
                && old(self).waiting_controller_manager.contains_token(tokens@[1]) ==> old(
                self,
            ).waiting_controller_manager.view_map()[tokens@[0]].0 != old(
                self,
            ).waiting_controller_manager.view_map()[tokens@[1]].0,
        ensures
            final(self).wf(),
            final(poll_manager).wf(),
            fuse_transition(
                *old(self),
                *old(poll_manager),
                *final(self),
                *final(poll_manager),
                tokens@,
                key_map,
                virtual_fd,
                r,
            ),
    {
        let two = tokens.len() == 2;
        let t0 = tokens[0];
        if self.waiting_controller_manager.get_controller(t0).is_err() {
            return (Err(Error::NotFound), Vec::new());
        }
        if two && self.waiting_controller_manager.get_controller(tokens[1]).is_err() {
            return (Err(Error::NotFound), Vec::new());
        }
        let (k0, c0) = match self.waiting_controller_manager.remove_device(t0, poll_manager) {
            Ok(x) => x,
            Err(_) => {
                proof {
                    assert(false);
                }
                return (Err(Error::NotFound), Vec::new());
            }
        };
        let mut effects: Vec<Effect> = Vec::new();
        effects.push(Effect::Poller(PollerOp::Delete { key: k0, fd: c0.fd }));
        let mut k1: usize = 0;
        let mut c1 = c0;
        if two {
            match self.waiting_controller_manager.remove_device(tokens[1], poll_manager) {
                Ok((k, c)) => {
                    k1 = k;
                    c1 = c;
                }
                Err(_) => {
                    proof {
                        assert(false);
                    }
                    return (Err(Error::NotFound), Vec::new());
                }
            }
            effects.push(Effect::Poller(PollerOp::Delete { key: k1, fd: c1.fd }));
        }
        let mut controllers: Vec<(usize, Controller)> = Vec::new();
        controllers.push((t0, c0));
        if two {
            controllers.push((tokens[1], c1));
        }
        proof {
            assert forall|i: int|
                0 <= i < controllers@.len() implies !self
                .combined_controller_manager.contains_token(
                (#[trigger] controllers@[i]).0,
            ) by {
                assert(old(self).waiting_controller_manager.contains_token(controllers@[i].0));
            }
        }
        let ghost pre_effects = effects@;
        let ghost pm_mid = *poll_manager;
        match self.combined_controller_manager.add_new_devices(
            controllers,
            key_map,
            virtual_fd,
            poll_manager,
        ) {
            Ok((new_group, ops)) => {
                let mut i: usize = 0;
                while i < ops.len()
                    invariant
                        i <= ops@.len(),
                        effects@.len() == pre_effects.len() + i,
                        forall|j: int| 0 <= j < pre_effects.len() ==> effects@[j] == pre_effects[j],
                        forall|j: int|
                            0 <= j < i ==> effects@[pre_effects.len() + j] == Effect::Poller(
                                ops@[j],
                            ),
                    decreases ops@.len() - i,
                {
                    effects.push(Effect::Poller(ops[i]));
                    i = i + 1;
                }
                proof {
                    let pre = *old(self);
                    let gr = self.combined_controller_manager.groups@[new_group];
                    assert(crate::combined_controller_manager::group_matches(
                        gr,
                        Seq::new(
                            tokens@.len(),
                            |i: int|
                                (
                                    tokens@[i],
                                    pre.waiting_controller_manager.view_map()[tokens@[i]].1,
                                ),
                        ),
                        key_map,
                        virtual_fd,
                    )) by {
                        let want = Seq::new(
                            tokens@.len(),
                            |i: int|
                                (
                                    tokens@[i],
                                    pre.waiting_controller_manager.view_map()[tokens@[i]].1,
                                ),
                        );
                        assert(want.len() == tokens@.len());
                        assert(want[0] == (t0, c0));
                        if two {
                            assert(want[1] == (tokens@[1], c1));
                        }
                        assert forall|i: int| 0 <= i < want.len() implies {
                            &&& (#[trigger] gr.constituents@[i]).1 == want[i].0
                            &&& gr.constituents@[i].2 == want[i].1
                            &&& gr.virtual_controller.constituent_fds@[i] == want[i].1.fd
                        } by {
                            assert(i == 0 || i == 1);
                        }
                    }
                    assert forall|t: usize|
                        #[trigger] self.waiting_controller_manager.contains_token(t) implies {
                        &&& !self.combined_controller_manager.contains_token(t)
                        &&& self.controller_token_allocator.live().contains(t)
                        &&& self.waiting_controller_manager.view_map()[t].0 < KEY_CAPACITY
                    } by {
                        assert(old(self).waiting_controller_manager.contains_token(t));
                        assert(t != t0 && (two ==> t != tokens@[1]));
                    }
                    assert forall|t: usize|
                        #[trigger] self.combined_controller_manager.contains_token(t) implies self
                        .controller_token_allocator.live().contains(t) by {
                        if t == t0 || (two && t == tokens@[1]) {
                            assert(old(self).waiting_controller_manager.contains_token(t));
                        } else {
                            assert(old(self).combined_controller_manager.contains_token(t));
                        }
                    }
                    assert(pre_effects.len() == tokens@.len());
                    assert((k0, c0) == old(self).waiting_controller_manager.view_map()[t0]);
                    assert(pre_effects[0] == Effect::Poller(
                        PollerOp::Delete { key: k0, fd: c0.fd },
                    ));
                    assert(effects@[0] == pre_effects[0]);
                    if two {
                        assert((k1, c1) == old(self).waiting_controller_manager.view_map().remove(
                            t0,
                        )[tokens@[1]]);
                        assert(pre_effects[1] == Effect::Poller(
                            PollerOp::Delete { key: k1, fd: c1.fd },
                        ));
                        assert(effects@[1] == pre_effects[1]);
                    }
                    assert forall|i: int|
                        0 <= i < tokens@.len() implies effects@[i] == Effect::Poller(
                        PollerOp::Delete {
                            key: old(self).waiting_controller_manager.view_map()[#[trigger] tokens@[
                                i]].0,
                            fd: old(self).waiting_controller_manager.view_map()[tokens@[i]].1.fd,
                        },
                    ) by {
                        assert(i == 0 || i == 1);
                        if i == 1 {
                            assert((k1, c1) == old(self).waiting_controller_manager.view_map().remove(
                                t0,
                            )[tokens@[1]]);
                            assert((k1, c1) == old(self).waiting_controller_manager.view_map()[
                                tokens@[1]]);
                        }
                    }
                    assert(effects@[tokens@.len() as int] == Effect::Poller(ops@[0]));
                    assert forall|i: int|
                        0 <= i < tokens@.len() implies effects@[tokens@.len() + 1 + i]
                        == Effect::Poller(
                        PollerOp::Add {
                            key: (#[trigger] gr.constituents@[i]).0,
                            fd: gr.constituents@[i].2.fd,
                        },
                    ) by {
                        assert(effects@[pre_effects.len() + (i + 1)] == Effect::Poller(
                            ops@[i + 1],
                        ));
                    }
                }
                (Ok(new_group), effects)
            }
            Err(e) => {
                proof {
                    assert(!poll_manager.registered(k0));
                    assert(k0 < KEY_CAPACITY);
                    if two {
                        assert(k1 == old(self).waiting_controller_manager.view_map()[
                            tokens@[1]].0);
                        assert(k0 != k1);
                        assert(!poll_manager.registered(k1));
                        assert(k1 < KEY_CAPACITY);
                    }
                    assert(old(
                        self,
                    ).combined_controller_manager.combined_group_token_allocator.exhausted() || !old(
                        poll_manager,
                    ).can_supply_group_keys(tokens@.len() as int)) by {
                        if !old(
                            self,
                        ).combined_controller_manager.combined_group_token_allocator.exhausted() {
                            assert forall|j: usize|
                                j < KEY_CAPACITY && !(#[trigger] old(poll_manager).registered(j))
                                    implies !pm_mid.registered(j) by {
                                if j != k0 && j != k1 {
                                    assert(pm_mid.registered(j) <==> old(poll_manager).registered(
                                        j,
                                    ));
                                }
                            }
                            if tokens@.len() == 1 {
                                assert(!old(poll_manager).has_free_pair()) by {}
                            } else {
                                assert(!old(poll_manager).has_free_triple()) by {}
                            }
                        }
                    }
                }
                let _ = self.waiting_controller_manager.restore_device(t0, k0, c0, poll_manager);
                effects.push(Effect::Poller(PollerOp::Add { key: k0, fd: c0.fd }));
                if two {
                    let _ = self.waiting_controller_manager.restore_device(
                        tokens[1],
                        k1,
                        c1,
                        poll_manager,
                    );
                    effects.push(Effect::Poller(PollerOp::Add { key: k1, fd: c1.fd }));
                }
                proof {
                    assert(self.waiting_controller_manager.view_map() =~= old(
                        self,
                    ).waiting_controller_manager.view_map());
                    assert forall|t: usize|
                        #[trigger] self.waiting_controller_manager.contains_token(t) implies {
                        &&& !self.combined_controller_manager.contains_token(t)
                        &&& self.controller_token_allocator.live().contains(t)
                        &&& self.waiting_controller_manager.view_map()[t].0 < KEY_CAPACITY
                    } by {
                        assert(old(self).waiting_controller_manager.contains_token(t));
                    }
                    assert forall|t: usize|
                        #[trigger] self.combined_controller_manager.contains_token(t) implies self
                        .controller_token_allocator.live().contains(t) by {
                        assert(old(self).combined_controller_manager.contains_token(t));
                    }
                }
                (Err(e), effects)
            }
        }
    }


    /// Relays one input batch of a group's constituent slot forward; the
    /// returned events are what the binary emits atomically on the
    /// group's synthetic device.
    pub fn relay_input_events(&self, group: usize, slot: usize, events: &Vec<InputEventData>) -> (r:
        Result<Vec<InputEventData>, Error>)
        ensures
            !self.combined_controller_manager.groups@.contains_key(group) ==> r == Err::<
                Vec<InputEventData>,
                Error,
            >(Error::NotFound),
            self.combined_controller_manager.groups@.contains_key(group) ==> ({
                let vc = self.combined_controller_manager.groups@[group].virtual_controller;
                &&& slot < vc.constituent_fds@.len() ==> (r matches Ok(out) && out@
                    == mapped_events(vc.key_map, slot, events@))
                &&& slot >= vc.constituent_fds@.len() ==> r == Err::<Vec<InputEventData>, Error>(
                    Error::NotFound,
                )
            }),
    {
        self.combined_controller_manager.relay_input_events(group, slot, events)
    }

    /// Feeds one drained event of a group's synthetic device backward
    /// through that group's output relay.
    pub fn relay_output_events(&mut self, group: usize, event: &OutputEvent) -> (r: Result<
        OutputAction,
        Error,
    >)
        requires
            old(self).wf(),
        ensures
            final(self).wf(),
            final(self).waiting_controller_manager == old(self).waiting_controller_manager,
            final(self).controller_token_allocator == old(self).controller_token_allocator,
            final(self).controller_token_map == old(self).controller_token_map,
            final(self).left == old(self).left,
            final(self).right == old(self).right,
            final(self).combined_controller_manager.same_groups_except_effects(
                &old(self).combined_controller_manager,
                group,
            ),
            !old(self).combined_controller_manager.groups@.contains_key(group) ==> r == Err::<
                OutputAction,
                Error,
            >(Error::NotFound),
            old(self).combined_controller_manager.groups@.contains_key(group)
                ==> output_relay_transition(
                old(self).combined_controller_manager.groups@[group].virtual_controller,
                final(self).combined_controller_manager.groups@[group].virtual_controller,
                *event,
                r,
            ),
    {
        let r = self.combined_controller_manager.relay_output_events(group, event);
        proof {
            self.lemma_combined_effects_only_wf(*old(self));
        }
        r
    }

    /// Records the physical ids of a completed fresh upload in a group's
    /// correlation table; the returned canonical id is what the binary
    /// writes into the upload response.
    pub fn record_effect(&mut self, group: usize, phys0: Option<u16>, phys1: Option<u16>) -> (r:
        Result<u16, Error>)
        requires
            old(self).wf(),
        ensures
            final(self).wf(),
            final(self).waiting_controller_manager == old(self).waiting_controller_manager,
            final(self).controller_token_allocator == old(self).controller_token_allocator,
            final(self).controller_token_map == old(self).controller_token_map,
            final(self).left == old(self).left,
            final(self).right == old(self).right,
            final(self).combined_controller_manager.same_groups_except_effects(
                &old(self).combined_controller_manager,
                group,
            ),
            !old(self).combined_controller_manager.groups@.contains_key(group) ==> r == Err::<
                u16,
                Error,
            >(Error::NotFound),
            old(self).combined_controller_manager.groups@.contains_key(group)
                ==> record_transition(
                old(self).combined_controller_manager.groups@[group].virtual_controller,
                final(self).combined_controller_manager.groups@[group].virtual_controller,
                phys0,
                phys1,
                r,
            ),
    {
        let r = self.combined_controller_manager.record_effect(group, phys0, phys1);
        proof {
            self.lemma_combined_effects_only_wf(*old(self));
        }
        r
    }

    /// A change inside one group's correlation table alone keeps the
    /// orchestrator consistent.
    proof fn lemma_combined_effects_only_wf(&self, pre: ControllerManager)
        requires
            pre.wf(),
            self.combined_controller_manager.wf(),
            self.waiting_controller_manager == pre.waiting_controller_manager,
            self.controller_token_allocator == pre.controller_token_allocator,
            self.controller_token_map == pre.controller_token_map,
            self.combined_controller_manager.controller_groups@
                == pre.combined_controller_manager.controller_groups@,
        ensures
            self.wf(),
    {
        assert forall|t: usize|
            #[trigger] self.waiting_controller_manager.contains_token(t) implies {
            &&& !self.combined_controller_manager.contains_token(t)
            &&& self.controller_token_allocator.live().contains(t)
            &&& self.waiting_controller_manager.view_map()[t].0 < KEY_CAPACITY
        } by {
            assert(pre.waiting_controller_manager.contains_token(t));
            assert(!pre.combined_controller_manager.contains_token(t));
        }
        assert forall|t: usize|
            #[trigger] self.combined_controller_manager.contains_token(t) implies self
            .controller_token_allocator.live().contains(t) by {
            assert(pre.combined_controller_manager.contains_token(t));
        }
    }

    /// Runs the registered handler of one ready source: interprets the
    /// subscription's tag against what the binary observed on it, and
    /// produces the message to route plus the relay effects of the turn.
    /// A key with no live subscription yields a per-event `NotFound`
    /// without running anything; a payload that does not match the
    /// subscription's kind is a protocol violation.


    pub fn produce_message(
        &mut self,
        poll_manager: &PollManager<PollHandler>,
        key: usize,
        wake: WakeEvent,
    ) -> (r: Result<(ControllerMessage, Vec<Effect>), Error>)
        requires
            old(self).wf(),
        ensures
            final(self).wf(),
            produce_transition(*old(self), *poll_manager, *final(self), key, wake, r),
    {
        let handler = match poll_manager.handler(key) {
            Some(h) => h,
            None => {
                return Err(Error::NotFound);
            }
        };
        match handler {
            PollHandler::Detector => match wake {
                WakeEvent::Udev(kind, desc) => Ok(
                    (ControllerMessage::UdevEvent(kind, desc), Vec::new()),
                ),
                _ => Err(Error::ProtocolViolation),
            },
            PollHandler::PairingController { token } => match wake {
                WakeEvent::Input(batch) => {
                    let state = match self.waiting_controller_manager.process_pairing_events(
                        token,
                        &batch,
                    ) {
                        Ok(state) => state,
                        Err(e) => {
                            return Err(e);
                        }
                    };
                    proof {
                        assert forall|t: usize|
                            #[trigger] self.waiting_controller_manager.contains_token(t) implies {
                            &&& !self.combined_controller_manager.contains_token(t)
                            &&& self.controller_token_allocator.live().contains(t)
                            &&& self.waiting_controller_manager.view_map()[t].0 < KEY_CAPACITY
                        } by {
                            assert(old(self).waiting_controller_manager.contains_token(t));
                        }
                    }
                    Ok((ControllerMessage::StateUpdate(token, state), Vec::new()))
                }
                _ => Err(Error::ProtocolViolation),
            },
            PollHandler::ConstituentInput { group, slot } => match wake {
                WakeEvent::Input(batch) => {
                    match self.combined_controller_manager.groups.get(&group) {
                        Some(gr) => {
                            let virtual_fd = gr.virtual_controller.fd;
                            match gr.virtual_controller.relay_input_events(slot, &batch) {
                                Ok(events) => {
                                    let mut effects: Vec<Effect> = Vec::new();
                                    effects.push(Effect::EmitInput { virtual_fd, events });
                                    Ok((ControllerMessage::Relay, effects))
                                }
                                Err(e) => Err(e),
                            }
                        }
                        None => Err(Error::NotFound),
                    }
                }
                _ => Err(Error::ProtocolViolation),
            },
            PollHandler::VirtualOutput { group } => match wake {
                WakeEvent::Output => {
                    match self.combined_controller_manager.groups.get(&group) {
                        Some(gr) => {
                            let mut effects: Vec<Effect> = Vec::new();
                            effects.push(
                                Effect::DrainVirtualOutput {
                                    group,
                                    virtual_fd: gr.virtual_controller.fd,
                                },
                            );
                            Ok((ControllerMessage::Relay, effects))
                        }
                        None => Err(Error::NotFound),
                    }
                }
                _ => Err(Error::ProtocolViolation),
            },
        }
    }

    /// One reactor wake: for each ready source, in the order given, runs
    /// its handler on what the binary observed and routes the produced
    /// message, collecting the per-source outcome and the effects to
    /// perform.  The whole turn is pinned by `poll_trace` over the
    /// returned ghost dispatch record: exactly one keyed result per
    /// ready source, states threading from wake to wake, the batch's
    /// effects concatenated in dispatch order, and a failed turn
    /// contained to its source, never halting the batch.
    pub fn poll(
        &mut self,
        poll_manager: &mut PollManager<PollHandler>,
        wakes: Vec<(usize, WakeEvent)>,
    ) -> (r: (
        Vec<(usize, Result<(), Error>)>,
        Vec<Effect>,
        Ghost<(Seq<(ControllerManager, PollManager<PollHandler>)>, Seq<int>)>,
    ))
        requires
            old(self).wf(),
            old(poll_manager).wf(),
        ensures
            final(self).wf(),
            final(poll_manager).wf(),
            r.0@.len() == wakes@.len(),
            forall|i: int| 0 <= i < wakes@.len() ==> (#[trigger] r.0@[i]).0 == wakes@[i].0,
            poll_trace(wakes@, r.0@, r.1@, r.2@.0, r.2@.1),
            r.2@.0[0] == (*old(self), *old(poll_manager)),
            r.2@.0.last() == (*final(self), *final(poll_manager)),
    {
        let mut results: Vec<(usize, Result<(), Error>)> = Vec::new();
        let mut all_effects: Vec<Effect> = Vec::new();
        let mut remaining = wakes;
        let ghost all = remaining@;
        let ghost mut gstates: Seq<(ControllerManager, PollManager<PollHandler>)> = seq![
            (*old(self), *old(poll_manager)),
        ];
        let ghost mut gsplits: Seq<int> = seq![0];
        proof {
            assert(remaining@.skip(0) =~= remaining@);
        }
        while remaining.len() > 0
            invariant
                self.wf(),
                poll_manager.wf(),
                results@.len() + remaining@.len() == all.len(),
                remaining@ == all.skip(results@.len() as int),
                forall|i: int| 0 <= i < results@.len() ==> (#[trigger] results@[i]).0 == all[i].0,
                gstates.len() == results@.len() + 1,
                gsplits.len() == results@.len() + 1,
                gstates[0] == (*old(self), *old(poll_manager)),
                gstates.last() == (*self, *poll_manager),
                gsplits[0] == 0,
                gsplits.last() == all_effects@.len() as int,
                forall|i: int|
                    0 <= i < results@.len() ==> 0 <= #[trigger] gsplits[i] <= gsplits[i + 1]
                        <= all_effects@.len(),
                forall|i: int|
                    0 <= i < results@.len() ==> wake_step(
                        gstates[i].0,
                        gstates[i].1,
                        gstates[i + 1].0,
                        gstates[i + 1].1,
                        all[i].0,
                        all[i].1,
                        (#[trigger] results@[i]).1,
                        all_effects@.subrange(gsplits[i], gsplits[i + 1]),
                    ),
            decreases remaining@.len(),
        {
            let ghost done = results@.len() as int;
            let ghost cm0 = *self;
            let ghost pm0 = *poll_manager;
            let ghost eff0 = all_effects@;
            let ghost res0 = results@;
            let (key, wake) = remaining.remove(0);
            let ghost gwake = wake;
            proof {
                assert(all.skip(done)[0] == all[done]);
                assert(all.skip(done).remove(0) =~= all.skip(done + 1));
            }
            let outcome = match self.produce_message(poll_manager, key, wake) {
                Ok((message, mut produced)) => {
                    let ghost gmsg = message;
                    let ghost gproduced = produced;
                    let ghost cm_mid = *self;
                    all_effects.append(&mut produced);
                    match self.process(poll_manager, message) {
                        Ok(mut more) => {
                            let ghost gmore = more;
                            all_effects.append(&mut more);
                            proof {
                                assert(all_effects@.skip(eff0.len() as int) =~= gproduced@
                                    + gmore@);
                                assert(produce_transition(
                                    cm0,
                                    pm0,
                                    cm_mid,
                                    key,
                                    gwake,
                                    Ok::<(ControllerMessage, Vec<Effect>), Error>(
                                        (gmsg, gproduced),
                                    ),
                                ));
                                assert(process_transition(
                                    cm_mid,
                                    pm0,
                                    *self,
                                    *poll_manager,
                                    gmsg,
                                    Ok::<Vec<Effect>, Error>(gmore),
                                ));
                                assert(wake_step(
                                    cm0,
                                    pm0,
                                    *self,
                                    *poll_manager,
                                    key,
                                    gwake,
                                    Ok::<(), Error>(()),
                                    all_effects@.skip(eff0.len() as int),
                                ));
                            }
                            Ok(())
                        }
                        Err(e) => {
                            proof {
                                assert(all_effects@.skip(eff0.len() as int) =~= gproduced@);
                                assert(produce_transition(
                                    cm0,
                                    pm0,
                                    cm_mid,
                                    key,
                                    gwake,
                                    Ok::<(ControllerMessage, Vec<Effect>), Error>(
                                        (gmsg, gproduced),
                                    ),
                                ));
                                assert(process_transition(
                                    cm_mid,
                                    pm0,
                                    *self,
                                    *poll_manager,
                                    gmsg,
                                    Err::<Vec<Effect>, Error>(e),
                                ));
                                assert(wake_step(
                                    cm0,
                                    pm0,
                                    *self,
                                    *poll_manager,
                                    key,
                                    gwake,
                                    Err::<(), Error>(e),
                                    all_effects@.skip(eff0.len() as int),
                                ));
                            }
                            Err(e)
                        }
                    }
                }
                Err(e) => {
                    proof {
                        assert(all_effects@.skip(eff0.len() as int) =~= Seq::<Effect>::empty());
                        assert(produce_transition(
                            cm0,
                            pm0,
                            *self,
                            key,
                            gwake,
                            Err::<(ControllerMessage, Vec<Effect>), Error>(e),
                        ));
                        assert(wake_step(
                            cm0,
                            pm0,
                            *self,
                            *poll_manager,
                            key,
                            gwake,
                            Err::<(), Error>(e),
                            all_effects@.skip(eff0.len() as int),
                        ));
                    }
                    Err(e)
                }
            };
            results.push((key, outcome));
            proof {
                gstates = gstates.push((*self, *poll_manager));
                gsplits = gsplits.push(all_effects@.len() as int);
                assert(key == all[done].0 && gwake == all[done].1);
                assert(results@[done] == (key, outcome));
                assert(gstates[done] == (cm0, pm0));
                assert(gstates[done + 1] == (*self, *poll_manager));
                assert(gsplits[done] == eff0.len() as int);
                assert(gsplits[done + 1] == all_effects@.len() as int);
                assert forall|i: int|
                    0 <= i < results@.len() implies 0 <= #[trigger] gsplits[i] <= gsplits[i + 1]
                        <= all_effects@.len() by {}
                assert forall|i: int|
                    0 <= i < results@.len() implies wake_step(
                    gstates[i].0,
                    gstates[i].1,
                    gstates[i + 1].0,
                    gstates[i + 1].1,
                    all[i].0,
                    all[i].1,
                    (#[trigger] results@[i]).1,
                    all_effects@.subrange(gsplits[i], gsplits[i + 1]),
                ) by {
                    if i < done {
                        assert(results@[i] == res0[i]);
                        assert(all_effects@.subrange(gsplits[i], gsplits[i + 1]) =~= eff0.subrange(
                            gsplits[i],
                            gsplits[i + 1],
                        ));
                        assert(wake_step(
                            gstates[i].0,
                            gstates[i].1,
                            gstates[i + 1].0,
                            gstates[i + 1].1,
                            all[i].0,
                            all[i].1,
                            res0[i].1,
                            eff0.subrange(gsplits[i], gsplits[i + 1]),
                        ));
                    } else {
                        assert(all_effects@.subrange(gsplits[done], gsplits[done + 1])
                            =~= all_effects@.skip(eff0.len() as int));
                    }
                }
            }
        }
        proof {
            assert(all.take(all.len() as int) =~= all);
        }
        (results, all_effects, Ghost((gstates, gsplits)))
    }

    /// Looks a path up in the index.
    fn path_lookup(&self, path: &Vec<u8>) -> (r: Option<usize>)
        requires
            self.paths_unique(),
        ensures
            self.has_path(path@) ==> r == Some(self.token_of_path(path@)),
            !self.has_path(path@) ==> r is None,
    {
        let mut i: usize = 0;
        while i < self.controller_token_map.len()
            invariant
                self.paths_unique(),
                i <= self.controller_token_map@.len(),
                forall|j: int| 0 <= j < i ==> self.controller_token_map@[j].0@ != path@,
            decreases self.controller_token_map@.len() - i,
        {
            if bytes_eq(&self.controller_token_map[i].0, path) {
                proof {
                    let w = choose|k: int|
                        0 <= k < self.controller_token_map@.len()
                            && self.controller_token_map@[k].0@ == path@;
                    assert(w == i);
                }
                return Some(self.controller_token_map[i].1);
            }
            i = i + 1;
        }
        None
    }

    /// Drops a path from the index, if present.
    fn path_remove(&mut self, path: &Vec<u8>)
        requires
            old(self).paths_unique(),
        ensures
            final(self).paths_unique(),
            !final(self).has_path(path@),
            final(self).same_paths_except(old(self), path@),
            final(self).waiting_controller_manager == old(self).waiting_controller_manager,
            final(self).combined_controller_manager == old(self).combined_controller_manager,
            final(self).controller_token_allocator == old(self).controller_token_allocator,
            final(self).left == old(self).left,
            final(self).right == old(self).right,
    {
        let mut i: usize = 0;
        while i < self.controller_token_map.len()
            invariant
                *self == *old(self),
                old(self).paths_unique(),
                i <= self.controller_token_map@.len(),
                forall|j: int| 0 <= j < i ==> self.controller_token_map@[j].0@ != path@,
            decreases self.controller_token_map@.len() - i,
        {
            if bytes_eq(&self.controller_token_map[i].0, path) {
                let ghost pre = self.controller_token_map@;
                self.controller_token_map.remove(i);
                proof {
                    let post = self.controller_token_map@;
                    pre.remove_ensures(i as int);
                    assert(post == pre.remove(i as int));
                    assert(post.len() == pre.len() - 1);
                    assert forall|a: int, b: int|
                        0 <= a < b < post.len() implies post[a].0@ != post[b].0@ by {
                        let a0 = if a < i { a } else { a + 1 };
                        let b0 = if b < i { b } else { b + 1 };
                        assert(pre.remove(i as int)[a] == pre[a0]);
                        assert(pre.remove(i as int)[b] == pre[b0]);
                        assert(0 <= a0 < b0 < pre.len());
                        assert(old(self).controller_token_map@[a0].0@ != old(self).controller_token_map@[b0].0@);
                    }
                    assert(pre[i as int].0@ == path@);
                    assert(!self.has_path(path@)) by {
                        if self.has_path(path@) {
                            let w = choose|k: int|
                                0 <= k < post.len() && post[k].0@ == path@;
                            let w0 = if w < i { w } else { w + 1 };
                            assert(pre.remove(i as int)[w] == pre[w0]);
                            assert(pre[w0].0@ == path@);
                            assert(w0 != i);
                            let lo = if w0 < i { w0 } else { i as int };
                            let hi = if w0 < i { i as int } else { w0 };
                            assert(old(self).controller_token_map@[lo].0@ != old(self).controller_token_map@[hi].0@);
                        }
                    }
                    assert forall|q: Seq<u8>| q != path@ implies {
                        &&& (#[trigger] seq_has_path(self.controller_token_map@, q)
                            <==> seq_has_path(old(self).controller_token_map@, q))
                        &&& (seq_has_path(old(self).controller_token_map@, q) ==> seq_token_of(
                            self.controller_token_map@,
                            q,
                        ) == seq_token_of(old(self).controller_token_map@, q))
                    } by {
                        if old(self).has_path(q) {
                            let w0 = choose|k: int|
                                0 <= k < pre.len() && pre[k].0@ == q;
                            let w = if w0 < i { w0 } else { w0 - 1 };
                            assert(w0 != i);
                            assert(post[w].0@ == q);
                            assert(self.has_path(q));
                            let u = choose|k: int|
                                0 <= k < post.len() && post[k].0@ == q;
                            assert(u == w);
                            let u0 = choose|k: int|
                                0 <= k < pre.len() && pre[k].0@ == q;
                            assert(u0 == w0);
                        }
                        if self.has_path(q) {
                            let w = choose|k: int|
                                0 <= k < post.len() && post[k].0@ == q;
                            let w0 = if w < i { w } else { w + 1 };
                            assert(pre[w0].0@ == q);
                            assert(old(self).has_path(q));
                        }
                    }
                }
                return;
            }
            i = i + 1;
        }
    }

    /// Indexes a fresh path.
    fn path_push(&mut self, path: Vec<u8>, token: usize)
        requires
            old(self).paths_unique(),
            !old(self).has_path(path@),
        ensures
            final(self).paths_unique(),
            final(self).has_path(path@),
            final(self).token_of_path(path@) == token,
            final(self).same_paths_except(old(self), path@),
            final(self).waiting_controller_manager == old(self).waiting_controller_manager,
            final(self).combined_controller_manager == old(self).combined_controller_manager,
            final(self).controller_token_allocator == old(self).controller_token_allocator,
            final(self).left == old(self).left,
            final(self).right == old(self).right,
    {
        let ghost pre = self.controller_token_map@;
        let ghost p = path@;
        self.controller_token_map.push((path, token));
        proof {
            let post = self.controller_token_map@;
            let n = pre.len() as int;
            assert(post[n].0@ == p && post[n].1 == token);
            assert forall|a: int, b: int|
                0 <= a < b < post.len() implies post[a].0@ != post[b].0@ by {
                if b < n {
                    assert(post[a] == pre[a] && post[b] == pre[b]);
                } else {
                    assert(post[a] == pre[a]);
                    if post[a].0@ == p {
                        assert(old(self).has_path(p));
                    }
                }
            }
            assert(self.has_path(p));
            let w = choose|k: int| 0 <= k < post.len() && post[k].0@ == p;
            assert(w == n) by {
                if w < n {
                    assert(pre[w].0@ == p);
                    assert(old(self).has_path(p));
                }
            }
            assert forall|q: Seq<u8>| q != p implies {
                &&& (#[trigger] seq_has_path(self.controller_token_map@, q) <==> seq_has_path(
                    old(self).controller_token_map@,
                    q,
                ))
                &&& (seq_has_path(old(self).controller_token_map@, q) ==> seq_token_of(
                    self.controller_token_map@,
                    q,
                ) == seq_token_of(old(self).controller_token_map@, q))
            } by {
                if old(self).has_path(q) {
                    let w0 = choose|k: int| 0 <= k < pre.len() && pre[k].0@ == q;
                    assert(post[w0].0@ == q);
                    assert(self.has_path(q));
                    let u = choose|k: int| 0 <= k < post.len() && post[k].0@ == q;
                    assert(u == w0);
                }
                if self.has_path(q) {
                    let w = choose|k: int| 0 <= k < post.len() && post[k].0@ == q;
                    assert(w != n);
                    assert(pre[w].0@ == q);
                    assert(old(self).has_path(q));
                }
            }
        }
    }
}

} // verus!
