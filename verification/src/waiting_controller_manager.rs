use vstd::prelude::*;

use std::collections::HashMap;

use crate::controller::{pairing_state_of, Controller, PairingState};
use crate::controller_manager::PollHandler;
use crate::errors::Error;
use crate::events::InputEventData;
use crate::poll_manager::PollManager;

verus! {

/// Holds the admitted controllers not yet fused into a virtual device,
/// each subscribed individually to the reactor so its pairing gesture can
/// be observed.  A token maps to the controller's reactor key and the
/// controller itself.
pub struct WaitingControllerManager {
    pub controllers: HashMap<usize, (usize, Controller)>,
}

impl WaitingControllerManager {
    /// The waiting set as a map from token to (poll key, controller).
    pub open spec fn view_map(&self) -> Map<usize, (usize, Controller)> {
        self.controllers@
    }

    /// This token is waiting.
    pub open spec fn contains_token(&self, token: usize) -> bool {
        self.controllers@.contains_key(token)
    }

    /// Creates an empty waiting set.
    pub fn new() -> (m: WaitingControllerManager)
        ensures
            m.view_map() == Map::<usize, (usize, Controller)>::empty(),
    {
        WaitingControllerManager { controllers: HashMap::new() }
    }

    /// Admits a controller under its token: subscribes it to the reactor
    /// for pairing-gesture observation and stores it.  Fails with
    /// `AllocationExhausted`, changing nothing, if and only if the
    /// reactor has no key left.
    pub fn add_new_device(
        &mut self,
        token: usize,
        controller: Controller,
        poll_manager: &mut PollManager<PollHandler>,
    ) -> (r: Result<usize, Error>)
        requires
            old(poll_manager).wf(),
            !old(self).contains_token(token),
        ensures
            final(poll_manager).wf(),
            r matches Ok(key) ==> {
                &&& key < crate::poll_manager::KEY_CAPACITY
                &&& !old(poll_manager).registered(key)
                &&& final(poll_manager).registered(key)
                &&& final(poll_manager).handler_of(key) == (PollHandler::PairingController {
                    token,
                })
                &&& final(poll_manager).same_except(old(poll_manager), key)
                &&& final(self).view_map() == old(self).view_map().insert(
                    token,
                    (key, controller),
                )
            },
            r is Err ==> {
                &&& r == Err::<usize, Error>(Error::AllocationExhausted)
                &&& final(self).view_map() == old(self).view_map()
                &&& final(poll_manager).same_subscriptions(old(poll_manager))
                &&& forall|k: usize|
                    k < crate::poll_manager::KEY_CAPACITY ==> old(poll_manager).registered(k)
            },
    {
        let key = match poll_manager.subscribe(PollHandler::PairingController { token }) {
            Ok(key) => key,
            Err(e) => {
                return Err(e);
            }
        };
        self.controllers.insert(token, (key, controller));
        Ok(key)
    }

    /// Takes the controller back out of the waiting set and unsubscribes
    /// it; fails with `NotFound`, changing nothing, if and only if the
    /// token is not waiting.  A missing reactor registration does not
    /// block the release.
    pub fn remove_device(
        &mut self,
        token: usize,
        poll_manager: &mut PollManager<PollHandler>,
    ) -> (r: Result<(usize, Controller), Error>)
        requires
            old(poll_manager).wf(),
        ensures
            final(poll_manager).wf(),
            old(self).contains_token(token) ==> {
                &&& r == Ok::<(usize, Controller), Error>(old(self).view_map()[token])
                &&& final(self).view_map() == old(self).view_map().remove(token)
                &&& !final(poll_manager).registered(old(self).view_map()[token].0)
                &&& final(poll_manager).same_except(
                    old(poll_manager),
                    old(self).view_map()[token].0,
                )
            },
            !old(self).contains_token(token) ==> {
                &&& r == Err::<(usize, Controller), Error>(Error::NotFound)
                &&& final(self).view_map() == old(self).view_map()
                &&& *final(poll_manager) == *old(poll_manager)
            },
    {
        match self.controllers.remove(&token) {
            Some((key, controller)) => {
                // A stale reactor registration must not block the removal.
                let _ = poll_manager.remove(key);
                Ok((key, controller))
            }
            None => Err(Error::NotFound),
        }
    }

    /// Shared read access to a waiting controller without removing it;
    /// fails with `NotFound` if and only if the token is not waiting.
    pub fn get_controller(&self, token: usize) -> (r: Result<Controller, Error>)
        ensures
            self.contains_token(token) ==> r == Ok::<Controller, Error>(
                self.view_map()[token].1,
            ),
            !self.contains_token(token) ==> r == Err::<Controller, Error>(Error::NotFound),
    {
        match self.controllers.get(&token) {
            Some(entry) => Ok(entry.1),
            None => Err(Error::NotFound),
        }
    }


    /// The reactor key a waiting controller is subscribed under, if the
    /// token is waiting.
    pub fn poll_key_of(&self, token: usize) -> (r: Option<usize>)
        ensures
            self.contains_token(token) ==> r == Some(self.view_map()[token].0),
            !self.contains_token(token) ==> r is None,
    {
        match self.controllers.get(&token) {
            Some(entry) => Some(entry.0),
            None => None,
        }
    }

    /// Puts a half back into the waiting set under the reactor key it
    /// held before, re-subscribing it for pairing observation.  Used to
    /// roll a failed group admission back: the key was freed by the
    /// matching removal, so the restoration cannot fail.
    pub fn restore_device(
        &mut self,
        token: usize,
        key: usize,
        controller: Controller,
        poll_manager: &mut PollManager<PollHandler>,
    ) -> (r: Result<(), Error>)
        requires
            old(poll_manager).wf(),
            !old(self).contains_token(token),
            key < crate::poll_manager::KEY_CAPACITY,
            !old(poll_manager).registered(key),
        ensures
            final(poll_manager).wf(),
            r == Ok::<(), Error>(()),
            final(poll_manager).registered(key),
            final(poll_manager).handler_of(key) == (PollHandler::PairingController { token }),
            final(poll_manager).same_except(old(poll_manager), key),
            final(self).view_map() == old(self).view_map().insert(token, (key, controller)),
    {
        match poll_manager.subscribe_with_key(key, PollHandler::PairingController { token }) {
            Ok(_) => {}
            Err(_) => {
                proof {
                    assert(false);
                }
            }
        }
        self.controllers.insert(token, (key, controller));
        Ok(())
    }

    /// One wake of a waiting controller: folds the drained input batch
    /// into its button accumulators and returns the freshly recomputed
    /// pairing verdict — the sole path by which pairing verdicts reach
    /// the orchestrator.  Fails with `NotFound`, changing nothing, if and
    /// only if the token is not waiting.
    pub fn process_pairing_events(&mut self, token: usize, events: &Vec<InputEventData>) -> (r:
        Result<PairingState, Error>)
        ensures
            old(self).contains_token(token) ==> ({
                let key = old(self).view_map()[token].0;
                let pre = old(self).view_map()[token].1;
                let post = Controller {
                    buttons_state: pre.buttons_state.apply_events(pre.model, events@),
                    ..pre
                };
                &&& r == Ok::<PairingState, Error>(pairing_state_of(post.model, post.buttons_state))
                &&& final(self).view_map() == old(self).view_map().insert(token, (key, post))
            }),
            !old(self).contains_token(token) ==> {
                &&& r == Err::<PairingState, Error>(Error::NotFound)
                &&& *final(self) == *old(self)
            },
    {
        let (key, mut controller) = match self.controllers.get(&token) {
            Some(entry) => *entry,
            None => {
                return Err(Error::NotFound);
            }
        };
        let state = controller.handle_pairing_events(events);
        self.controllers.insert(token, (key, controller));
        Ok(state)
    }
}

} // verus!
