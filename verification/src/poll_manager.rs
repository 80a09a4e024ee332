use vstd::prelude::*;

use crate::errors::Error;
use crate::key_allocator::KeyAllocator;

verus! {

/// Number of poll keys a reactor can hand out; keys range over
/// [0, KEY_CAPACITY).
pub const KEY_CAPACITY: usize = 0x100;

/// The readiness-dispatch registry of the single-threaded reactor.  It
/// maps a stable integer key to one registered handler; the surrounding
/// binary owns the OS readiness queue, mirrors every subscription into it,
/// and hands the batch of ready keys back to `poll`, which yields exactly
/// one tagged result per ready source.  Handlers are closed tags (not
/// closures): one central dispatcher interprets them, so dispatch never
/// runs re-entrantly.
pub struct PollManager<C> {
    callback_map: Vec<Option<C>>,
    callback_key_allocator: KeyAllocator,
}

impl<C> PollManager<C> {
    /// The registry is consistent: the handler table spans all of
    /// [0, KEY_CAPACITY) and a key is allocated exactly while a handler
    /// is stored under it.
    pub closed spec fn wf(&self) -> bool {
        &&& self.callback_map@.len() == KEY_CAPACITY
        &&& self.callback_key_allocator.capacity_spec() == KEY_CAPACITY
        &&& forall|k: usize|
            k < KEY_CAPACITY
                ==> (self.callback_key_allocator.live().contains(k)
                    <==> self.callback_map@[k as int] is Some)
    }

    /// A live subscription exists under this key.
    pub closed spec fn registered(&self, key: usize) -> bool {
        key < self.callback_map@.len() && self.callback_map@[key as int] is Some
    }

    /// The handler stored under a registered key.
    pub closed spec fn handler_of(&self, key: usize) -> C
        recommends
            self.registered(key),
    {
        self.callback_map@[key as int]->Some_0
    }

    /// All subscriptions except possibly `key` are the same in `self` as
    /// in `other`.
    pub open spec fn same_except(&self, other: &PollManager<C>, key: usize) -> bool {
        forall|j: usize|
            j < KEY_CAPACITY && j != key ==> {
                &&& (#[trigger] self.registered(j) <==> other.registered(j))
                &&& (other.registered(j) ==> self.handler_of(j) == other.handler_of(j))
            }
    }

    /// `self` holds exactly the subscriptions of `other` (keys outside
    /// [0, KEY_CAPACITY) are never subscribed).
    pub open spec fn same_subscriptions(&self, other: &PollManager<C>) -> bool {
        forall|j: usize|
            j < KEY_CAPACITY ==> {
                &&& (#[trigger] self.registered(j) <==> other.registered(j))
                &&& (other.registered(j) ==> self.handler_of(j) == other.handler_of(j))
            }
    }

    /// Creates an empty registry: no key is subscribed.
    pub fn new() -> (m: PollManager<C>)
        ensures
            m.wf(),
            forall|k: usize| !m.registered(k),
    {
        let mut callback_map: Vec<Option<C>> = Vec::new();
        let mut i: usize = 0;
        while i < KEY_CAPACITY
            invariant
                i <= KEY_CAPACITY,
                callback_map@.len() == i,
                forall|j: int| 0 <= j < i ==> callback_map@[j] is None,
            decreases KEY_CAPACITY - i,
        {
            callback_map.push(None);
            i = i + 1;
        }
        PollManager { callback_map, callback_key_allocator: KeyAllocator::new(KEY_CAPACITY) }
    }

    /// Subscribes a handler under a fresh key and returns the key; fails
    /// with `AllocationExhausted` if and only if every key is taken.
    pub fn subscribe(&mut self, handler: C) -> (r: Result<usize, Error>)
        requires
            old(self).wf(),
        ensures
            final(self).wf(),
            r matches Ok(k) ==> {
                &&& k < KEY_CAPACITY
                &&& !old(self).registered(k)
                &&& forall|j: usize| j < k ==> old(self).registered(j)
                &&& final(self).registered(k)
                &&& final(self).handler_of(k) == handler
                &&& final(self).same_except(old(self), k)
            },
            r is Err ==> {
                &&& r == Err::<usize, Error>(Error::AllocationExhausted)
                &&& final(self).same_subscriptions(old(self))
                &&& forall|k: usize| k < KEY_CAPACITY ==> old(self).registered(k)
            },
            (forall|k: usize| k < KEY_CAPACITY ==> old(self).registered(k)) ==> r is Err,
    {
        let key = match self.callback_key_allocator.allocate() {
            Ok(key) => key,
            Err(e) => {
                proof {
                    assert forall|k: usize| k < KEY_CAPACITY implies old(self).registered(k) by {
                        assert(old(self).callback_key_allocator.live().contains(k));
                    }
                }
                return Err(e);
            }
        };
        proof {
            assert(!old(self).registered(key));
            assert forall|j: usize| j < key implies old(self).registered(j) by {
                assert(old(self).callback_key_allocator.live().contains(j));
            }
        }
        self.callback_map.set(key, Some(handler));
        Ok(key)
    }

    /// Subscribes a handler under a caller-chosen key (used for one fixed
    /// collaborator slot); fails with `AlreadyAllocated` if and only if
    /// the key is taken.
    pub fn subscribe_with_key(&mut self, key: usize, handler: C) -> (r: Result<(), Error>)
        requires
            old(self).wf(),
            key < KEY_CAPACITY,
        ensures
            final(self).wf(),
            old(self).registered(key) ==> {
                &&& r == Err::<(), Error>(Error::AlreadyAllocated)
                &&& final(self).registered(key)
                &&& final(self).handler_of(key) == old(self).handler_of(key)
                &&& final(self).same_except(old(self), key)
            },
            !old(self).registered(key) ==> {
                &&& r == Ok::<(), Error>(())
                &&& final(self).registered(key)
                &&& final(self).handler_of(key) == handler
                &&& final(self).same_except(old(self), key)
            },
    {
        match self.callback_key_allocator.occupy(key) {
            Ok(_) => {}
            Err(e) => {
                return Err(e);
            }
        }
        self.callback_map.set(key, Some(handler));
        Ok(())
    }

    /// Unsubscribes the key and drops its handler; fails with `NotFound`
    /// if and only if no subscription is live under it.  The key returns
    /// to the pool.
    pub fn remove(&mut self, key: usize) -> (r: Result<(), Error>)
        requires
            old(self).wf(),
        ensures
            final(self).wf(),
            old(self).registered(key) ==> {
                &&& r == Ok::<(), Error>(())
                &&& !final(self).registered(key)
                &&& final(self).same_except(old(self), key)
            },
            !old(self).registered(key) ==> {
                &&& r == Err::<(), Error>(Error::NotFound)
                &&& *final(self) == *old(self)
            },
    {
        if key < self.callback_map.len() && self.callback_map[key].is_some() {
            self.callback_map.set(key, None);
            self.callback_key_allocator.release(key);
            Ok(())
        } else {
            Err(Error::NotFound)
        }
    }

    /// Replaces the handler registered under the key; fails with
    /// `NotFound` if and only if no subscription is live under it.
    pub fn modify(&mut self, key: usize, handler: C) -> (r: Result<(), Error>)
        requires
            old(self).wf(),
        ensures
            final(self).wf(),
            old(self).registered(key) ==> {
                &&& r == Ok::<(), Error>(())
                &&& final(self).registered(key)
                &&& final(self).handler_of(key) == handler
                &&& final(self).same_except(old(self), key)
            },
            !old(self).registered(key) ==> {
                &&& r == Err::<(), Error>(Error::NotFound)
                &&& *final(self) == *old(self)
            },
    {
        if key < self.callback_map.len() && self.callback_map[key].is_some() {
            self.callback_map.set(key, Some(handler));
            Ok(())
        } else {
            Err(Error::NotFound)
        }
    }

    /// At least two subscription keys are still free.
    pub open spec fn has_free_pair(&self) -> bool {
        exists|a: usize, b: usize|
            a < b < KEY_CAPACITY && !self.registered(a) && !self.registered(b)
    }

    /// At least three subscription keys are still free.
    pub open spec fn has_free_triple(&self) -> bool {
        exists|a: usize, b: usize, c: usize|
            a < b < KEY_CAPACITY && b < c < KEY_CAPACITY && !self.registered(a)
                && !self.registered(b) && !self.registered(c)
    }

    /// The pool can supply one fresh key for a group's synthetic device
    /// plus one per constituent.
    pub open spec fn can_supply_group_keys(&self, constituents: int) -> bool {
        if constituents <= 1 {
            self.has_free_pair()
        } else {
            self.has_free_triple()
        }
    }

    /// The handler subscribed under a key, if any.
    pub fn handler(&self, key: usize) -> (r: Option<C>) where C: Copy
        ensures
            self.registered(key) ==> r == Some(self.handler_of(key)),
            !self.registered(key) ==> r is None,
    {
        if key < self.callback_map.len() {
            match &self.callback_map[key] {
                Some(h) => Some(*h),
                None => None,
            }
        } else {
            None
        }
    }

    /// What one ready key yields: the keyed handler if subscribed, and a
    /// per-event `NotFound` otherwise — a source whose key was removed in
    /// the same wake must not reach its stale handler, and must not abort
    /// the rest of the batch.
    pub open spec fn wake_result(&self, key: usize) -> Result<(usize, C), Error> {
        if self.registered(key) {
            Ok((key, self.handler_of(key)))
        } else {
            Err(Error::NotFound)
        }
    }

    /// Maps one wake's batch of ready keys to tagged dispatch results:
    /// exactly one result per ready source, in the order given, each
    /// carrying its key.
    pub fn poll(&self, ready: &Vec<usize>) -> (out: Vec<Result<(usize, C), Error>>) where
        C: Copy,

        ensures
            out@.len() == ready@.len(),
            forall|i: int| 0 <= i < ready@.len() ==> out@[i] == self.wake_result(ready@[i]),
    {
        let mut out: Vec<Result<(usize, C), Error>> = Vec::new();
        let mut i: usize = 0;
        while i < ready.len()
            invariant
                i <= ready@.len(),
                out@.len() == i,
                forall|j: int| 0 <= j < i ==> out@[j] == self.wake_result(ready@[j]),
            decreases ready@.len() - i,
        {
            let key = ready[i];
            if key < self.callback_map.len() {
                match &self.callback_map[key] {
                    Some(handler) => out.push(Ok((key, *handler))),
                    None => out.push(Err(Error::NotFound)),
                }
            } else {
                out.push(Err(Error::NotFound));
            }
            i = i + 1;
        }
        out
    }
}

/// Law: a source whose key holds no live subscription yields a reported
/// miss on a wake, never a stale handler.
pub proof fn lemma_removed_key_never_dispatched<C>(m: PollManager<C>, key: usize)
    requires
        !m.registered(key),
    ensures
        m.wake_result(key) == Err::<(usize, C), Error>(Error::NotFound),
{
}

} // verus!
