//! Cancellation: a flag per running command, and the registry that finds the
//! flag of a command by its key.

use std::sync::atomic::{AtomicBool, Ordering};
use std::sync::Arc;
use vstd::prelude::*;

verus! {

/// A flag shared between the command that polls it and whoever cancels the
/// command. All handles to one flag are equal.
pub struct CancelToken(Arc<AtomicBool>);

impl CancelToken {
    /// A fresh flag.
    pub fn new() -> (token: CancelToken) {
        CancelToken(Arc::new(AtomicBool::new(false)))
    }

    /// Reads the flag. The flag is shared: another thread may set it at any
    /// time, so nothing is claimed of the value read.
    pub fn is_cancelled(&self) -> (cancelled: bool) {
        self.0.load(Ordering::Relaxed)
    }

    /// Sets the flag. It is never cleared again.
    pub fn cancel(&self) {
        self.0.store(true, Ordering::Relaxed);
    }

    /// `Arc::clone`: another handle to the same flag.
    #[verifier::external_body]
    fn share(&self) -> (other: CancelToken)
        ensures
            other == *self,
    {
        CancelToken(Arc::clone(&self.0))
    }
}

impl Clone for CancelToken {
    fn clone(&self) -> (other: CancelToken)
        ensures
            other == *self,
    {
        self.share()
    }
}

/// The flags of the commands that are running, by key.
pub struct CancelRegistry {
    tokens: vstd::hash_map::StringHashMap<CancelToken>,
}

impl View for CancelRegistry {
    type V = Map<Seq<char>, CancelToken>;

    closed spec fn view(&self) -> Map<Seq<char>, CancelToken> {
        self.tokens@
    }
}

impl CancelRegistry {
    /// An empty registry.
    pub fn new() -> (registry: CancelRegistry)
        ensures
            registry@ == Map::<Seq<char>, CancelToken>::empty(),
    {
        CancelRegistry { tokens: vstd::hash_map::StringHashMap::new() }
    }

    /// Makes a fresh flag, stores it under `key` in place of any flag stored
    /// there before, and returns a handle to it.
    pub fn register(&mut self, key: &str) -> (token: CancelToken)
        ensures
            final(self)@ == old(self)@.insert(key@, token),
    {
        let token = CancelToken::new();
        self.tokens.insert(key.to_string(), token.clone());
        token
    }

    /// Sets the flag stored under `key`. Returns whether there was one; the
    /// registry itself does not change.
    pub fn cancel(&self, key: &str) -> (found: bool)
        ensures
            found == self@.contains_key(key@),
    {
        match self.tokens.get(key) {
            Some(token) => {
                token.cancel();
                true
            },
            None => false,
        }
    }

    /// Forgets the flag stored under `key`, if there is one.
    pub fn remove(&mut self, key: &str)
        ensures
            final(self)@ == old(self)@.remove(key@),
    {
        self.tokens.remove(key);
    }
}

} // verus!
