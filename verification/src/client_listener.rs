//! The listener: gives every incoming connection an id of its own and says
//! whether a handler is to be started for it.
//!
//! Accepting connections and starting handlers is left to the caller; what
//! is decided here is the id.

use crate::config::ServerConfig;
use vstd::prelude::*;

verus! {

/// Hands out the ids of connections.
pub struct ClientListener {
    key: usize,
    config: ServerConfig,
}

/// The answer to the `n`-th connection after a listener stood at `key`: its
/// id where it was accepted, nothing where accepting it failed.
pub open spec fn dispatch(key: usize, n: int, accepted: bool) -> Option<usize> {
    if accepted {
        Some((key + n + 1) as usize)
    } else {
        None
    }
}

impl ClientListener {
    /// The id given to the last connection, or the id after which ids are
    /// counted when there was none yet.
    pub closed spec fn spec_last_key(&self) -> usize {
        self.key
    }

    /// The settings that the listener was made with.
    pub closed spec fn spec_config(&self) -> ServerConfig {
        self.config
    }

    /// The listener that counts ids after `config.system.key_start()`.
    pub fn new(config: ServerConfig) -> (r: Self)
        ensures
            r.last_key() == config.system.key_start(),
            r.spec_config() == config,
    {
        Self { key: config.system.key_start(), config }
    }

    /// The id given to the last connection.
    #[verifier::when_used_as_spec(spec_last_key)]
    pub fn last_key(&self) -> (r: usize)
        ensures
            r == self.last_key(),
    {
        self.key
    }

    /// The settings that the listener was made with.
    pub fn config(&self) -> (r: &ServerConfig)
        ensures
            *r == self.spec_config(),
    {
        &self.config
    }

    /// Counts one incoming connection. Every connection takes the next id,
    /// also one that could not be accepted; only an accepted one is handed
    /// its id, for a handler to be started with it.
    pub fn accept(&mut self, accepted: bool) -> (r: Option<usize>)
        requires
            old(self).last_key() < usize::MAX,
        ensures
            final(self).last_key() == old(self).last_key() + 1,
            final(self).spec_config() == old(self).spec_config(),
            r == dispatch(old(self).last_key(), 0, accepted),
    {
        self.key += 1;
        if accepted {
            Some(self.key)
        } else {
            None
        }
    }

    /// Counts the incoming connections of `incoming` in their order, where
    /// `incoming[i]` says whether the `i`-th could be accepted.
    pub fn run(&mut self, incoming: &Vec<bool>) -> (r: Vec<Option<usize>>)
        requires
            old(self).last_key() + incoming@.len() <= usize::MAX,
        ensures
            final(self).last_key() == old(self).last_key() + incoming@.len(),
            final(self).spec_config() == old(self).spec_config(),
            r@.len() == incoming@.len(),
            forall|i: int|
                0 <= i < incoming@.len() ==> #[trigger] r@[i] == dispatch(
                    old(self).last_key(),
                    i,
                    incoming@[i],
                ),
    {
        let mut answers: Vec<Option<usize>> = Vec::new();
        let mut i: usize = 0;
        while i < incoming.len()
            invariant
                i <= incoming@.len(),
                old(self).last_key() + incoming@.len() <= usize::MAX,
                self.last_key() == old(self).last_key() + i,
                self.spec_config() == old(self).spec_config(),
                answers@.len() == i,
                forall|j: int|
                    0 <= j < i ==> #[trigger] answers@[j] == dispatch(
                        old(self).last_key(),
                        j,
                        incoming@[j],
                    ),
            decreases incoming@.len() - i,
        {
            let answer = self.accept(incoming[i]);
            answers.push(answer);
            i += 1;
        }
        answers
    }
}

/// The ids that a listener hands out grow with every connection: of two
/// accepted connections the later one has the greater id, so no two
/// handlers are started with the same id.
pub proof fn lemma_ids_increase(key: usize, i: int, j: int)
    requires
        0 <= i < j,
        key + j + 1 <= usize::MAX,
    ensures
        dispatch(key, i, true)->0 < dispatch(key, j, true)->0,
        dispatch(key, i, true)->0 > key,
{
}

} // verus!
