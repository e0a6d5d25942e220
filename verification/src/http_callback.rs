//! The handlers waiting for the answers to HTTP calls, by call token.

use vstd::prelude::*;
use std::collections::HashMap;

pub use crate::headers::get_header;

verus! {

broadcast use vstd::std_specs::hash::group_hash_axioms;

/// The handlers waiting for the answers to HTTP calls, by call token.
pub struct HttpCallbackManager<H> {
    handlers: HashMap<u32, H>,
}

impl<H> View for HttpCallbackManager<H> {
    type V = Map<u32, H>;

    closed spec fn view(&self) -> Map<u32, H> {
        self.handlers@
    }
}

impl<H> HttpCallbackManager<H> {
    /// A manager with no handler.
    pub fn new() -> (m: Self)
        ensures
            m@ == Map::<u32, H>::empty(),
    {
        HttpCallbackManager { handlers: HashMap::new() }
    }

    /// Registers `handler` for the answer to the call `token_id`, replacing
    /// any handler registered for it before.
    pub fn register_handler(&mut self, token_id: u32, handler: H)
        ensures
            final(self)@ == old(self)@.insert(token_id, handler),
    {
        self.handlers.insert(token_id, handler);
    }

    /// Takes the handler registered for the call `token_id`, which the caller
    /// then runs on the answer's headers and body; `None` when no handler
    /// waits for that call. A handler runs at most once.
    pub fn handle_response(&mut self, token_id: u32) -> (r: Option<H>)
        ensures
            final(self)@ == old(self)@.remove(token_id),
            match r {
                Some(h) => old(self)@.contains_key(token_id) && h == old(self)@[token_id],
                None => !old(self)@.contains_key(token_id),
            },
    {
        self.handlers.remove(&token_id)
    }
}

/// Law: the handler registered for a token is the one its answer gets, once;
/// registering does not disturb the handlers of other tokens.
pub proof fn law_register_then_handle<H>(m: Map<u32, H>, t: u32, u: u32, h: H)
    requires
        t != u,
    ensures
        m.insert(t, h).contains_key(t),
        m.insert(t, h)[t] == h,
        !m.insert(t, h).remove(t).contains_key(t),
        m.insert(t, h).contains_key(u) == m.contains_key(u),
        m.contains_key(u) ==> m.insert(t, h)[u] == m[u],
{
}

} // verus!
