//! Promises for HTTP callouts: each callout's token names the promise its
//! response fulfills.
use crate::promise::{PromiseState, Promise, Promises};
use std::collections::HashMap;
use vstd::prelude::*;

verus! {

broadcast use vstd::std_specs::hash::group_hash_axioms;

/// What an HTTP callout's response reports: its token, the number of headers,
/// the body size and the number of trailers.
pub type CallResponse = (u32, usize, usize, usize);

/// The promises of pending HTTP callouts, by token.
pub struct HttpClient {
    m: HashMap<u32, Promise>,
}

impl View for HttpClient {
    type V = Map<u32, Promise>;

    closed spec fn view(&self) -> Map<u32, Promise> {
        self.m@
    }
}

impl HttpClient {
    pub fn new() -> (r: HttpClient)
        ensures
            r@ == Map::<u32, Promise>::empty(),
    {
        HttpClient { m: HashMap::new() }
    }

    /// Every promise tracked here lives in `set`.
    pub open spec fn tracked_in<
        F: Fn(CallResponse) -> CallResponse,
        G: Fn(Vec<CallResponse>) -> CallResponse,
        C: Fn(String),
    >(&self, set: &Promises<CallResponse, F, G, C>) -> bool {
        forall|t: u32| #[trigger] self@.contains_key(t) ==> self@[t].at() < set.states().len()
    }

    /// A new pending promise for the callout the host issued under `token`.
    pub fn dispatch<
        F: Fn(CallResponse) -> CallResponse,
        G: Fn(Vec<CallResponse>) -> CallResponse,
        C: Fn(String),
    >(&mut self, set: &mut Promises<CallResponse, F, G, C>, token: u32) -> (r: Promise)
        requires
            old(set).wf(),
            old(self).tracked_in(old(set)),
        ensures
            final(set).wf(),
            final(self).tracked_in(final(set)),
            r.at() == old(set).states().len(),
            final(set).states() == old(set).states().push(PromiseState::Pending),
            final(self)@ == old(self)@.insert(token, r),
    {
        let promise = Promise::new(set);
        self.m.insert(token, promise);
        assert forall|t: u32| #[trigger] self@.contains_key(t) implies self@[t].at() < set.states().len() by {
            if t != token {
                assert(old(self)@.contains_key(t));
            }
        }
        promise
    }

    /// Whether a callout with token `token_id` is pending.
    pub fn tracks(&self, token_id: u32) -> (r: bool)
        ensures
            r == self@.contains_key(token_id),
    {
        self.m.contains_key(&token_id)
    }

    /// Fulfills the promise of the pending callout `token_id` with the
    /// response's sizes, runs what waits on it, and stops tracking it.
    pub fn callback<
        F: Fn(CallResponse) -> CallResponse,
        G: Fn(Vec<CallResponse>) -> CallResponse,
        C: Fn(String),
    >(
        &mut self,
        set: &mut Promises<CallResponse, F, G, C>,
        token_id: u32,
        num_headers: usize,
        body_size: usize,
        num_trailers: usize,
    )
        requires
            old(set).wf(),
            old(self).tracked_in(old(set)),
            old(self)@.contains_key(token_id),
        ensures
            final(set).wf(),
            final(self).tracked_in(final(set)),
            final(self)@ == old(self)@.remove(token_id),
            old(set).states()[old(self)@[token_id].at()] is Pending ==> final(set).states()[old(
                self,
            )@[token_id].at()] == PromiseState::Fulfilled(
                (token_id, num_headers, body_size, num_trailers),
            ),
            old(set).states()[old(self)@[token_id].at()] is Pending ==> old(set).then_chain(
                final(set).states(),
                old(self)@[token_id].at(),
                (token_id, num_headers, body_size, num_trailers),
            ),
    {
        match self.m.remove(&token_id) {
            Some(promise) => {
                promise.fulfill(set, (token_id, num_headers, body_size, num_trailers));
            },
            None => {},
        }
    }
}

} // verus!
