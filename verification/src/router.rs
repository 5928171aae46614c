//! Routing the phone's replies.
//!
//! Replies are routed by request id rather than tied to the connection they arrived on, so
//! the phone can drop and reconnect mid-verification without orphaning an assertion the
//! user already approved. Each outstanding request has one waiter; a reply goes to the
//! waiter of its id, once, and a reply that finds no waiter is a late answer to an abandoned
//! request and is dropped.

use std::collections::HashMap;
use vstd::prelude::*;
use crate::json::{JsonValue, get_u64, u64_field};
use crate::protocol::{ProtocolError, parse_response, response_spec};

verus! {

broadcast use vstd::std_specs::hash::group_hash_axioms;

/// The outstanding requests: verification requests, answered with a signature or a denial,
/// and JSON requests (WebAuthn), answered with a whole JSON document.
pub struct Router<V, J> {
    next_id: u64,
    pending: HashMap<u64, V>,
    pending_json: HashMap<u64, J>,
}

/// The id the next request gets, and the waiters of the outstanding requests by id.
pub struct RouterView<V, J> {
    pub next_id: u64,
    pub pending: Map<u64, V>,
    pub pending_json: Map<u64, J>,
}

impl<V, J> View for Router<V, J> {
    type V = RouterView<V, J>;

    closed spec fn view(&self) -> RouterView<V, J> {
        RouterView { next_id: self.next_id, pending: self.pending@, pending_json: self.pending_json@ }
    }
}

/// Where a reply goes.
pub enum Route {
    /// To the JSON request with this id.
    ToRequest(u64),
    /// To the verification with this id: the signature, or the reason the user denied it.
    ToVerification(u64, Result<Seq<u8>, Seq<char>>),
    /// Nowhere: nobody waits for this id any more.
    Unclaimed(u64),
    /// Nowhere: the reply cannot be read.
    Unreadable(ProtocolError),
}

/// Where a reply goes, given the ids of the verifications and of the JSON requests that are
/// waiting. `None` stands for a line that is not JSON. A JSON request is served first; any
/// other reply is read as the answer to a verification.
pub open spec fn route_spec(verifications: Set<u64>, requests: Set<u64>, reply: Option<JsonValue>) -> Route {
    match reply {
        None => Route::Unreadable(ProtocolError::InvalidJson),
        Some(value) => {
            let id = u64_field(value, "id"@);
            if id is Some && requests.contains(id->0) {
                Route::ToRequest(id->0)
            } else {
                match response_spec(value) {
                    Err(e) => Route::Unreadable(e),
                    Ok((id, signature, denied)) => {
                        if verifications.contains(id) {
                            Route::ToVerification(
                                id,
                                match denied {
                                    Some(reason) => Err(reason),
                                    None => Ok(signature),
                                },
                            )
                        } else {
                            Route::Unclaimed(id)
                        }
                    },
                }
            }
        },
    }
}

/// A reply handed to its waiter, or the reason it was not.
pub enum Delivery<V, J> {
    /// The waiter of a JSON request, with the reply for it.
    Reply(J, JsonValue),
    /// The waiter of a verification, with the signature or the reason it was denied.
    Verdict(V, Result<Vec<u8>, String>),
    Unclaimed(u64),
    Unreadable(ProtocolError),
}

pub open spec fn outcome_view(outcome: Result<Vec<u8>, String>) -> Result<Seq<u8>, Seq<char>> {
    match outcome {
        Ok(signature) => Ok(signature@),
        Err(reason) => Err(reason@),
    }
}

impl<V, J> Router<V, J> {
    /// No request outstanding; the first id is 1.
    pub fn new() -> (r: Self)
        ensures
            r@.next_id == 1,
            r@.pending == Map::<u64, V>::empty(),
            r@.pending_json == Map::<u64, J>::empty(),
    {
        Router { next_id: 1, pending: HashMap::new(), pending_json: HashMap::new() }
    }

    /// The id for a new request; ids count up from 1 (wrapping at 2^64).
    pub fn allocate_id(&mut self) -> (r: u64)
        ensures
            r == old(self)@.next_id,
            final(self)@.next_id == (if r == u64::MAX { 0 } else { r + 1 }),
            final(self)@.pending == old(self)@.pending,
            final(self)@.pending_json == old(self)@.pending_json,
    {
        let id = self.next_id;
        self.next_id = self.next_id.wrapping_add(1);
        id
    }

    /// Registers the waiter of verification `id`.
    pub fn await_verification(&mut self, id: u64, waiter: V)
        ensures
            final(self)@.pending == old(self)@.pending.insert(id, waiter),
            final(self)@.pending_json == old(self)@.pending_json,
            final(self)@.next_id == old(self)@.next_id,
    {
        self.pending.insert(id, waiter);
    }

    /// Registers the waiter of JSON request `id`.
    pub fn await_reply(&mut self, id: u64, waiter: J)
        ensures
            final(self)@.pending_json == old(self)@.pending_json.insert(id, waiter),
            final(self)@.pending == old(self)@.pending,
            final(self)@.next_id == old(self)@.next_id,
    {
        self.pending_json.insert(id, waiter);
    }

    /// Stops waiting for verification `id` (it failed to send, timed out or was dropped).
    pub fn abandon_verification(&mut self, id: u64)
        ensures
            final(self)@.pending == old(self)@.pending.remove(id),
            final(self)@.pending_json == old(self)@.pending_json,
            final(self)@.next_id == old(self)@.next_id,
    {
        self.pending.remove(&id);
    }

    /// Stops waiting for JSON request `id`.
    pub fn abandon_request(&mut self, id: u64)
        ensures
            final(self)@.pending_json == old(self)@.pending_json.remove(id),
            final(self)@.pending == old(self)@.pending,
            final(self)@.next_id == old(self)@.next_id,
    {
        self.pending_json.remove(&id);
    }

    /// Hands a reply to whichever request is waiting for its id, and forgets that waiter.
    /// `reply` is the decoded line, `None` when it was not JSON.
    pub fn route(&mut self, reply: Option<JsonValue>) -> (r: Delivery<V, J>)
        ensures
            match route_spec(old(self)@.pending.dom(), old(self)@.pending_json.dom(), reply) {
                Route::ToRequest(id) => r matches Delivery::Reply(waiter, value) && waiter
                    == old(self)@.pending_json[id] && reply == Some(value) && final(self)@.pending_json
                    == old(self)@.pending_json.remove(id) && final(self)@.pending == old(self)@.pending,
                Route::ToVerification(id, outcome) => r matches Delivery::Verdict(waiter, o) && waiter
                    == old(self)@.pending[id] && outcome_view(o) == outcome && final(self)@.pending
                    == old(self)@.pending.remove(id) && final(self)@.pending_json == old(self)@.pending_json,
                Route::Unclaimed(id) => r == Delivery::<V, J>::Unclaimed(id) && final(self)@.pending
                    == old(self)@.pending && final(self)@.pending_json == old(self)@.pending_json,
                Route::Unreadable(e) => r == Delivery::<V, J>::Unreadable(e) && final(self)@.pending
                    == old(self)@.pending && final(self)@.pending_json == old(self)@.pending_json,
            },
            final(self)@.next_id == old(self)@.next_id,
    {
        let value = match reply {
            None => return Delivery::Unreadable(ProtocolError::InvalidJson),
            Some(value) => value,
        };
        match get_u64(&value, "id") {
            Some(id) => {
                if self.pending_json.contains_key(&id) {
                    match self.pending_json.remove(&id) {
                        Some(waiter) => return Delivery::Reply(waiter, value),
                        None => {},
                    }
                }
            },
            None => {},
        }
        match parse_response(&value) {
            Err(e) => Delivery::Unreadable(e),
            Ok(response) => {
                if self.pending.contains_key(&response.id) {
                    match self.pending.remove(&response.id) {
                        Some(waiter) => {
                            let outcome = match response.denied {
                                Some(reason) => Err(reason),
                                None => Ok(response.signature),
                            };
                            Delivery::Verdict(waiter, outcome)
                        },
                        None => Delivery::Unclaimed(response.id),
                    }
                } else {
                    Delivery::Unclaimed(response.id)
                }
            },
        }
    }
}

/// A verdict reaches its verification once: routed again after delivery, the same reply
/// finds nobody waiting.
pub proof fn lemma_verdict_delivered_once(verifications: Set<u64>, requests: Set<u64>, reply: Option<JsonValue>, id: u64)
    requires
        route_spec(verifications, requests, reply) matches Route::ToVerification(i, _) && i == id,
    ensures
        route_spec(verifications.remove(id), requests, reply) == Route::Unclaimed(id),
{
}

/// A JSON reply reaches its request once: routed again after delivery, it goes to no
/// request.
pub proof fn lemma_reply_delivered_once(verifications: Set<u64>, requests: Set<u64>, reply: Option<JsonValue>, id: u64)
    requires
        route_spec(verifications, requests, reply) == Route::ToRequest(id),
    ensures
        !(route_spec(verifications, requests.remove(id), reply) is ToRequest),
{
}

/// A late reply, to a request nobody waits for any more, is delivered to no one.
pub proof fn lemma_late_reply_dropped(verifications: Set<u64>, requests: Set<u64>, value: JsonValue, id: u64)
    requires
        u64_field(value, "id"@) == Some(id),
        !verifications.contains(id),
        !requests.contains(id),
    ensures
        !(route_spec(verifications, requests, Some(value)) is ToRequest),
        !(route_spec(verifications, requests, Some(value)) is ToVerification),
{
}

} // verus!
