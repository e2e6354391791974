use std::collections::HashMap;

use vstd::prelude::*;

use crate::error::FusoError;
use crate::rpc::Cmd;
use crate::token::{first_free_from, token_succ, IncToken};

verus! {

broadcast use vstd::std_specs::hash::group_hash_axioms;

/// The calls that wait for an answer, each under its token, with the handle
/// (`S`) that delivers the answer to the waiting caller.
pub struct Calls<S> {
    call_list: HashMap<u64, S>,
    inc_token: IncToken,
}

impl<S> Calls<S> {
    /// The waiting calls by token.
    pub closed spec fn pending(&self) -> Map<u64, S> {
        self.call_list@
    }

    /// Where the next token search starts.
    pub closed spec fn next_start(&self) -> u64 {
        self.inc_token.start()
    }

    /// Registers a waiting call and returns its token: the first token, counting
    /// on from the last one handed out, that no waiting call holds.
    pub fn add(&mut self, setter: S) -> (token: u64)
        ensures
            first_free_from(old(self).pending().dom(), old(self).next_start(), token),
            final(self).pending() == old(self).pending().insert(token, setter),
            final(self).next_start() == token_succ(token),
    {
        let token = self.inc_token.next_free(&self.call_list);
        self.call_list.insert(token, setter);
        token
    }

    /// Withdraws the call under `token` so that its answer can be delivered:
    /// `BadRpcCall(token)` when no call waits under it (the table is then unchanged).
    pub fn wake(&mut self, token: u64) -> (r: Result<S, FusoError>)
        ensures
            final(self).pending() == old(self).pending().remove(token),
            final(self).next_start() == old(self).next_start(),
            old(self).pending().contains_key(token) <==> r is Ok,
            r matches Ok(s) ==> s == old(self).pending()[token],
            r matches Err(e) ==> e == FusoError::BadRpcCall(token),
    {
        match self.call_list.remove(&token) {
            None => Err(FusoError::BadRpcCall(token)),
            Some(setter) => Ok(setter),
        }
    }

    /// Drops the call under `token`, if any.
    pub fn cancel(&mut self, token: u64)
        ensures
            final(self).pending() == old(self).pending().remove(token),
            final(self).next_start() == old(self).next_start(),
    {
        let _ = self.call_list.remove(&token);
    }

    /// Drops every waiting call.
    pub fn cancel_all(&mut self)
        ensures
            final(self).pending() == Map::<u64, S>::empty(),
            final(self).next_start() == old(self).next_start(),
    {
        self.call_list.clear();
    }
}

impl<S> Default for Calls<S> {
    /// No call waits; tokens start at 0.
    fn default() -> (r: Self)
        ensures
            r.pending() == Map::<u64, S>::empty(),
            r.next_start() == 0,
    {
        Calls { call_list: HashMap::new(), inc_token: IncToken::default() }
    }
}

/// Starts a call: the waiting call is registered under a fresh token; when the
/// argument encoded, the command to send carries the token and the packet;
/// when it did not, the call is withdrawn again and the encoding error returned.
pub fn start_call<S>(calls: &mut Calls<S>, setter: S, encoded: Result<Vec<u8>, FusoError>) -> (r: Result<Cmd, FusoError>)
    ensures
        exists|token: u64| {
            &&& first_free_from(old(calls).pending().dom(), old(calls).next_start(), token)
            &&& final(calls).next_start() == token_succ(token)
            &&& match encoded {
                Ok(packet) => r == Ok::<Cmd, FusoError>(Cmd::Transact { token, packet })
                    && final(calls).pending() == old(calls).pending().insert(token, setter),
                Err(e) => r == Err::<Cmd, FusoError>(e)
                    && final(calls).pending() == old(calls).pending(),
            }
        },
{
    let token = calls.add(setter);
    match encoded {
        Ok(packet) => Ok(Cmd::Transact { token, packet }),
        Err(error) => {
            calls.cancel(token);
            proof {
                assert(calls.pending() =~= old(calls).pending());
            }
            Err(error)
        },
    }
}

/// Every answer reaches the call it belongs to, once: the token a call is
/// registered under is held by no other waiting call, waking it yields that
/// call's handle and leaves the other calls as they were, and waking it again
/// finds no call (`BadRpcCall`).
pub proof fn law_answer_reaches_its_call<S>(pending: Map<u64, S>, start: u64, token: u64, setter: S)
    requires
        first_free_from(pending.dom(), start, token),
    ensures
        forall|k: u64| pending.contains_key(k) ==> k != token,
        pending.insert(token, setter).contains_key(token),
        pending.insert(token, setter)[token] == setter,
        pending.insert(token, setter).remove(token) == pending,
        !pending.insert(token, setter).remove(token).contains_key(token),
{
    assert(pending.insert(token, setter).remove(token) =~= pending);
}

/// Tokens are handed out in increasing order (round the `u64` range): the token
/// of a call is the start of the search itself when that one is free, and the
/// next search starts right after it.
pub proof fn law_tokens_count_up(used: Set<u64>, start: u64, token: u64)
    requires
        first_free_from(used, start, token),
        !used.contains(start),
    ensures
        token == start,
        token_succ(token) == if start == u64::MAX { 0 } else { (start + 1) as u64 },
{
    if token != start {
        assert(crate::token::token_after(start, 0) == start) by {
            vstd::arithmetic::div_mod::lemma_small_mod(start as nat, 0x1_0000_0000_0000_0000);
        }
        assert(crate::token::token_distance(start, token) > 0);
        assert(used.contains(crate::token::token_after(start, 0)));
    }
}

} // verus!
