use std::collections::HashMap;

use vstd::prelude::*;

use crate::error::FusoError;

verus! {

broadcast use vstd::std_specs::hash::group_hash_axioms;

/// The token that follows `t` (wrapping around after `u64::MAX`).
pub open spec fn token_succ(t: u64) -> u64 {
    if t == u64::MAX { 0 } else { (t + 1) as u64 }
}

/// The token `k` steps after `start`, counting round the whole `u64` range.
pub open spec fn token_after(start: u64, k: nat) -> u64 {
    ((start + k) % 0x1_0000_0000_0000_0000) as u64
}

/// How many steps lead from `start` to `t`.
pub open spec fn token_distance(start: u64, t: u64) -> nat {
    if t >= start { (t - start) as nat } else { (t + 0x1_0000_0000_0000_0000 - start) as nat }
}

/// `t` is the first token at or after `start` that `used` does not hold.
pub open spec fn first_free_from(used: Set<u64>, start: u64, t: u64) -> bool {
    &&& !used.contains(t)
    &&& forall|k: nat| k < token_distance(start, t) ==> used.contains(#[trigger] token_after(start, k))
}

/// The first token at or after `start` that `used` does not hold.
pub open spec fn first_free(used: Set<u64>, start: u64) -> u64 {
    choose|t: u64| first_free_from(used, start, t)
}

/// Hands out increasing tokens, skipping those still in use.
pub struct IncToken {
    cur: u64,
}

impl IncToken {
    /// The token the next search starts from.
    pub closed spec fn start(self) -> u64 {
        self.cur
    }

    /// The first token, counting on from the last one handed out, that `in_use`
    /// does not hold as a key. The next search starts right after it.
    pub fn next_free<V>(&mut self, in_use: &HashMap<u64, V>) -> (t: u64)
        ensures
            first_free_from(in_use@.dom(), old(self).start(), t),
            final(self).start() == token_succ(t),
    {
        let ghost start = self.cur;
        let ghost dom = in_use@.dom();
        let ghost mut tried: Set<u64> = Set::empty();
        let ghost mut i: nat = 0;
        let mut t = self.cur;
        assert(in_use@.len() == in_use.len());
        loop
            invariant
                dom == in_use@.dom(),
                dom.finite(),
                dom.len() == in_use.len(),
                start == old(self).start(),
                t == token_after(start, i),
                tried.finite(),
                tried.len() == i,
                tried.subset_of(dom),
                forall|x: u64| tried.contains(x) <==> exists|k: nat| k < i && x == token_after(start, k),
                forall|k: nat| k < i ==> dom.contains(#[trigger] token_after(start, k)),
            decreases dom.len() - i,
        {
            proof {
                vstd::set_lib::lemma_len_subset(tried, dom);
            }
            if !in_use.contains_key(&t) {
                proof {
                    lemma_distance_after(start, i);
                }
                self.cur = if t == u64::MAX { 0 } else { t + 1 };
                return t;
            }
            proof {
                assert(i < 0x1_0000_0000_0000_0000) by {
                    assert(in_use.len() <= usize::MAX);
                }
                assert(!tried.contains(t)) by {
                    if tried.contains(t) {
                        let k = choose|k: nat| k < i && t == token_after(start, k);
                        lemma_after_injective(start, k, i);
                    }
                }
                tried = tried.insert(t);
                assert forall|x: u64| tried.contains(x) implies exists|k: nat| k < i + 1 && x == token_after(start, k) by {
                    if x == t {
                        assert(x == token_after(start, i));
                    } else {
                        let k = choose|k: nat| k < i && x == token_after(start, k);
                        assert(k < i + 1 && x == token_after(start, k));
                    }
                }
                assert forall|x: u64| (exists|k: nat| k < i + 1 && x == token_after(start, k)) implies tried.contains(x) by {
                    let k = choose|k: nat| k < i + 1 && x == token_after(start, k);
                    if k < i {
                        assert(exists|k2: nat| k2 < i && x == token_after(start, k2));
                    }
                }
                vstd::set_lib::lemma_len_subset(tried, dom);
                assert(i + 1 < 0x1_0000_0000_0000_0000) by {
                    assert(in_use.len() <= usize::MAX);
                }
                lemma_after_step(start, i);
                i = i + 1;
            }
            t = if t == u64::MAX { 0 } else { t + 1 };
        }
    }
}

impl Default for IncToken {
    /// A counter that starts at token 0.
    fn default() -> (r: Self)
        ensures
            r.start() == 0,
    {
        IncToken { cur: 0 }
    }
}

proof fn lemma_after_step(start: u64, i: nat)
    requires
        i + 1 < 0x1_0000_0000_0000_0000,
    ensures
        token_after(start, i + 1) == token_succ(token_after(start, i)),
{
    lemma_after_value(start, i);
    lemma_after_value(start, i + 1);
}

proof fn lemma_after_value(start: u64, k: nat)
    requires
        k < 0x1_0000_0000_0000_0000,
    ensures
        token_after(start, k) as int == if start + k < 0x1_0000_0000_0000_0000 { start + k } else { start + k - 0x1_0000_0000_0000_0000 },
{
    let m: int = 0x1_0000_0000_0000_0000;
    if start + k < m {
        vstd::arithmetic::div_mod::lemma_small_mod((start + k) as nat, m as nat);
    } else {
        vstd::arithmetic::div_mod::lemma_mod_sub_multiples_vanish((start + k - m) as int, m);
        vstd::arithmetic::div_mod::lemma_small_mod((start + k - m) as nat, m as nat);
    }
}

proof fn lemma_after_injective(start: u64, k: nat, i: nat)
    requires
        k < i < 0x1_0000_0000_0000_0000,
    ensures
        token_after(start, k) != token_after(start, i),
{
    lemma_after_value(start, k);
    lemma_after_value(start, i);
}

proof fn lemma_distance_after(start: u64, i: nat)
    requires
        i < 0x1_0000_0000_0000_0000,
    ensures
        token_distance(start, token_after(start, i)) == i,
{
    lemma_after_value(start, i);
}

proof fn lemma_after_distance(start: u64, t: u64)
    ensures
        token_distance(start, t) < 0x1_0000_0000_0000_0000,
        token_after(start, token_distance(start, t)) == t,
{
    lemma_after_value(start, token_distance(start, t));
}

/// The token a search hands out is determined by the tokens in use and where
/// the search starts: there is only one first free token.
pub proof fn law_first_free_is_unique(used: Set<u64>, start: u64, t1: u64, t2: u64)
    requires
        first_free_from(used, start, t1),
        first_free_from(used, start, t2),
    ensures
        t1 == t2,
{
    lemma_after_distance(start, t1);
    lemma_after_distance(start, t2);
    let d1 = token_distance(start, t1);
    let d2 = token_distance(start, t2);
    if d1 < d2 {
        assert(used.contains(token_after(start, d1)));
    } else if d2 < d1 {
        assert(used.contains(token_after(start, d2)));
    }
}

} // verus!
