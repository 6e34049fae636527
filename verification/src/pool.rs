//! The rotation pool: the fixed list of upstream credentials and the counter
//! that walks it.
//!
//! The counter is an atomic integer, so any number of callers may ask for a
//! credential at once. Each takes a ticket from the counter, and the ticket
//! alone decides which credential they get.

use vstd::prelude::*;
use vstd::arithmetic::div_mod::{
    lemma_fundamental_div_mod, lemma_fundamental_div_mod_converse_mod, lemma_mod_mod,
};
use vstd::seq_lib::lemma_multiset_commutative;
use std::sync::atomic::AtomicUsize;
use std::sync::atomic::Ordering;
use crate::config::{key_list_of, parse_key_list};
use crate::schema::string_views;

verus! {

/// A list of credentials that a pool can be built from: at least one entry,
/// and no entry empty.
pub open spec fn is_valid_key_list(keys: Seq<Seq<char>>) -> bool {
    keys.len() > 0 && forall|i: int| 0 <= i < keys.len() ==> (#[trigger] keys[i]).len() > 0
}

/// The position in a pool of `size` entries that `ticket` stands for.
pub open spec fn slot_of(ticket: int, size: int) -> int {
    ticket % size
}

/// The ticket that the counter hands out `steps` calls after it handed out
/// `start`. The counter wraps around behind `usize::MAX`.
pub open spec fn ticket_after(start: usize, steps: int) -> int {
    (start + steps) % (usize::MAX + 1)
}

/// The credentials that `keys.len()` calls in a row return, the first of them
/// on ticket `start`.
pub open spec fn round_from(keys: Seq<Seq<char>>, start: usize) -> Seq<Seq<char>> {
    Seq::new(keys.len(), |k: int| keys[slot_of(ticket_after(start, k), keys.len() as int)])
}

/// The ordered, fixed list of upstream credentials, with the counter of the
/// calls served so far.
pub struct RotationPool {
    api_keys: Vec<String>,
    counter: AtomicUsize,
}

impl RotationPool {
    #[verifier::type_invariant]
    spec fn well_formed(self) -> bool {
        is_valid_key_list(string_views(self.api_keys@))
    }

    /// The credentials of the pool, in their order.
    pub closed spec fn keys(&self) -> Seq<Seq<char>> {
        string_views(self.api_keys@)
    }

    /// Builds a pool over `api_keys`, with the counter at zero. A list that is
    /// empty, or that holds an empty credential, is refused.
    pub fn new(api_keys: Vec<String>) -> (pool: Option<RotationPool>)
        ensures
            pool is Some <==> is_valid_key_list(string_views(api_keys@)),
            pool is Some ==> pool.unwrap().keys() == string_views(api_keys@),
    {
        if api_keys.len() == 0 {
            return None;
        }
        let mut i: usize = 0;
        while i < api_keys.len()
            invariant
                i <= api_keys.len(),
                forall|j: int| 0 <= j < i ==> (#[trigger] string_views(api_keys@)[j]).len() > 0,
            decreases api_keys.len() - i,
        {
            if api_keys[i].as_str().is_empty() {
                assert(string_views(api_keys@)[i as int].len() == 0);
                return None;
            }
            i += 1;
        }
        Some(RotationPool { api_keys, counter: AtomicUsize::new(0) })
    }

    /// Builds a pool from the configured line of credentials: the pieces
    /// between its commas, without the white space at their ends. A line with
    /// an empty piece is refused.
    pub fn from_key_list(raw: &str) -> (pool: Option<RotationPool>)
        ensures
            pool is Some <==> is_valid_key_list(key_list_of(raw@)),
            pool is Some ==> pool.unwrap().keys() == key_list_of(raw@),
    {
        RotationPool::new(parse_key_list(raw))
    }

    /// The number of credentials in the pool. It is never zero.
    pub fn len(&self) -> (size: usize)
        ensures
            size == self.keys().len(),
            size > 0,
            is_valid_key_list(self.keys()),
    {
        proof {
            use_type_invariant(self);
        }
        self.api_keys.len()
    }

    /// The credential that `ticket` stands for.
    pub fn key_at(&self, ticket: usize) -> (key: &str)
        ensures
            key@ == self.keys()[slot_of(ticket as int, self.keys().len() as int)],
            key@.len() > 0,
    {
        proof {
            use_type_invariant(self);
        }
        let slot = ticket % self.api_keys.len();
        self.api_keys[slot].as_str()
    }

    /// Takes the next ticket from the counter.
    fn take_ticket(&self) -> usize {
        self.counter.fetch_add(1, Ordering::SeqCst)
    }

    /// Hands out the next credential in rotation.
    ///
    /// The counter is shared with every other caller, so which ticket a call
    /// draws is not known here; whichever it is, the credential is the one
    /// [`RotationPool::key_at`] gives for it.
    pub fn get_next_api_key(&self) -> (key: &str)
        ensures
            exists|ticket: int| key@ == #[trigger] self.keys()[slot_of(ticket, self.keys().len() as int)]
                && 0 <= slot_of(ticket, self.keys().len() as int) < self.keys().len(),
            key@.len() > 0,
    {
        let ticket = self.take_ticket();
        proof {
            use_type_invariant(self);
        }
        self.key_at(ticket)
    }
}

/// A number that is `rest` above a multiple of `size`, with `rest` below
/// `size`, leaves the remainder `rest`.
proof fn lemma_remainder(times: int, size: int, rest: int)
    requires
        size > 0,
        0 <= rest < size,
    ensures
        (times * size + rest) % size == rest,
{
    lemma_fundamental_div_mod_converse_mod(times * size + rest, size, times, rest);
}

/// Round-robin fairness. As many calls in a row as the pool has credentials
/// return every credential of the pool, each as often as the pool holds it,
/// wherever the counter stood before the first of them.
///
/// The counter wraps around behind `usize::MAX`. A run of calls that crosses
/// that point is covered only where the size of the pool divides the number
/// of tickets, since otherwise the walk through the pool jumps there.
pub proof fn lemma_round_returns_every_key_once(keys: Seq<Seq<char>>, start: usize)
    requires
        keys.len() > 0,
        start + keys.len() <= usize::MAX + 1 || (usize::MAX + 1) % (keys.len() as int) == 0,
    ensures
        round_from(keys, start).to_multiset() == keys.to_multiset(),
{
    let n = keys.len() as int;
    let modulus = usize::MAX + 1;
    let offset = start as int % n;
    let whole = start as int / n;
    let round = round_from(keys, start);
    let rotated = keys.skip(offset) + keys.take(offset);
    lemma_fundamental_div_mod(start as int, n);
    assert(start == whole * n + offset) by (nonlinear_arith)
        requires
            start == n * whole + offset,
    ;
    assert forall|k: int| 0 <= k < n implies round[k] == rotated[k] by {
        let ticket = ticket_after(start, k);
        if start + n <= modulus {
            lemma_remainder(0, modulus, start + k);
        } else {
            let times = modulus / n;
            lemma_fundamental_div_mod(modulus, n);
            assert(modulus == n * times);
            assert(times > 0) by (nonlinear_arith)
                requires
                    modulus == n * times,
                    modulus > 0,
                    n > 0,
            ;
            lemma_mod_mod(start + k, n, times);
        }
        assert(slot_of(ticket, n) == (start + k) % n);
        if offset + k < n {
            lemma_remainder(whole, n, offset + k);
        } else {
            assert(start + k == (whole + 1) * n + (offset + k - n)) by (nonlinear_arith)
                requires
                    start == whole * n + offset,
            ;
            lemma_remainder(whole + 1, n, offset + k - n);
        }
    }
    assert(round =~= rotated);
    lemma_multiset_commutative(keys.skip(offset), keys.take(offset));
    lemma_multiset_commutative(keys.take(offset), keys.skip(offset));
    assert(keys.take(offset) + keys.skip(offset) =~= keys);
    assert(keys.skip(offset).to_multiset().add(keys.take(offset).to_multiset()) =~= keys.take(
        offset,
    ).to_multiset().add(keys.skip(offset).to_multiset()));
}

} // verus!
