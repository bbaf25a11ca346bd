//! Identifiers handed out in sequence by a counter that wraps after `u64::MAX`.

use vstd::prelude::*;

verus! {

/// The identifier that follows `x`: one more, wrapping to zero after `u64::MAX`.
pub open spec fn successor(x: u64) -> u64 {
    if x == u64::MAX {
        0
    } else {
        (x + 1) as u64
    }
}

/// The identifier handed out after `n` more calls, starting from `x`.
pub open spec fn nth_successor(x: u64, n: nat) -> u64
    decreases n,
{
    if n == 0 {
        x
    } else {
        successor(nth_successor(x, (n - 1) as nat))
    }
}

/// A counter of identifiers. Each call hands out the current value and moves
/// on to its successor.
pub struct IdCounter {
    next: u64,
}

impl View for IdCounter {
    type V = u64;

    /// The identifier that the next call hands out.
    closed spec fn view(&self) -> u64 {
        self.next
    }
}

impl IdCounter {
    /// A counter that starts at zero.
    pub fn new() -> (counter: Self)
        ensures
            counter@ == 0,
    {
        IdCounter { next: 0 }
    }

    /// Hands out the current identifier and advances the counter.
    pub fn take_next(&mut self) -> (id: u64)
        ensures
            id == old(self)@,
            final(self)@ == successor(old(self)@),
    {
        let id = self.next;
        self.next = self.next.wrapping_add(1);
        id
    }
}

/// A fresh identifier for checking that a serialization store was not
/// replaced while a message was being serialized.
pub fn unique_id(counter: &mut IdCounter) -> (id: u64)
    ensures
        id == old(counter)@,
        final(counter)@ == successor(old(counter)@),
{
    counter.take_next()
}

/// A fresh identifier under which a transferable value is referenced in a
/// serialized message.
pub fn transferrable_id(counter: &mut IdCounter) -> (id: u64)
    ensures
        id == old(counter)@,
        final(counter)@ == successor(old(counter)@),
{
    counter.take_next()
}

/// After `n` calls the counter stands at `(x + n) mod 2^64`.
pub proof fn lemma_nth_successor(x: u64, n: nat)
    ensures
        nth_successor(x, n) as int == (x as int + n as int) % 0x1_0000_0000_0000_0000,
    decreases n,
{
    if n > 0 {
        lemma_nth_successor(x, (n - 1) as nat);
        let p = nth_successor(x, (n - 1) as nat) as int;
        let m: int = 0x1_0000_0000_0000_0000;
        assert((x as int + n as int) % m == ((x as int + (n - 1) as int) % m + 1) % m) by {
            vstd::arithmetic::div_mod::lemma_add_mod_noop(x as int + (n - 1) as int, 1, m);
            vstd::arithmetic::div_mod::lemma_mod_twice(1, m);
            vstd::arithmetic::div_mod::lemma_small_mod(1, m as nat);
        }
        assert(0 <= p < m);
        if p + 1 < m {
            vstd::arithmetic::div_mod::lemma_small_mod((p + 1) as nat, m as nat);
        } else {
            vstd::arithmetic::div_mod::lemma_mod_self_0(m);
        }
    } else {
        vstd::arithmetic::div_mod::lemma_small_mod(x as nat, 0x1_0000_0000_0000_0000);
    }
}

/// Identifiers are unique: no two of the first `2^64` identifiers that a
/// counter hands out are equal.
pub proof fn lemma_ids_distinct(x: u64, i: nat, j: nat)
    requires
        i < j < 0x1_0000_0000_0000_0000,
    ensures
        nth_successor(x, i) != nth_successor(x, j),
{
    lemma_nth_successor(x, i);
    lemma_nth_successor(x, j);
    let m: int = 0x1_0000_0000_0000_0000;
    let a = x as int + i as int;
    let b = x as int + j as int;
    if a % m == b % m {
        vstd::arithmetic::div_mod::lemma_fundamental_div_mod(a, m);
        vstd::arithmetic::div_mod::lemma_fundamental_div_mod(b, m);
        assert(0 < b - a < m);
        let qa = a / m;
        let qb = b / m;
        assert(m * qb - m * qa == b - a);
        assert(m * (qb - qa) == b - a) by {
            vstd::arithmetic::mul::lemma_mul_is_distributive_sub(m, qb, qa);
        }
        assert(false) by (nonlinear_arith)
            requires
                m * (qb - qa) == b - a,
                0 < b - a < m,
                m > 0,
        ;
    }
}

} // verus!
