//! Arithmetic on logical positions.
//!
//! A position is a counter in `0 .. 2 * capacity`. Running over twice the
//! capacity lets equal counters mean "empty" and a distance of `capacity`
//! mean "full" without a separate element count or a wasted slot.

use vstd::arithmetic::div_mod::lemma_fundamental_div_mod_converse;
use vstd::prelude::*;

verus! {

/// A counter that a buffer of the given capacity may hold: below
/// `2 * capacity`, or zero (the only position of a buffer without slots).
pub open spec fn valid_position(capacity: nat, pos: nat) -> bool {
    pos == 0 || pos < 2 * capacity
}

/// The slot that a position falls on.
pub open spec fn collapse(capacity: nat, pos: nat) -> nat {
    if pos < capacity {
        pos
    } else {
        (pos - capacity) as nat
    }
}

/// The position `n` slots ahead of `pos`, wrapping at `2 * capacity`.
pub open spec fn advance(capacity: nat, pos: nat, n: nat) -> nat {
    if pos + n < 2 * capacity {
        pos + n
    } else {
        (pos + n - 2 * capacity) as nat
    }
}

/// The number of slots from `a` forward to `b`.
pub open spec fn distance(capacity: nat, a: nat, b: nat) -> nat {
    if a <= b {
        (b - a) as nat
    } else {
        (2 * capacity - a + b) as nat
    }
}

/// The slot of the position `k` steps ahead of `pos`.
pub open spec fn slot_ahead(capacity: nat, pos: nat, k: nat) -> nat {
    collapse(capacity, advance(capacity, pos, k))
}

/// How many steps ahead of `pos` the first position on `slot` lies.
pub open spec fn steps_to_slot(capacity: nat, pos: nat, slot: nat) -> nat {
    if slot >= collapse(capacity, pos) {
        (slot - collapse(capacity, pos)) as nat
    } else {
        (slot + capacity - collapse(capacity, pos)) as nat
    }
}

/// Advancing by at most the capacity gives a valid position that lies
/// exactly that far ahead.
pub proof fn lemma_advance_distance(capacity: nat, pos: nat, n: nat)
    requires
        valid_position(capacity, pos),
        n <= capacity,
    ensures
        valid_position(capacity, advance(capacity, pos, n)),
        distance(capacity, pos, advance(capacity, pos, n)) == n,
{
}

/// Advancing in two steps is advancing by the sum.
pub proof fn lemma_advance_twice(capacity: nat, pos: nat, m: nat, n: nat)
    requires
        valid_position(capacity, pos),
        m + n <= 2 * capacity,
    ensures
        advance(capacity, advance(capacity, pos, m), n) == advance(capacity, pos, m + n),
{
}

/// Distances along the ring add up as long as their sum stays within the
/// capacity.
pub proof fn lemma_distance_splits(capacity: nat, a: nat, b: nat, n: nat)
    requires
        valid_position(capacity, a),
        valid_position(capacity, b),
        distance(capacity, a, b) + n <= capacity,
    ensures
        distance(capacity, a, advance(capacity, b, n)) == distance(capacity, a, b) + n,
{
}

/// Two positions are equal exactly when nothing lies between them.
pub proof fn lemma_distance_zero(capacity: nat, a: nat, b: nat)
    requires
        valid_position(capacity, a),
        valid_position(capacity, b),
    ensures
        distance(capacity, a, b) == 0 <==> a == b,
{
}

/// Within one turn of the ring, stepping ahead and counting the steps to a
/// slot undo each other.
pub proof fn lemma_slot_steps_inverse(capacity: nat, pos: nat, k: nat, slot: nat)
    requires
        valid_position(capacity, pos),
        k < capacity,
        slot < capacity,
    ensures
        slot_ahead(capacity, pos, k) < capacity,
        steps_to_slot(capacity, pos, slot) < capacity,
        steps_to_slot(capacity, pos, slot_ahead(capacity, pos, k)) == k,
        slot_ahead(capacity, pos, steps_to_slot(capacity, pos, slot)) == slot,
{
}

/// For a buffer with slots, the positions are the integers modulo
/// `2 * capacity`: advancing adds, distance subtracts, and the slot of a
/// position is the position modulo `capacity`.
pub proof fn lemma_positions_are_modular(capacity: nat, a: nat, b: nat, n: nat)
    requires
        0 < capacity,
        a < 2 * capacity,
        b < 2 * capacity,
        n <= capacity,
    ensures
        collapse(capacity, a) == a % capacity,
        advance(capacity, a, n) == (a + n) % (2 * capacity),
        distance(capacity, a, b) == (b - a) % (2 * capacity as int),
{
    let turn = 2 * capacity as int;
    let slot_round: int = if a < capacity {
        0
    } else {
        1
    };
    lemma_fundamental_div_mod_converse(
        a as int,
        capacity as int,
        slot_round,
        collapse(capacity, a) as int,
    );
    let advance_round: int = if a + n < 2 * capacity {
        0
    } else {
        1
    };
    lemma_fundamental_div_mod_converse(
        (a + n) as int,
        turn,
        advance_round,
        advance(capacity, a, n) as int,
    );
    let distance_round: int = if a <= b {
        0
    } else {
        -1
    };
    lemma_fundamental_div_mod_converse(
        b - a,
        turn,
        distance_round,
        distance(capacity, a, b) as int,
    );
}

} // verus!
