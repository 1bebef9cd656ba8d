use vstd::prelude::*;

verus! {

/// Number of set bits of a 64-bit word.
pub open spec fn popcount(x: u64) -> nat
    decreases x,
{
    if x == 0 {
        0
    } else {
        popcount(x / 2) + (x % 2) as nat
    }
}

/// Relies on u64::count_ones: it returns the number of ones in the binary representation.
pub assume_specification[ u64::count_ones ](x: u64) -> (r: u32)
    ensures
        r as nat == popcount(x),
;

/// Whether bit `i` of `x` is set.
pub open spec fn bit_set(x: u64, i: u64) -> bool {
    (x >> i) & 1u64 == 1u64
}

/// A 64-bit word has at most 64 set bits, and a nonzero word at least one.
pub proof fn lemma_popcount_bound(x: u64)
    ensures
        popcount(x) <= 64,
        x != 0 ==> popcount(x) >= 1,
{
    reveal_with_fuel(pow2, 65);
    assert(pow2(64) == 0x1_0000_0000_0000_0000);
    lemma_popcount_le_log(x, 64);
    if x != 0 {
        reveal_with_fuel(popcount, 2);
        if x % 2 == 0 {
            lemma_popcount_nonzero(x);
        }
    }
}

proof fn lemma_popcount_nonzero(x: u64)
    requires
        x != 0,
    ensures
        popcount(x) >= 1,
    decreases x,
{
    if x % 2 == 0 {
        lemma_popcount_nonzero(x / 2);
    }
}

proof fn lemma_popcount_le_log(x: u64, k: nat)
    requires
        x < pow2(k),
    ensures
        popcount(x) <= k,
    decreases k,
{
    if k == 0 {
        assert(x == 0);
    } else {
        if x != 0 {
            lemma_popcount_le_log(x / 2, (k - 1) as nat);
        }
    }
}

pub open spec fn pow2(k: nat) -> nat
    decreases k,
{
    if k == 0 {
        1
    } else {
        2 * pow2((k - 1) as nat)
    }
}

/// Clearing the lowest set bit removes exactly one set bit.
pub proof fn lemma_popcount_clear_lowest(x: u64)
    requires
        x != 0,
    ensures
        popcount(x & ((x - 1) as u64)) + 1 == popcount(x),
    decreases x,
{
    let y = x & ((x - 1) as u64);
    if x % 2 == 1 {
        assert(y == x - 1 && y / 2 == x / 2 && y % 2 == 0) by (bit_vector)
            requires
                x % 2 == 1,
                y == x & ((x - 1) as u64),
        ;
        reveal_with_fuel(popcount, 2);
    } else {
        let h = x / 2;
        assert(h != 0 && y % 2 == 0 && y / 2 == h & ((h - 1) as u64)) by (bit_vector)
            requires
                x % 2 == 0,
                x != 0,
                h == x / 2,
                y == x & ((x - 1) as u64),
        ;
        lemma_popcount_clear_lowest(h);
        reveal_with_fuel(popcount, 2);
    }
}

/// A subset has no more set bits than the mask it lies in.
pub proof fn lemma_popcount_and_le(x: u64, m: u64)
    ensures
        popcount(x & m) <= popcount(m),
    decreases m,
{
    if m != 0 {
        let y = x & m;
        assert(y / 2 == (x / 2) & (m / 2) && y % 2 <= m % 2) by (bit_vector)
            requires
                y == x & m,
        ;
        lemma_popcount_and_le(x / 2, m / 2);
        reveal_with_fuel(popcount, 2);
        if y == 0 {
        }
    } else {
        assert(x & 0 == 0) by (bit_vector);
    }
}

/// A proper subset of a mask has fewer set bits than the mask.
pub proof fn lemma_popcount_and_lt(x: u64, m: u64)
    requires
        x & m != m,
    ensures
        popcount(x & m) < popcount(m),
    decreases m,
{
    let y = x & m;
    assert(m != 0 && y / 2 == (x / 2) & (m / 2) && y % 2 <= m % 2 && (y % 2 != m % 2 || (x / 2) & (m / 2) != m / 2))
        by (bit_vector)
        requires
            y == x & m,
            y != m,
    ;
    reveal_with_fuel(popcount, 2);
    if y % 2 != m % 2 {
        lemma_popcount_and_le(x / 2, m / 2);
    } else {
        lemma_popcount_and_lt(x / 2, m / 2);
    }
}

} // verus!
