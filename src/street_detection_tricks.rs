use vstd::prelude::*;
use vstd::std_specs::bits::{u64_trailing_zeros, u64_leading_zeros};
use crate::bits::{popcount, lemma_popcount_bound};
use crate::tichu_hand::{Hand, CardType, MASK_YELLOW, MAHJONG_BIT, PHOENIX_BIT};

verus! {

broadcast use vstd::std_specs::bits::axiom_u64_trailing_zeros, vstd::std_specs::bits::axiom_u64_leading_zeros;

/// The rank profile of a hand: bit `r` (1 to 13) is set when rank `r` is held in any
/// column, bit 0 holds the mahjong and bit 14 the phoenix.
pub open spec fn rank_profile(hand: u64) -> u64 {
    (((hand >> 16u64) | (hand >> 32u64) | (hand >> 48u64) | hand) & MASK_YELLOW) | ((hand
        & MAHJONG_BIT) >> 48u64) | ((hand & PHOENIX_BIT) << 14u64)
}

/// Whether a rank profile (bits 0 to 14 as laid out by `rank_profile`) is a run of at
/// least five cards: the held ranks, with the mahjong as rank 0, span no more positions
/// than there are cards, counting the phoenix as one hole filler.  The phoenix never
/// stands in for the mahjong, so the full run from two to ace plus phoenix is no street.
pub open spec fn street_profile(p: u64) -> bool {
    let has_phoenix = (p >> 14u64) & 1u64 != 0;
    let m = p & 0x3FFFu64;
    &&& popcount(p) >= 5
    &&& !(has_phoenix && p == 0x7FFEu64)
    &&& m != 0
    // highest bit + 1 - lowest bit <= cards (+ phoenix)
    &&& 64 <= popcount(m) + (if has_phoenix { 1int } else { 0int }) + u64_trailing_zeros(m)
        + u64_leading_zeros(m)
}

/// The lowest rank of a street, before the phoenix is placed.
pub open spec fn street_spec(hand: u64) -> Option<CardType> {
    let p = rank_profile(hand);
    if popcount(p) == popcount(hand) && street_profile(p) {
        Some(u64_trailing_zeros(p) as u8)
    } else {
        None
    }
}

/// Whether a phoenix is in the hand and the rest is a gapless run of at least four ranks.
pub open spec fn phoenix_extends_spec(hand: u64) -> bool {
    let p = rank_profile(hand ^ PHOENIX_BIT);
    &&& hand & PHOENIX_BIT != 0
    &&& popcount(p) >= 4
    &&& 64 == popcount(p) + u64_trailing_zeros(p) + u64_leading_zeros(p)
}

/// Packs a hand into its rank profile.
pub fn prepare_hand(hand: Hand) -> (r: u64)
    ensures
        r == rank_profile(hand),
        r < 0x8000,
{
    let r = (((hand >> 16u64) | (hand >> 32u64) | (hand >> 48u64) | hand) & MASK_YELLOW) | ((hand
        & MAHJONG_BIT) >> 48u64) | ((hand & PHOENIX_BIT) << 14u64);
    proof {
        assert(r < 0x8000) by (bit_vector)
            requires
                r == (((hand >> 16u64) | (hand >> 32u64) | (hand >> 48u64) | hand) & MASK_YELLOW)
                    | ((hand & MAHJONG_BIT) >> 48u64) | ((hand & PHOENIX_BIT) << 14u64),
        ;
    }
    r
}

/// Decides whether a rank profile is a street; see `street_profile`.
pub fn is_street_slow(prepared_hand: u64) -> (r: bool)
    ensures
        r == street_profile(prepared_hand),
{
    let total = prepared_hand.count_ones();
    if total < 5 {
        return false;
    }
    let has_phoenix: bool = (prepared_hand >> 14u64) & 1u64 != 0u64;
    if has_phoenix && prepared_hand == 0x7FFEu64 {
        return false;
    }
    let m = prepared_hand & 0x3FFFu64;
    if m == 0 {
        return false;
    }
    let lsb = m.trailing_zeros();
    let lz = m.leading_zeros();
    let cnt = m.count_ones();
    proof {
        lemma_popcount_bound(m);
    }
    let extra: u32 = if has_phoenix { 1 } else { 0 };
    64 <= cnt + extra + lsb + lz
}

/// The lowest rank of the street that the hand forms, if it forms one; the phoenix
/// is not yet placed.
pub fn is_street_fast(hand: Hand) -> (r: Option<CardType>)
    ensures
        r == street_spec(hand),
{
    let prepared = prepare_hand(hand);
    if prepared.count_ones() == hand.count_ones() && is_street_slow(prepared) {
        Some(prepared.trailing_zeros() as CardType)
    } else {
        None
    }
}

/// True exactly for hands with the phoenix whose other cards form a gapless run of at
/// least four ranks, so that the phoenix lengthens the run instead of filling a hole.
pub fn phoenix_used_as_street_extension(hand: Hand) -> (r: bool)
    ensures
        r == phoenix_extends_spec(hand),
{
    if hand & PHOENIX_BIT == 0 {
        return false;
    }
    let prepared = prepare_hand(hand ^ PHOENIX_BIT);
    let cnt = prepared.count_ones();
    let lsb = prepared.trailing_zeros();
    let lz = prepared.leading_zeros();
    proof {
        lemma_popcount_bound(prepared);
    }
    cnt >= 4 && 64 == cnt + lsb + lz
}

/// Profiles packed per table entry, as a shift.
pub const PACKING_BITS: u64 = 6;
pub const PACKING_BITS_MASK: u64 = 63;

/// Number of table entries: the 15-bit profiles, 64 to an entry.
pub const ARRAY_ENTRIES: usize = 512;

/// Table entry `i` as far as its first `j` bits: bit `k` answers `street_profile` for
/// the profile `64 * i + k`.
pub open spec fn table_entry(i: int, j: nat) -> u64
    decreases j,
{
    if j == 0 {
        0
    } else {
        table_entry(i, (j - 1) as nat) | ((if street_profile((i * 64 + j - 1) as u64) {
            1u64
        } else {
            0u64
        }) << ((j - 1) as u64))
    }
}

proof fn lemma_table_entry_bits(i: int, j: nat)
    requires
        j <= 64,
    ensures
        forall|k: u64| k < 64 ==> (#[trigger] ((table_entry(i, j) >> k) & 1u64) == 1u64 <==> (k < j
            && street_profile((i * 64 + k) as u64))),
    decreases j,
{
    if j == 0 {
        assert forall|k: u64| k < 64 implies ((0u64 >> k) & 1u64) != 1u64 by {
            assert((0u64 >> k) & 1u64 == 0u64) by (bit_vector);
        }
    } else {
        lemma_table_entry_bits(i, (j - 1) as nat);
        let prev = table_entry(i, (j - 1) as nat);
        let b: u64 = if street_profile((i * 64 + j - 1) as u64) { 1u64 } else { 0u64 };
        let s = (j - 1) as u64;
        assert forall|k: u64| k < 64 implies (#[trigger] ((table_entry(i, j) >> k) & 1u64) == 1u64 <==> (((prev >> k) & 1u64) == 1u64 || (k == s && b == 1u64))) by {
            let e = table_entry(i, j);
            assert(((e >> k) & 1u64) == 1u64 <==> (((prev >> k) & 1u64) == 1u64 || (k == s && b == 1u64))) by (bit_vector)
                requires
                    e == prev | (b << s),
                    s < 64,
                    k < 64,
                    b == 0u64 || b == 1u64,
            ;
        }
    }
}

/// The street answer of every rank profile, built once and read by a shift and a mask.
pub struct StreetTable {
    pub entries: Vec<u64>,
}

impl StreetTable {
    /// Every entry holds the answers of its 64 profiles.
    pub open spec fn wf(&self) -> bool {
        &&& self.entries@.len() == ARRAY_ENTRIES
        &&& forall|i: int| 0 <= i < ARRAY_ENTRIES ==> #[trigger] self.entries@[i] == table_entry(i, 64)
    }

    /// Fills the table by deciding every profile with `is_street_slow`.  The entries are
    /// a function of their index alone, so two tables built are equal.
    pub fn new() -> (r: StreetTable)
        ensures
            r.wf(),
    {
        let mut entries: Vec<u64> = Vec::new();
        let mut i: usize = 0;
        while i < ARRAY_ENTRIES
            invariant
                i <= ARRAY_ENTRIES,
                entries@.len() == i,
                forall|k: int| 0 <= k < i ==> #[trigger] entries@[k] == table_entry(k, 64),
            decreases ARRAY_ENTRIES - i,
        {
            let start = (i as u64) * 64;
            let mut entry: u64 = 0;
            let mut j: u64 = 0;
            while j < 64
                invariant
                    j <= 64,
                    i < ARRAY_ENTRIES,
                    start == i * 64,
                    entry == table_entry(i as int, j as nat),
                decreases 64 - j,
            {
                let bit: u64 = if is_street_slow(start + j) { 1 } else { 0 };
                entry = entry | (bit << j);
                j += 1;
            }
            entries.push(entry);
            i += 1;
        }
        StreetTable { entries }
    }

    /// Whether a rank profile is a street, read from the table.
    pub fn contains(&self, prepared: u64) -> (r: bool)
        requires
            self.wf(),
            prepared < 0x8000,
        ensures
            r == street_profile(prepared),
    {
        let index = (prepared >> PACKING_BITS) as usize;
        let bit = prepared & PACKING_BITS_MASK;
        proof {
            assert(prepared >> 6u64 < 512 && prepared == (prepared >> 6u64) * 64 + (prepared & 63u64)
                && prepared & 63u64 < 64) by (bit_vector)
                requires
                    prepared < 0x8000,
            ;
            lemma_table_entry_bits(index as int, 64);
        }
        (self.entries[index] >> bit) & 1u64 == 1u64
    }
}

/// Building the table twice gives the same entries, word for word.
pub proof fn lemma_street_table_unique(a: StreetTable, b: StreetTable)
    requires
        a.wf(),
        b.wf(),
    ensures
        a.entries@ == b.entries@,
{
    assert(a.entries@ =~= b.entries@);
}

/// `is_street_fast` with the profile looked up in a table.
pub fn is_street_fast_in(table: &StreetTable, hand: Hand) -> (r: Option<CardType>)
    requires
        table.wf(),
    ensures
        r == street_spec(hand),
{
    let prepared = prepare_hand(hand);
    if prepared.count_ones() == hand.count_ones() && table.contains(prepared) {
        Some(prepared.trailing_zeros() as CardType)
    } else {
        None
    }
}

} // verus!
