use vstd::prelude::*;
use crate::tichu_hand::{Hand, TichuHand, in_deck, four_of_kind_bomb_spec, straight_bomb_spec, MASK_ACES, MASK_NORMAL_CARDS, MASK_YELLOW};
use crate::bits::{popcount, lemma_popcount_and_le};
use crate::analysis::gt_stats::{HandCategory, category_of, lemma_aces_at_most_four};

verus! {

/// A statistic of a hand: a pure map from a hand to one of `bins()` bins.
pub trait CountableProperty: Sized + Copy {
    /// Number of bins.
    spec fn bins(&self) -> nat;

    /// The bin of a hand.
    spec fn bin_of(&self, hand: u64) -> nat;

    /// Number of bins.
    fn upper_bound(&self) -> (r: usize)
        ensures
            r as nat == self.bins(),
            r >= 1,
    ;

    /// The bin of a hand of the deck.
    fn count(&self, hand: &Hand) -> (r: usize)
        requires
            in_deck(*hand),
        ensures
            r as nat == self.bin_of(*hand),
            r < self.bins(),
    ;
}

/// Sum of a histogram.
pub open spec fn hist_sum(s: Seq<u128>) -> int
    decreases s.len(),
{
    if s.len() == 0 {
        0
    } else {
        hist_sum(s.drop_last()) + s.last()
    }
}

/// A histogram of weighted hands.
pub struct Counter<P: CountableProperty> {
    pub property: P,
    /// Hands visited.
    pub hands_evaluated: u128,
    /// Hands visited, each with its weight.
    pub hands_counted: u128,
    /// Weighted hands per bin.
    pub property_counted: Vec<u128>,
}

impl<P: CountableProperty> Counter<P> {
    /// One bin per value of the property, and the bins sum to the weighted count.
    pub open spec fn wf(&self) -> bool {
        &&& self.property_counted@.len() == self.property.bins()
        &&& hist_sum(self.property_counted@) == self.hands_counted
    }

    /// An empty counter.
    pub fn new(property: P) -> (r: Self)
        ensures
            r.wf(),
            r.property == property,
            r.hands_evaluated == 0,
            r.hands_counted == 0,
            forall|i: int| 0 <= i < r.property_counted@.len() ==> r.property_counted@[i] == 0,
    {
        let n = property.upper_bound();
        let mut bins: Vec<u128> = Vec::new();
        let mut i: usize = 0;
        while i < n
            invariant
                i <= n,
                bins@.len() == i,
                forall|j: int| 0 <= j < i ==> bins@[j] == 0,
                hist_sum(bins@) == 0,
            decreases n - i,
        {
            let ghost before = bins@;
            bins.push(0);
            assert(bins@.drop_last() =~= before);
            i += 1;
        }
        Counter { property, hands_evaluated: 0, hands_counted: 0, property_counted: bins }
    }

    /// Records one hand with the given weight.
    pub fn count_hand(&mut self, hand: &Hand, hand_multiplicity: u128)
        requires
            old(self).wf(),
            in_deck(*hand),
            old(self).hands_counted + hand_multiplicity <= u128::MAX,
            old(self).hands_evaluated < u128::MAX,
        ensures
            final(self).wf(),
            final(self).property == old(self).property,
            final(self).hands_evaluated == old(self).hands_evaluated + 1,
            final(self).hands_counted == old(self).hands_counted + hand_multiplicity,
            final(self).property_counted@ == old(self).property_counted@.update(
                old(self).property.bin_of(*hand) as int,
                (old(self).property_counted@[old(self).property.bin_of(*hand) as int]
                    + hand_multiplicity) as u128,
            ),
    {
        let bin = self.property.count(hand);
        proof {
            lemma_hist_elem_le_sum(self.property_counted@, bin as int);
            lemma_hist_sum_update(self.property_counted@, bin as int, (self.property_counted@[bin as int] + hand_multiplicity) as u128);
        }
        self.hands_evaluated = self.hands_evaluated + 1;
        self.hands_counted = self.hands_counted + hand_multiplicity;
        let v = self.property_counted[bin] + hand_multiplicity;
        self.property_counted.set(bin, v);
    }

    /// Combines two counters of one property: bins, and both counts, add up.
    pub fn merge(self, other: Self) -> (r: Self)
        requires
            self.wf(),
            other.wf(),
            self.property.bins() == other.property.bins(),
            self.hands_counted + other.hands_counted <= u128::MAX,
            self.hands_evaluated + other.hands_evaluated <= u128::MAX,
        ensures
            r.wf(),
            r.property == self.property,
            r.hands_evaluated == self.hands_evaluated + other.hands_evaluated,
            r.hands_counted == self.hands_counted + other.hands_counted,
            r.property_counted@.len() == self.property_counted@.len(),
            forall|i: int|
                0 <= i < r.property_counted@.len() ==> r.property_counted@[i]
                    == self.property_counted@[i] + other.property_counted@[i],
    {
        let ghost a = self.property_counted@;
        let ghost b = other.property_counted@;
        let mut bins = self.property_counted;
        let n = bins.len();
        let mut i: usize = 0;
        while i < n
            invariant
                n == a.len(),
                a.len() == b.len(),
                i <= n,
                bins@.len() == n,
                hist_sum(a) + hist_sum(b) <= u128::MAX,
                forall|j: int| 0 <= j < i ==> bins@[j] == a[j] + b[j],
                forall|j: int| i <= j < n ==> bins@[j] == a[j],
                other.property_counted@ == b,
            decreases n - i,
        {
            proof {
                lemma_hist_elem_le_sum(a, i as int);
                lemma_hist_elem_le_sum(b, i as int);
            }
            let v = bins[i] + other.property_counted[i];
            bins.set(i, v);
            i += 1;
        }
        proof {
            lemma_hist_sum_pointwise(a, b, bins@);
        }
        Counter {
            property: self.property,
            hands_evaluated: self.hands_evaluated + other.hands_evaluated,
            hands_counted: self.hands_counted + other.hands_counted,
            property_counted: bins,
        }
    }

    /// Multiplies every weight by `factor`: the bins and the weighted count scale, the
    /// visit count stays.
    pub fn scale(self, factor: u128) -> (r: Self)
        requires
            self.wf(),
            self.hands_counted * factor <= u128::MAX,
        ensures
            r.wf(),
            r.property == self.property,
            r.hands_evaluated == self.hands_evaluated,
            r.hands_counted == self.hands_counted * factor,
            r.property_counted@.len() == self.property_counted@.len(),
            forall|i: int|
                0 <= i < r.property_counted@.len() ==> r.property_counted@[i]
                    == self.property_counted@[i] * factor,
    {
        let ghost a = self.property_counted@;
        let mut bins = self.property_counted;
        let n = bins.len();
        let mut i: usize = 0;
        while i < n
            invariant
                n == a.len(),
                i <= n,
                bins@.len() == n,
                hist_sum(a) * factor <= u128::MAX,
                forall|j: int| 0 <= j < i ==> bins@[j] == a[j] * factor,
                forall|j: int| i <= j < n ==> bins@[j] == a[j],
            decreases n - i,
        {
            proof {
                lemma_hist_elem_le_sum(a, i as int);
                assert(a[i as int] * factor <= hist_sum(a) * factor) by (nonlinear_arith)
                    requires
                        a[i as int] <= hist_sum(a),
                ;
            }
            let v = bins[i] * factor;
            bins.set(i, v);
            i += 1;
        }
        proof {
            lemma_hist_sum_scaled(a, factor as int, bins@);
        }
        Counter {
            property: self.property,
            hands_evaluated: self.hands_evaluated,
            hands_counted: self.hands_counted * factor,
            property_counted: bins,
        }
    }
}

pub proof fn lemma_hist_sum_nonneg(s: Seq<u128>)
    ensures
        hist_sum(s) >= 0,
    decreases s.len(),
{
    if s.len() > 0 {
        lemma_hist_sum_nonneg(s.drop_last());
    }
}

/// Each bin is at most the sum.
pub proof fn lemma_hist_elem_le_sum(s: Seq<u128>, i: int)
    requires
        0 <= i < s.len(),
    ensures
        s[i] <= hist_sum(s),
    decreases s.len(),
{
    lemma_hist_sum_nonneg(s.drop_last());
    if i < s.len() - 1 {
        lemma_hist_elem_le_sum(s.drop_last(), i);
    }
}

/// Changing one bin changes the sum by the difference.
pub proof fn lemma_hist_sum_update(s: Seq<u128>, i: int, v: u128)
    requires
        0 <= i < s.len(),
    ensures
        hist_sum(s.update(i, v)) == hist_sum(s) - s[i] + v,
    decreases s.len(),
{
    let t = s.update(i, v);
    if i == s.len() - 1 {
        assert(t.drop_last() =~= s.drop_last());
    } else {
        assert(t.drop_last() =~= s.drop_last().update(i, v));
        lemma_hist_sum_update(s.drop_last(), i, v);
    }
}

/// The sum of a pointwise sum is the sum of the sums.
pub proof fn lemma_hist_sum_pointwise(a: Seq<u128>, b: Seq<u128>, c: Seq<u128>)
    requires
        a.len() == b.len(),
        c.len() == a.len(),
        forall|j: int| 0 <= j < c.len() ==> c[j] == a[j] + b[j],
    ensures
        hist_sum(c) == hist_sum(a) + hist_sum(b),
    decreases c.len(),
{
    if c.len() > 0 {
        lemma_hist_sum_pointwise(a.drop_last(), b.drop_last(), c.drop_last());
    }
}

/// The sum of a scaled histogram is the scaled sum.
pub proof fn lemma_hist_sum_scaled(a: Seq<u128>, k: int, c: Seq<u128>)
    requires
        c.len() == a.len(),
        forall|j: int| 0 <= j < c.len() ==> c[j] == a[j] * k,
    ensures
        hist_sum(c) == hist_sum(a) * k,
    decreases c.len(),
{
    if c.len() > 0 {
        lemma_hist_sum_scaled(a.drop_last(), k, c.drop_last());
        let x = hist_sum(a.drop_last());
        let y = a.last() as int;
        assert((x + y) * k == x * k + y * k) by (nonlinear_arith);
    }
}

/// Every hand falls in the single bin.
#[derive(Debug, Clone, Copy)]
pub struct CountAll;

/// Whether a hand holds a bomb of either kind.
#[derive(Debug, Clone, Copy)]
pub struct CountBombs0_1;

/// Whether a hand holds four cards of one rank.
#[derive(Debug, Clone, Copy)]
pub struct CountBombsFourOfKind0_1;

/// Whether a hand holds five consecutive ranks in one column.
#[derive(Debug, Clone, Copy)]
pub struct CountBombsStraights0_1;

/// The `HandCategory` of a hand.
#[derive(Debug, Clone, Copy)]
pub struct CountHandCategory;

/// Whether a hand holds all four aces.
#[derive(Debug, Clone, Copy)]
pub struct CountHasFourAces0_1;

/// One less than the longest run of consecutive ranks held, in any columns.
#[derive(Debug, Clone, Copy)]
pub struct CountLongestStraight;

/// One less than the longest run of consecutive ranks held within one column.
#[derive(Debug, Clone, Copy)]
pub struct CountLongestStraightFlush;

pub open spec fn bin_flag(b: bool) -> nat {
    if b { 1 } else { 0 }
}

/// How many times `x & (x >> 1)` can be taken before it becomes 0, up to `fuel`: one
/// less than the length of the longest run of set bits.
pub open spec fn run_steps(x: u64, fuel: nat) -> nat
    decreases fuel,
{
    if fuel == 0 {
        0
    } else if x & (x >> 1u64) != 0 {
        1 + run_steps(x & (x >> 1u64), (fuel - 1) as nat)
    } else {
        0
    }
}

/// Ranks held in any column, at bits 1 to 13.
pub open spec fn ranks_in_yellow(hand: u64) -> u64 {
    ((hand >> 16u64) | (hand >> 32u64) | (hand >> 48u64) | hand) & MASK_YELLOW
}

/// Positions `j` whose column offset lies in `[1, 13 - k]`, in all four columns.
pub open spec fn run_region(k: u64) -> u64 {
    (((0x3FFEu64 >> k) & 0x3FFEu64) * 0x0001_0001_0001_0001u64) as u64
}

proof fn lemma_run_region_step(x: u64, k: u64)
    requires
        k < 13,
        x & run_region(k) == x,
    ensures
        (x & (x >> 1u64)) & run_region((k + 1) as u64) == x & (x >> 1u64),
        x & (x >> 1u64) <= x,
{
    assert((x & (x >> 1u64)) & run_region((k + 1) as u64) == x & (x >> 1u64) && x & (x >> 1u64) <= x)
        by (bit_vector)
        requires
            k < 13,
            x & ((((0x3FFEu64 >> k) & 0x3FFEu64) * 0x0001_0001_0001_0001u64) as u64) == x,
    ;
}

proof fn lemma_run_region_last(x: u64, k: u64)
    requires
        k <= 13,
        x & run_region(k) == x,
        x & (x >> 1u64) != 0,
    ensures
        k < 12,
{
    assert(k < 12) by (bit_vector)
        requires
            k <= 13,
            x & ((((0x3FFEu64 >> k) & 0x3FFEu64) * 0x0001_0001_0001_0001u64) as u64) == x,
            x & (x >> 1u64) != 0,
    ;
}

/// Counts the `x & (x >> 1)` steps of a word whose set bits lie at column offsets 1 to
/// 13; the count is at most 12.
fn longest_run_steps(x0: u64) -> (r: usize)
    requires
        x0 & run_region(0) == x0,
    ensures
        r == run_steps(x0, 13),
        r <= 12,
{
    let mut x = x0;
    let mut steps: usize = 0;
    while x & (x >> 1u64) != 0
        invariant
            steps <= 12,
            x & run_region(steps as u64) == x,
            steps + run_steps(x, (13 - steps) as nat) == run_steps(x0, 13),
        decreases 13 - steps,
    {
        proof {
            lemma_run_region_last(x, steps as u64);
            lemma_run_region_step(x, steps as u64);
        }
        x = x & (x >> 1u64);
        steps = steps + 1;
    }
    proof {
        assert(run_steps(x, (13 - steps) as nat) == 0);
    }
    steps
}

impl CountableProperty for CountAll {
    open spec fn bins(&self) -> nat {
        1
    }

    open spec fn bin_of(&self, hand: u64) -> nat {
        0
    }

    fn upper_bound(&self) -> (r: usize) {
        1
    }

    fn count(&self, hand: &Hand) -> (r: usize) {
        0
    }
}

impl CountableProperty for CountBombs0_1 {
    open spec fn bins(&self) -> nat {
        2
    }

    open spec fn bin_of(&self, hand: u64) -> nat {
        bin_flag(four_of_kind_bomb_spec(hand) || straight_bomb_spec(hand))
    }

    fn upper_bound(&self) -> (r: usize) {
        2
    }

    fn count(&self, hand: &Hand) -> (r: usize) {
        if hand.contains_four_of_kind_bomb() || hand.contains_straight_bomb() {
            1
        } else {
            0
        }
    }
}

impl CountableProperty for CountBombsFourOfKind0_1 {
    open spec fn bins(&self) -> nat {
        2
    }

    open spec fn bin_of(&self, hand: u64) -> nat {
        bin_flag(four_of_kind_bomb_spec(hand))
    }

    fn upper_bound(&self) -> (r: usize) {
        2
    }

    fn count(&self, hand: &Hand) -> (r: usize) {
        if hand.contains_four_of_kind_bomb() {
            1
        } else {
            0
        }
    }
}

impl CountableProperty for CountBombsStraights0_1 {
    open spec fn bins(&self) -> nat {
        2
    }

    open spec fn bin_of(&self, hand: u64) -> nat {
        bin_flag(straight_bomb_spec(hand))
    }

    fn upper_bound(&self) -> (r: usize) {
        2
    }

    fn count(&self, hand: &Hand) -> (r: usize) {
        if hand.contains_straight_bomb() {
            1
        } else {
            0
        }
    }
}

impl CountableProperty for CountHandCategory {
    open spec fn bins(&self) -> nat {
        80
    }

    open spec fn bin_of(&self, hand: u64) -> nat {
        category_of(hand)
    }

    fn upper_bound(&self) -> (r: usize) {
        80
    }

    fn count(&self, hand: &Hand) -> (r: usize) {
        HandCategory::categorize_hand(hand).0
    }
}

impl CountableProperty for CountHasFourAces0_1 {
    open spec fn bins(&self) -> nat {
        2
    }

    open spec fn bin_of(&self, hand: u64) -> nat {
        bin_flag(popcount(hand & MASK_ACES) == 4)
    }

    fn upper_bound(&self) -> (r: usize) {
        2
    }

    fn count(&self, hand: &Hand) -> (r: usize) {
        if (*hand & MASK_ACES).count_ones() == 4 {
            1
        } else {
            0
        }
    }
}

impl CountableProperty for CountLongestStraight {
    open spec fn bins(&self) -> nat {
        13
    }

    open spec fn bin_of(&self, hand: u64) -> nat {
        run_steps(ranks_in_yellow(hand), 13)
    }

    fn upper_bound(&self) -> (r: usize) {
        13
    }

    fn count(&self, hand: &Hand) -> (r: usize) {
        let hand_in_yellow = ((*hand >> 16u64) | (*hand >> 32u64) | (*hand >> 48u64) | *hand)
            & MASK_YELLOW;
        proof {
            assert(hand_in_yellow & run_region(0) == hand_in_yellow) by (bit_vector)
                requires
                    hand_in_yellow == ((*hand >> 16u64) | (*hand >> 32u64) | (*hand >> 48u64) | *hand) & MASK_YELLOW,
            ;
        }
        longest_run_steps(hand_in_yellow)
    }
}

impl CountableProperty for CountLongestStraightFlush {
    open spec fn bins(&self) -> nat {
        13
    }

    open spec fn bin_of(&self, hand: u64) -> nat {
        run_steps(hand & MASK_NORMAL_CARDS, 13)
    }

    fn upper_bound(&self) -> (r: usize) {
        13
    }

    fn count(&self, hand: &Hand) -> (r: usize) {
        let normal = *hand & MASK_NORMAL_CARDS;
        proof {
            assert(normal & run_region(0) == normal) by (bit_vector)
                requires
                    normal == *hand & MASK_NORMAL_CARDS,
                    *hand & 0x3FFF_3FFF_3FFF_3FFFu64 == *hand,
            ;
        }
        longest_run_steps(normal)
    }
}

} // verus!
