use vstd::prelude::*;
use crate::countable_properties::{CountableProperty, Counter};
use crate::bits::{popcount, lemma_popcount_bound};
use crate::tichu_hand::{Hand, in_deck, four_of_kind_mask, four_of_kind_spec, MASK_YELLOW, MASK_BLUE, MASK_GREEN, MASK_RED, MASK_ALL, PHOENIX_BIT, DOG_BIT, DRAGON_BIT, MAHJONG_BIT};

verus! {

/// How the four special cards are framed around the search over the suited cards.
#[derive(Clone, Copy, PartialEq, Eq, Structural, Debug)]
pub enum SpecialCardStrategy {
    /// One search per number of special cards, weighted by 1, 4, 6, 4, 1.  Correct only
    /// for properties that do not tell the special cards apart.
    GroupedByCount,
    /// One search for each of the 16 sets of special cards.
    AllSubsets,
}

pub open spec fn pow6(e: nat) -> nat
    decreases e,
{
    if e == 0 {
        1
    } else {
        6 * pow6((e - 1) as nat)
    }
}

/// An upper bound on the visits of a search over `k` more ranks: five multiplicities per
/// rank times at most `6^13` suit choices below.
pub open spec fn up_visits(k: nat) -> nat
    decreases k,
{
    if k == 0 {
        pow6(13)
    } else {
        5 * up_visits((k - 1) as nat)
    }
}

proof fn lemma_pow6_mono(a: nat, b: nat)
    requires
        a <= b,
    ensures
        1 <= pow6(a) <= pow6(b),
    decreases b,
{
    if b > 0 {
        if a < b {
            lemma_pow6_mono(a, (b - 1) as nat);
        } else {
            lemma_pow6_mono((a - 1) as nat, (b - 1) as nat);
        }
    }
}

proof fn lemma_up_visits_total()
    ensures
        up_visits(13) == 15_943_230_000_000_000_000,
{
    reveal_with_fuel(pow6, 14);
    reveal_with_fuel(up_visits, 14);
}

/// What a counter has recorded: hands visited, weighted hands, and the bins.
pub type Tally = (int, int, Seq<u128>);

pub open spec fn tally_of<P: CountableProperty>(c: Counter<P>) -> Tally {
    (c.hands_evaluated as int, c.hands_counted as int, c.property_counted@)
}

/// A fresh counter of `kind`.
pub open spec fn empty_tally<P: CountableProperty>(kind: P) -> Tally {
    (0, 0, Seq::new(kind.bins(), |i: int| 0u128))
}

/// One hand recorded with weight `mult`.
pub open spec fn record_spec<P: CountableProperty>(prop: P, t: Tally, hand: u64, mult: int) -> Tally {
    let bin = prop.bin_of(hand) as int;
    (t.0 + 1, t.1 + mult, t.2.update(bin, (t.2[bin] + mult) as u128))
}

/// Two tallies added up.
pub open spec fn merge_spec(a: Tally, b: Tally) -> Tally {
    (a.0 + b.0, a.1 + b.1, Seq::new(a.2.len(), |i: int| (a.2[i] + b.2[i]) as u128))
}

/// A tally with every weight multiplied by `k`.
pub open spec fn scale_spec(a: Tally, k: int) -> Tally {
    (a.0, a.1 * k, Seq::new(a.2.len(), |i: int| (a.2[i] * k) as u128))
}

/// Which of the column orders are still ties: bit 0 yellow/blue, 1 blue/green, 2 green/red.
pub open spec fn class_id(y: bool, b: bool, g: bool) -> u8 {
    ((if y { 0u8 } else { 1u8 }) + (if b { 0u8 } else { 2u8 }) + (if g { 0u8 } else { 4u8 })) as u8
}

/// Number of hands a permutation of the columns makes of a canonical hand with these ties.
pub open spec fn class_size_spec(id: u8) -> int {
    if id == 0 {
        24
    } else if id == 1 || id == 2 || id == 4 {
        12
    } else if id == 3 || id == 6 {
        4
    } else if id == 5 {
        6
    } else {
        1
    }
}

/// The `choice`-th placement of `amount` cards of one rank, if the column order allows
/// it: the columns, and the flags afterwards.
pub open spec fn column_choice_spec(amount: u32, choice: int, y: bool, b: bool, g: bool) -> Option<(u64, bool, bool, bool)> {
    if amount == 0 && choice == 0 {
        Some((0u64, y, b, g))
    } else if amount == 4 && choice == 0 {
        Some((MASK_ALL, y, b, g))
    } else if amount == 1 && choice == 0 {
        Some((MASK_YELLOW, true, b, g))
    } else if amount == 1 && choice == 1 && y {
        Some((MASK_BLUE, true, true, g))
    } else if amount == 1 && choice == 2 && b {
        Some((MASK_GREEN, y, true, true))
    } else if amount == 1 && choice == 3 && g {
        Some((MASK_RED, y, b, true))
    } else if amount == 3 && choice == 0 && y {
        Some((MASK_BLUE | MASK_GREEN | MASK_RED, true, b, g))
    } else if amount == 3 && choice == 1 && b {
        Some((MASK_YELLOW | MASK_GREEN | MASK_RED, true, true, g))
    } else if amount == 3 && choice == 2 && g {
        Some((MASK_YELLOW | MASK_BLUE | MASK_RED, y, true, true))
    } else if amount == 3 && choice == 3 {
        Some((MASK_YELLOW | MASK_BLUE | MASK_GREEN, y, b, true))
    } else if amount == 2 && choice == 0 {
        Some((MASK_YELLOW | MASK_BLUE, y, true, g))
    } else if amount == 2 && choice == 1 && b {
        Some((MASK_YELLOW | MASK_GREEN, true, true, true))
    } else if amount == 2 && choice == 2 && g {
        Some((MASK_YELLOW | MASK_RED, true, b, true))
    } else if amount == 2 && choice == 3 && y {
        Some((MASK_BLUE | MASK_GREEN, true, b, true))
    } else if amount == 2 && choice == 4 && y && g {
        Some((MASK_BLUE | MASK_RED, true, true, true))
    } else if amount == 2 && choice == 5 && b {
        Some((MASK_GREEN | MASK_RED, y, true, g))
    } else {
        None
    }
}

/// The column placement search: `prefix[r - 1]` cards of rank `r` are still to be placed,
/// highest rank (the end of `prefix`) first.
pub open spec fn down_spec<P: CountableProperty>(prop: P, prefix: Seq<u32>, hand: u64, y: bool, b: bool, g: bool, target: u32, t: Tally) -> Tally
    decreases prefix.len(), 7int,
{
    if popcount(hand) == target {
        record_spec(prop, t, hand, class_size_spec(class_id(y, b, g)))
    } else if prefix.len() == 0 {
        t
    } else {
        choices_spec(prop, prefix, hand, y, b, g, target, 0, t)
    }
}

/// The placements `choice` to 5 of the highest rank still to place, one after the other.
pub open spec fn choices_spec<P: CountableProperty>(prop: P, prefix: Seq<u32>, hand: u64, y: bool, b: bool, g: bool, target: u32, choice: int, t: Tally) -> Tally
    decreases prefix.len(), 6 - choice,
{
    if prefix.len() == 0 || choice >= 6 || choice < 0 {
        t
    } else {
        let rank = prefix.len();
        let after = match column_choice_spec(prefix.last(), choice, y, b, g) {
            Some((columns, y2, b2, g2)) => down_spec(prop, prefix.drop_last(), hand ^ (four_of_kind_spec(rank as u8) & columns), y2, b2, g2, target, t),
            None => t,
        };
        choices_spec(prop, prefix, hand, y, b, g, target, choice + 1, after)
    }
}

/// The multiplicity search: `prefix` holds the multiplicities chosen for the lowest
/// ranks, `sum` the cards so far.
pub open spec fn up_spec<P: CountableProperty>(prop: P, prefix: Seq<u32>, special: u64, sum: int, target: u32, t: Tally) -> Tally
    decreases 13 - prefix.len(), 6int,
{
    if sum == target {
        down_spec(prop, prefix, special, false, false, false, target, t)
    } else if sum > target || prefix.len() >= 13 || sum + (13 - prefix.len()) * 4 < target {
        t
    } else {
        amounts_spec(prop, prefix, special, sum, target, 0, t)
    }
}

/// The multiplicities `amount` to 4 of the next rank, one after the other.
pub open spec fn amounts_spec<P: CountableProperty>(prop: P, prefix: Seq<u32>, special: u64, sum: int, target: u32, amount: int, t: Tally) -> Tally
    decreases 13 - prefix.len(), 5 - amount,
{
    if prefix.len() >= 13 || amount > 4 || amount < 0 {
        t
    } else {
        amounts_spec(prop, prefix, special, sum, target, amount + 1, up_spec(prop, prefix.push(amount as u32), special, sum + amount, target, t))
    }
}

/// The special cards searched for a given number of them.
pub open spec fn special_of_amount(amount: int) -> u64 {
    if amount == 0 {
        0
    } else if amount == 1 {
        DRAGON_BIT
    } else if amount == 2 {
        DRAGON_BIT | PHOENIX_BIT
    } else if amount == 3 {
        DRAGON_BIT | PHOENIX_BIT | DOG_BIT
    } else {
        DRAGON_BIT | PHOENIX_BIT | DOG_BIT | MAHJONG_BIT
    }
}

/// Number of sets of `amount` special cards.
pub open spec fn frequency_of_amount(amount: int) -> int {
    if amount == 0 || amount == 4 {
        1
    } else if amount == 2 {
        6
    } else {
        4
    }
}

/// The special cards of a subset: bit 0 phoenix, 1 dog, 2 dragon, 3 mahjong.
pub open spec fn special_of_subset(subset: u64) -> u64 {
    (subset & 1) | (((subset >> 1u64) & 1) << 16u64) | (((subset >> 2u64) & 1) << 32u64) | (((subset >> 3u64) & 1) << 48u64)
}

/// The searches by number of special cards, from `step` (4 - number) on, added to `acc`.
pub open spec fn grouped_spec<P: CountableProperty>(kind: P, target: u32, step: int, acc: Tally) -> Tally
    decreases 5 - step,
{
    if step >= 5 || step < 0 {
        acc
    } else {
        let amount = 4 - step;
        let local = up_spec(kind, Seq::empty(), special_of_amount(amount), amount, target, empty_tally(kind));
        grouped_spec(kind, target, step + 1, merge_spec(acc, scale_spec(local, frequency_of_amount(amount))))
    }
}

/// The searches for the special card subsets from `bits` on, added to `acc`.
pub open spec fn subsets_spec<P: CountableProperty>(kind: P, target: u32, bits: int, acc: Tally) -> Tally
    decreases 16 - bits,
{
    if bits >= 16 || bits < 0 {
        acc
    } else {
        let special = special_of_subset(bits as u64);
        let local = up_spec(kind, Seq::empty(), special, popcount(special) as int, target, empty_tally(kind));
        subsets_spec(kind, target, bits + 1, merge_spec(acc, local))
    }
}

/// What the search records for a property, a hand size and a framing of the special cards.
pub open spec fn enumerate_spec<P: CountableProperty>(kind: P, target: u32, strategy: SpecialCardStrategy) -> Tally {
    match strategy {
        SpecialCardStrategy::GroupedByCount => grouped_spec(kind, target, 0, empty_tally(kind)),
        SpecialCardStrategy::AllSubsets => subsets_spec(kind, target, 0, empty_tally(kind)),
    }
}

/// Two searches with the same property, hand size and strategy record the same thing:
/// every result that the contract of `enumerate` admits has the same counts and bins.
pub proof fn lemma_enumerate_repeatable<P: CountableProperty>(
    kind: P,
    target: u32,
    strategy: SpecialCardStrategy,
    first: Counter<P>,
    second: Counter<P>,
)
    requires
        tally_of(first) == enumerate_spec(kind, target, strategy),
        tally_of(second) == enumerate_spec(kind, target, strategy),
    ensures
        first.hands_evaluated == second.hands_evaluated,
        first.hands_counted == second.hands_counted,
        first.property_counted@ == second.property_counted@,
{
}

/// Merging tallies does not depend on the order: it is commutative.
pub proof fn lemma_merge_commutative(a: Tally, b: Tally)
    requires
        a.2.len() == b.2.len(),
    ensures
        merge_spec(a, b) == merge_spec(b, a),
{
    assert(merge_spec(a, b).2 =~= merge_spec(b, a).2);
}

/// Merging tallies does not depend on the grouping: it is associative, as long as no bin
/// leaves the range of a count.
pub proof fn lemma_merge_associative(a: Tally, b: Tally, c: Tally)
    requires
        a.2.len() == b.2.len(),
        b.2.len() == c.2.len(),
        forall|i: int| 0 <= i < a.2.len() ==> a.2[i] + b.2[i] + c.2[i] <= u128::MAX,
    ensures
        merge_spec(merge_spec(a, b), c) == merge_spec(a, merge_spec(b, c)),
{
    assert(merge_spec(merge_spec(a, b), c).2 =~= merge_spec(a, merge_spec(b, c)).2);
}

/// Scaling distributes over merging, as long as no bin leaves the range of a count.
pub proof fn lemma_scale_distributes(a: Tally, b: Tally, k: int)
    requires
        a.2.len() == b.2.len(),
        k >= 0,
        forall|i: int| 0 <= i < a.2.len() ==> (a.2[i] + b.2[i]) * k <= u128::MAX,
    ensures
        scale_spec(merge_spec(a, b), k) == merge_spec(scale_spec(a, k), scale_spec(b, k)),
{
    assert forall|i: int| 0 <= i < a.2.len() implies #[trigger] scale_spec(merge_spec(a, b), k).2[i]
        == merge_spec(scale_spec(a, k), scale_spec(b, k)).2[i] by {
        let x = a.2[i] as int;
        let y = b.2[i] as int;
        assert((x + y) * k == x * k + y * k) by (nonlinear_arith);
        assert(x * k <= (x + y) * k && y * k <= (x + y) * k) by (nonlinear_arith)
            requires
                k >= 0,
                x >= 0,
                y >= 0,
        ;
        if k == 0 {
            assert(((x + y) as u128) * k == 0) by (nonlinear_arith)
                requires
                    k == 0,
            ;
        } else {
            assert(x + y <= (x + y) * k) by (nonlinear_arith)
                requires
                    k >= 1,
                    x + y >= 0,
            ;
        }
    }
    assert((a.1 + b.1) * k == a.1 * k + b.1 * k) by (nonlinear_arith);
    assert(scale_spec(merge_spec(a, b), k).2 =~= merge_spec(scale_spec(a, k), scale_spec(b, k)).2);
}

/// Size of the class of hands that a permutation of the four columns yields from a
/// canonical one; bit 0, 1, 2 of `id` says that columns (yellow, blue), (blue, green),
/// (green, red) are still equal.
pub fn symmetry_class_size(id: u8) -> (r: u128)
    ensures
        r as int == class_size_spec(id),
        1 <= r <= 24,
        id == 0 ==> r == 24,
        id == 1 || id == 2 || id == 4 ==> r == 12,
        id == 3 || id == 6 ==> r == 4,
        id == 5 ==> r == 6,
        id == 7 ==> r == 1,
{
    match id {
        0 => 24,
        1 => 12,
        2 => 12,
        3 => 4,
        4 => 12,
        5 => 6,
        6 => 4,
        _ => 1,
    }
}

proof fn lemma_xor_in_deck(h: u64, a: u64)
    requires
        in_deck(h),
        in_deck(a),
    ensures
        in_deck(h ^ a),
{
    assert((h ^ a) & MASK_ALL == h ^ a) by (bit_vector)
        requires
            h & MASK_ALL == h,
            a & MASK_ALL == a,
    ;
}

/// The cards of one rank in the columns of `columns`.
fn rank_cards(rank: usize, columns: u64) -> (r: Hand)
    requires
        1 <= rank <= 13,
    ensures
        in_deck(r),
        r == four_of_kind_spec(rank as u8) & columns,
{
    let m = four_of_kind_mask(rank as u8);
    let r = m & columns;
    proof {
        assert(r & MASK_ALL == r) by (bit_vector)
            requires
                m & MASK_ALL == m,
                r == m & columns,
        ;
    }
    r
}

/// Places the chosen multiplicities of the ranks below `current_index` into concrete
/// columns, highest rank first, visiting only hands whose columns stay ordered
/// yellow >= blue >= green >= red rank by rank from the top; each flag records that one of
/// those orders has already become strict.  A complete hand is recorded with the size of
/// its class.
fn count_property_recursive_downwards<P: CountableProperty, const TARGET_NUM_CARDS: u32>(
    other_cards: &[u32; 13],
    hand: Hand,
    current_index: usize,
    yellow_lex_gr_blue: bool,
    blue_lex_gr_green: bool,
    green_lex_gr_red: bool,
    counter: &mut Counter<P>,
)
    requires
        old(counter).wf(),
        current_index <= 13,
        in_deck(hand),
        old(counter).hands_counted + 24 * pow6(current_index as nat) <= u128::MAX,
        old(counter).hands_evaluated + pow6(current_index as nat) <= u128::MAX,
    ensures
        final(counter).wf(),
        final(counter).property == old(counter).property,
        final(counter).hands_counted <= old(counter).hands_counted + 24 * pow6(
            current_index as nat,
        ),
        final(counter).hands_evaluated <= old(counter).hands_evaluated + pow6(
            current_index as nat,
        ),
        tally_of(*final(counter)) == down_spec(old(counter).property, other_cards@.subrange(0, current_index as int), hand, yellow_lex_gr_blue, blue_lex_gr_green, green_lex_gr_red, TARGET_NUM_CARDS, tally_of(*old(counter))),
    decreases current_index,
{
    proof {
        lemma_pow6_mono(0, current_index as nat);
    }
    if hand.count_ones() == TARGET_NUM_CARDS {
        let column_equal_identifier: u8 = (if yellow_lex_gr_blue { 0u8 } else { 1u8 }) + (if blue_lex_gr_green { 0u8 } else { 2u8 }) + (if green_lex_gr_red { 0u8 } else { 4u8 });
        let mult = symmetry_class_size(column_equal_identifier);
        counter.count_hand(&hand, mult);
        return;
    }
    if current_index == 0 {
        return;
    }
    let ghost prefix = other_cards@.subrange(0, current_index as int);
    let rank = current_index;
    let next = current_index - 1;
    let amount = other_cards[next];
    let ghost start = *counter;
    assert(prefix.last() == other_cards@[next as int]);
    let ghost w = 24 * pow6(next as nat);
    let ghost v = pow6(next as nat);
    let mut choice: usize = 0;
    while choice < 6
        invariant
            choice <= 6,
            1 <= rank <= 13,
            rank == current_index,
            next == rank - 1,
            in_deck(hand),
            w == 24 * pow6(next as nat),
            v == pow6(next as nat),
            pow6(rank as nat) == 6 * v,
            start.hands_counted + 24 * pow6(rank as nat) <= u128::MAX,
            start.hands_evaluated + pow6(rank as nat) <= u128::MAX,
            counter.wf(),
            counter.property == start.property,
            counter.hands_counted <= start.hands_counted + choice * w,
            counter.hands_evaluated <= start.hands_evaluated + choice * v,
            prefix == other_cards@.subrange(0, current_index as int),
            amount == prefix.last(),
            popcount(hand) != TARGET_NUM_CARDS,
            choices_spec(start.property, prefix, hand, yellow_lex_gr_blue, blue_lex_gr_green, green_lex_gr_red, TARGET_NUM_CARDS, choice as int, tally_of(*counter))
                == choices_spec(start.property, prefix, hand, yellow_lex_gr_blue, blue_lex_gr_green, green_lex_gr_red, TARGET_NUM_CARDS, 0, tally_of(start)),
        decreases 6 - choice,
    {
        proof {
            assert((choice + 1) * w == choice * w + w) by (nonlinear_arith);
            assert((choice + 1) * v == choice * v + v) by (nonlinear_arith);
            assert((choice + 1) * v <= 6 * v) by (nonlinear_arith)
                requires
                    choice < 6,
            ;
            assert((choice + 1) * w <= 6 * w) by (nonlinear_arith)
                requires
                    choice < 6,
            ;
        }
        if let Some((columns, y, b, g)) = column_choice(amount, choice, yellow_lex_gr_blue, blue_lex_gr_green, green_lex_gr_red) {
            let add = rank_cards(rank, columns);
            proof {
                lemma_xor_in_deck(hand, add);
                assert(other_cards@.subrange(0, next as int) =~= prefix.drop_last());
            }
            count_property_recursive_downwards::<P, TARGET_NUM_CARDS>(other_cards, hand ^ add, next, y, b, g, counter);
        }
        choice += 1;
    }
}

/// The `choice`-th way (0 to 5) to place `amount` cards of one rank into the columns, if
/// it keeps the columns ordered: the columns to use, and the updated flags that record
/// which of the orders yellow > blue, blue > green, green > red have become strict.
/// One and three cards mirror each other; none or all four leave the order as it is.
fn column_choice(
    amount: u32,
    choice: usize,
    yellow_lex_gr_blue: bool,
    blue_lex_gr_green: bool,
    green_lex_gr_red: bool,
) -> (r: Option<(u64, bool, bool, bool)>)
    ensures
        r == column_choice_spec(amount, choice as int, yellow_lex_gr_blue, blue_lex_gr_green, green_lex_gr_red),
{
    let y = yellow_lex_gr_blue;
    let b = blue_lex_gr_green;
    let g = green_lex_gr_red;
    match (amount, choice) {
        (0, 0) => Some((0u64, y, b, g)),
        (4, 0) => Some((MASK_ALL, y, b, g)),
        // yellow is always possible, each further column once the one before is ahead
        (1, 0) => Some((MASK_YELLOW, true, b, g)),
        (1, 1) => if y { Some((MASK_BLUE, true, true, g)) } else { None },
        (1, 2) => if b { Some((MASK_GREEN, y, true, true)) } else { None },
        (1, 3) => if g { Some((MASK_RED, y, b, true)) } else { None },
        // the column left out, mirrored
        (3, 0) => if y { Some((MASK_BLUE | MASK_GREEN | MASK_RED, true, b, g)) } else { None },
        (3, 1) => if b { Some((MASK_YELLOW | MASK_GREEN | MASK_RED, true, true, g)) } else { None },
        (3, 2) => if g { Some((MASK_YELLOW | MASK_BLUE | MASK_RED, y, true, true)) } else { None },
        (3, 3) => Some((MASK_YELLOW | MASK_BLUE | MASK_GREEN, y, b, true)),
        (2, 0) => Some((MASK_YELLOW | MASK_BLUE, y, true, g)),
        (2, 1) => if b { Some((MASK_YELLOW | MASK_GREEN, true, true, true)) } else { None },
        (2, 2) => if g { Some((MASK_YELLOW | MASK_RED, true, b, true)) } else { None },
        (2, 3) => if y { Some((MASK_BLUE | MASK_GREEN, true, b, true)) } else { None },
        (2, 4) => if y && g { Some((MASK_BLUE | MASK_RED, true, true, true)) } else { None },
        (2, 5) => if b { Some((MASK_GREEN | MASK_RED, y, true, g)) } else { None },
        _ => None,
    }
}

/// Chooses, rank by rank from the lowest, how many of the four suited cards of each rank
/// the hand holds, dropping branches that can no longer reach the target; each complete
/// choice is handed to the column placement.
fn count_property_recursive_upwards<P: CountableProperty, const TARGET_NUM_CARDS: u32>(
    other_cards: &mut [u32; 13],
    special_card_hand: Hand,
    cards_sum: u32,
    current_index: usize,
    counter: &mut Counter<P>,
)
    requires
        old(counter).wf(),
        current_index <= 13,
        cards_sum <= 64,
        TARGET_NUM_CARDS <= 56,
        in_deck(special_card_hand),
        old(counter).hands_counted + 24 * up_visits((13 - current_index) as nat) <= u128::MAX,
        old(counter).hands_evaluated + up_visits((13 - current_index) as nat) <= u128::MAX,
    ensures
        final(counter).wf(),
        final(counter).property == old(counter).property,
        final(counter).hands_counted <= old(counter).hands_counted + 24 * up_visits(
            (13 - current_index) as nat,
        ),
        final(counter).hands_evaluated <= old(counter).hands_evaluated + up_visits(
            (13 - current_index) as nat,
        ),
        final(other_cards)@.subrange(0, current_index as int) == old(other_cards)@.subrange(0, current_index as int),
        tally_of(*final(counter)) == up_spec(old(counter).property, old(other_cards)@.subrange(0, current_index as int), special_card_hand, cards_sum as int, TARGET_NUM_CARDS, tally_of(*old(counter))),
    decreases 13 - current_index,
{
    proof {
        lemma_up_visits_ge((13 - current_index) as nat);
    }
    if cards_sum == TARGET_NUM_CARDS {
        proof {
            lemma_pow6_mono(current_index as nat, 13);
        }
        count_property_recursive_downwards::<P, TARGET_NUM_CARDS>(other_cards, special_card_hand, current_index, false, false, false, counter);
        return;
    }
    if cards_sum > TARGET_NUM_CARDS || current_index >= 13 || cards_sum + (13 - current_index as u32) * 4 < TARGET_NUM_CARDS {
        return;
    }
    let ghost start = *counter;
    let ghost prefix = other_cards@.subrange(0, current_index as int);
    let ghost w = up_visits((13 - current_index - 1) as nat);
    let mut card_amount: u32 = 0;
    while card_amount <= 4
        invariant
            card_amount <= 5,
            current_index < 13,
            cards_sum <= TARGET_NUM_CARDS <= 56,
            in_deck(special_card_hand),
            w == up_visits((13 - current_index - 1) as nat),
            up_visits((13 - current_index) as nat) == 5 * w,
            start.hands_counted + 24 * up_visits((13 - current_index) as nat) <= u128::MAX,
            start.hands_evaluated + up_visits((13 - current_index) as nat) <= u128::MAX,
            counter.wf(),
            counter.property == start.property,
            counter.hands_counted <= start.hands_counted + card_amount * (24 * w),
            counter.hands_evaluated <= start.hands_evaluated + card_amount * w,
            other_cards@.subrange(0, current_index as int) == prefix,
            prefix == old(other_cards)@.subrange(0, current_index as int),
            cards_sum < TARGET_NUM_CARDS,
            cards_sum + (13 - current_index) * 4 >= TARGET_NUM_CARDS,
            amounts_spec(start.property, prefix, special_card_hand, cards_sum as int, TARGET_NUM_CARDS, card_amount as int, tally_of(*counter))
                == amounts_spec(start.property, prefix, special_card_hand, cards_sum as int, TARGET_NUM_CARDS, 0, tally_of(start)),
        decreases 5 - card_amount,
    {
        proof {
            assert((card_amount + 1) * (24 * w) == card_amount * (24 * w) + 24 * w) by (nonlinear_arith);
            assert((card_amount + 1) * w == card_amount * w + w) by (nonlinear_arith);
            assert((card_amount + 1) * w <= 5 * w) by (nonlinear_arith)
                requires
                    card_amount <= 4,
            ;
            assert((card_amount + 1) * (24 * w) <= 5 * (24 * w)) by (nonlinear_arith)
                requires
                    card_amount <= 4,
            ;
        }
        other_cards[current_index] = card_amount;
        proof {
            assert(other_cards@.subrange(0, current_index + 1) =~= prefix.push(card_amount));
        }
        count_property_recursive_upwards::<P, TARGET_NUM_CARDS>(other_cards, special_card_hand, cards_sum + card_amount, current_index + 1, counter);
        proof {
            assert(other_cards@.subrange(0, current_index as int) =~= other_cards@.subrange(0, current_index + 1).drop_last());
            assert(prefix.push(card_amount).drop_last() =~= prefix);
        }
        card_amount += 1;
    }
}

proof fn lemma_up_visits_ge(k: nat)
    ensures
        pow6(13) <= up_visits(k),
        k > 0 ==> up_visits(k) == 5 * up_visits((k - 1) as nat),
    decreases k,
{
    if k > 0 {
        lemma_up_visits_ge((k - 1) as nat);
    }
}

/// The special cards for the bits of `subset`: bit 0 phoenix, 1 dog, 2 dragon, 3 mahjong.
pub fn special_cards_of_subset(subset: u64) -> (r: Hand)
    ensures
        in_deck(r),
        r == (subset & 1) | (((subset >> 1u64) & 1) << 16u64) | (((subset >> 2u64) & 1) << 32u64) | (((subset >> 3u64) & 1) << 48u64),
{
    let r = (subset & 1) | (((subset >> 1u64) & 1) << 16u64) | (((subset >> 2u64) & 1) << 32u64) | (((subset >> 3u64) & 1) << 48u64);
    proof {
        assert(r & MASK_ALL == r) by (bit_vector)
            requires
                r == (subset & 1) | (((subset >> 1u64) & 1) << 16u64) | (((subset >> 2u64) & 1) << 32u64) | (((subset >> 3u64) & 1) << 48u64),
        ;
    }
    r
}

/// A set of `amount` special cards, the one searched for that number.
pub fn special_cards_of_amount(amount: usize) -> (r: Hand)
    requires
        amount <= 4,
    ensures
        in_deck(r),
        amount == 0 ==> r == 0,
        amount == 1 ==> r == DRAGON_BIT,
        amount == 2 ==> r == DRAGON_BIT | PHOENIX_BIT,
        amount == 3 ==> r == DRAGON_BIT | PHOENIX_BIT | DOG_BIT,
        amount == 4 ==> r == DRAGON_BIT | PHOENIX_BIT | DOG_BIT | MAHJONG_BIT,
{
    let r = match amount {
        0 => 0u64,
        1 => DRAGON_BIT,
        2 => DRAGON_BIT | PHOENIX_BIT,
        3 => DRAGON_BIT | PHOENIX_BIT | DOG_BIT,
        _ => DRAGON_BIT | PHOENIX_BIT | DOG_BIT | MAHJONG_BIT,
    };
    proof {
        assert(0u64 & MASK_ALL == 0u64) by (bit_vector);
        assert((DRAGON_BIT | PHOENIX_BIT | DOG_BIT | MAHJONG_BIT) & MASK_ALL == DRAGON_BIT | PHOENIX_BIT | DOG_BIT | MAHJONG_BIT) by (bit_vector);
        assert((DRAGON_BIT | PHOENIX_BIT | DOG_BIT) & MASK_ALL == DRAGON_BIT | PHOENIX_BIT | DOG_BIT) by (bit_vector);
        assert((DRAGON_BIT | PHOENIX_BIT) & MASK_ALL == DRAGON_BIT | PHOENIX_BIT) by (bit_vector);
        assert(DRAGON_BIT & MASK_ALL == DRAGON_BIT) by (bit_vector);
    }
    r
}

/// Number of ways to pick `amount` of the four special cards.
pub fn special_card_frequency(amount: usize) -> (r: u128)
    requires
        amount <= 4,
    ensures
        r == (if amount == 0 || amount == 4 { 1int } else if amount == 2 { 6int } else { 4int }),
{
    match amount {
        0 => 1,
        1 => 4,
        2 => 6,
        3 => 4,
        _ => 1,
    }
}

/// Searches all hands of `TARGET_NUM_CARDS` cards, one per class of hands that equal
/// each other up to a permutation of the four columns, and records each with the size of
/// its class (and, grouping by number of special cards, the number of such sets).
pub fn enumerate<P: CountableProperty, const TARGET_NUM_CARDS: u32>(
    kind: P,
    strategy: SpecialCardStrategy,
) -> (r: Counter<P>)
    requires
        TARGET_NUM_CARDS <= 56,
    ensures
        r.wf(),
        r.property == kind,
        r.hands_evaluated <= 16 * up_visits(13),
        r.hands_counted <= 16 * 6 * 24 * up_visits(13),
        tally_of(r) == enumerate_spec(kind, TARGET_NUM_CARDS, strategy),
{
    proof {
        lemma_up_visits_total();
    }
    let mut global_counter = Counter::new(kind);
    proof {
        assert(global_counter.property_counted@ =~= empty_tally(kind).2);
    }
    match strategy {
        SpecialCardStrategy::GroupedByCount => {
            let mut step: usize = 0;
            while step < 5
                invariant
                    step <= 5,
                    TARGET_NUM_CARDS <= 56,
                    up_visits(13) == 15_943_230_000_000_000_000,
                    global_counter.wf(),
                    global_counter.property == kind,
                    global_counter.hands_evaluated <= step * up_visits(13),
                    global_counter.hands_counted <= step * 6 * 24 * up_visits(13),
                    strategy == SpecialCardStrategy::GroupedByCount,
                    grouped_spec(kind, TARGET_NUM_CARDS, step as int, tally_of(global_counter))
                        == grouped_spec(kind, TARGET_NUM_CARDS, 0, empty_tally(kind)),
                decreases 5 - step,
            {
                let special_card_amount = 4 - step;
                let mut local_counter = Counter::new(kind);
                let mut other_cards = [0u32; 13];
                proof {
                    assert(local_counter.property_counted@ =~= empty_tally(kind).2);
                    assert(other_cards@.subrange(0, 0) =~= Seq::<u32>::empty());
                }
                let special = special_cards_of_amount(special_card_amount);
                count_property_recursive_upwards::<P, TARGET_NUM_CARDS>(&mut other_cards, special, special_card_amount as u32, 0, &mut local_counter);
                let frequency = special_card_frequency(special_card_amount);
                let ghost local_tally = tally_of(local_counter);
                let weighted = local_counter.scale(frequency);
                proof {
                    assert(weighted.property_counted@ =~= scale_spec(local_tally, frequency as int).2);
                }
                let ghost before = tally_of(global_counter);
                global_counter = global_counter.merge(weighted);
                proof {
                    assert(global_counter.property_counted@ =~= merge_spec(before, tally_of(weighted)).2);
                    assert(special == special_of_amount(4 - step));
                }
                step += 1;
            }
        },
        SpecialCardStrategy::AllSubsets => {
            let mut special_card_bits: u64 = 0;
            while special_card_bits < 16
                invariant
                    special_card_bits <= 16,
                    TARGET_NUM_CARDS <= 56,
                    up_visits(13) == 15_943_230_000_000_000_000,
                    global_counter.wf(),
                    global_counter.property == kind,
                    global_counter.hands_evaluated <= special_card_bits * up_visits(13),
                    global_counter.hands_counted <= special_card_bits * 24 * up_visits(13),
                    strategy == SpecialCardStrategy::AllSubsets,
                    subsets_spec(kind, TARGET_NUM_CARDS, special_card_bits as int, tally_of(global_counter))
                        == subsets_spec(kind, TARGET_NUM_CARDS, 0, empty_tally(kind)),
                decreases 16 - special_card_bits,
            {
                let mut local_counter = Counter::new(kind);
                let mut other_cards = [0u32; 13];
                proof {
                    assert(local_counter.property_counted@ =~= empty_tally(kind).2);
                    assert(other_cards@.subrange(0, 0) =~= Seq::<u32>::empty());
                }
                let special_card_hand = special_cards_of_subset(special_card_bits);
                let n = special_card_hand.count_ones();
                proof {
                    lemma_popcount_bound(special_card_hand);
                }
                count_property_recursive_upwards::<P, TARGET_NUM_CARDS>(&mut other_cards, special_card_hand, n, 0, &mut local_counter);
                let ghost before = tally_of(global_counter);
                global_counter = global_counter.merge(local_counter);
                proof {
                    assert(global_counter.property_counted@ =~= merge_spec(before, tally_of(local_counter)).2);
                }
                special_card_bits += 1;
            }
        },
    }
    global_counter
}

/// The search for properties that do not tell the special cards apart.
pub fn count_special_card_invariant_property<P: CountableProperty, const TARGET_NUM_CARDS: u32>(
    kind: P,
) -> (r: Counter<P>)
    requires
        TARGET_NUM_CARDS <= 56,
    ensures
        r.wf(),
        r.property == kind,
        tally_of(r) == enumerate_spec(kind, TARGET_NUM_CARDS, SpecialCardStrategy::GroupedByCount),
{
    enumerate::<P, TARGET_NUM_CARDS>(kind, SpecialCardStrategy::GroupedByCount)
}

/// The search for properties that tell the special cards apart.
pub fn count_special_card_sensitive_property<P: CountableProperty, const TARGET_NUM_CARDS: u32>(
    kind: P,
) -> (r: Counter<P>)
    requires
        TARGET_NUM_CARDS <= 56,
    ensures
        r.wf(),
        r.property == kind,
        tally_of(r) == enumerate_spec(kind, TARGET_NUM_CARDS, SpecialCardStrategy::AllSubsets),
{
    enumerate::<P, TARGET_NUM_CARDS>(kind, SpecialCardStrategy::AllSubsets)
}

} // verus!
