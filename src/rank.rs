use vstd::prelude::*;
use vstd::relations::{sorted_by, total_ordering};
use vstd::seq_lib::lemma_sorted_unique;

use crate::cards::{spec_face_values, spec_high_values, Card, Hand};
use crate::combos::{combinations, combos, lemma_combos_elements};

verus! {

broadcast use vstd::seq_lib::group_to_multiset_ensures;

/// Hand categories, weakest first.
#[derive(Debug, Clone, Copy, PartialEq, Eq, Structural, PartialOrd, Ord, Hash)]
pub enum RankKind {
    HighCard,
    OnePair,
    TwoPairs,
    ThreeKind,
    Straight,
    Flush,
    FullHouse,
    FourKind,
    StraightFlush,
    RoyalFlush,
}

impl RankKind {
    /// Position of the category in the order, `HighCard` being 0.
    pub open spec fn spec_ordinal(self) -> int {
        match self {
            RankKind::HighCard => 0,
            RankKind::OnePair => 1,
            RankKind::TwoPairs => 2,
            RankKind::ThreeKind => 3,
            RankKind::Straight => 4,
            RankKind::Flush => 5,
            RankKind::FullHouse => 6,
            RankKind::FourKind => 7,
            RankKind::StraightFlush => 8,
            RankKind::RoyalFlush => 9,
        }
    }

    pub fn ordinal(self) -> (r: u8)
        ensures
            r == self.spec_ordinal(),
    {
        match self {
            RankKind::HighCard => 0,
            RankKind::OnePair => 1,
            RankKind::TwoPairs => 2,
            RankKind::ThreeKind => 3,
            RankKind::Straight => 4,
            RankKind::Flush => 5,
            RankKind::FullHouse => 6,
            RankKind::FourKind => 7,
            RankKind::StraightFlush => 8,
            RankKind::RoyalFlush => 9,
        }
    }

    /// The name shown for the category.
    pub open spec fn spec_name(self) -> Seq<char> {
        match self {
            RankKind::HighCard => "High card"@,
            RankKind::OnePair => "Pair"@,
            RankKind::TwoPairs => "Two pairs"@,
            RankKind::ThreeKind => "Three of a kind"@,
            RankKind::Straight => "Straight"@,
            RankKind::Flush => "Flush"@,
            RankKind::FullHouse => "Full house"@,
            RankKind::FourKind => "Four of a kind"@,
            RankKind::StraightFlush => "Straight flush"@,
            RankKind::RoyalFlush => "Royal flush"@,
        }
    }

    pub fn name(self) -> (r: &'static str)
        ensures
            r@ == self.spec_name(),
    {
        match self {
            RankKind::HighCard => "High card",
            RankKind::OnePair => "Pair",
            RankKind::TwoPairs => "Two pairs",
            RankKind::ThreeKind => "Three of a kind",
            RankKind::Straight => "Straight",
            RankKind::Flush => "Flush",
            RankKind::FullHouse => "Full house",
            RankKind::FourKind => "Four of a kind",
            RankKind::StraightFlush => "Straight flush",
            RankKind::RoyalFlush => "Royal flush",
        }
    }
}

/// The strength of a five-card hand: its category, then its face values in
/// descending order (Ace stored as 1), compared lexicographically.
#[derive(Debug, Clone, Copy, PartialEq, Eq, PartialOrd, Ord)]
pub struct Ranking {
    pub kind: RankKind,
    pub hand_descending: [usize; 5],
}

/// A ranking as values: category and descending face values.
pub type RankModel = (RankKind, Seq<usize>);

impl Ranking {
    pub open spec fn model(self) -> RankModel {
        (self.kind, self.hand_descending@)
    }
}

/// The order "at least" on stored face values.
pub open spec fn geq() -> spec_fn(usize, usize) -> bool {
    |a: usize, b: usize| a >= b
}

/// The face values of a hand, largest first.
pub open spec fn spec_descending(hand: Seq<Card>) -> Seq<usize> {
    spec_face_values(hand).sort_by(geq())
}

/// All cards share the first card's suit.
pub open spec fn spec_is_flush(hand: Seq<Card>) -> bool {
    forall|i: int| 0 <= i < hand.len() ==> #[trigger] hand[i].1 == hand[0].1
}

/// Ten, Jack, Queen, King and Ace.
pub open spec fn is_broadway(d: Seq<usize>) -> bool {
    d == seq![13usize, 12, 11, 10, 1]
}

/// Five consecutive values, largest first.
pub open spec fn is_run(d: Seq<usize>) -> bool {
    d.len() == 5 && forall|i: int| 0 <= i < 5 ==> #[trigger] d[i] == d[4] + (4 - i)
}

/// The face values of a hand with Ace counted high (14), largest first.
pub open spec fn spec_descending_high(hand: Seq<Card>) -> Seq<usize> {
    spec_high_values(hand).sort_by(geq())
}

/// A straight: five consecutive values with Ace high, or the broadway set;
/// Ace is never low, so A-2-3-4-5 is no straight.
pub open spec fn spec_is_straight(hand: Seq<Card>) -> bool {
    is_run(spec_descending_high(hand)) || is_broadway(spec_descending(hand))
}

/// How many cards of the hand have stored value `v`.
pub open spec fn value_count(hand: Seq<Card>, v: int) -> nat {
    spec_face_values(hand).to_multiset().count(v as usize)
}

/// The largest count among the values below `n`.
pub open spec fn max_count_below(hand: Seq<Card>, n: int) -> nat
    decreases n,
{
    if n <= 0 {
        0
    } else {
        let m = max_count_below(hand, n - 1);
        let c = value_count(hand, n - 1);
        if m < c {
            c
        } else {
            m
        }
    }
}

/// How many values below `n` occur exactly twice.
pub open spec fn pairs_below(hand: Seq<Card>, n: int) -> nat
    decreases n,
{
    if n <= 0 {
        0
    } else {
        pairs_below(hand, n - 1) + if value_count(hand, n - 1) == 2 {
            1nat
        } else {
            0nat
        }
    }
}

/// The category of a five-card hand.
pub open spec fn spec_kind(hand: Seq<Card>) -> RankKind {
    let d = spec_descending(hand);
    let straight = spec_is_straight(hand);
    let flush = spec_is_flush(hand);
    if straight && flush {
        if is_broadway(d) {
            RankKind::RoyalFlush
        } else {
            RankKind::StraightFlush
        }
    } else if straight {
        RankKind::Straight
    } else if flush {
        RankKind::Flush
    } else {
        let m = max_count_below(hand, 14);
        let p = pairs_below(hand, 14);
        if m == 4 {
            RankKind::FourKind
        } else if m == 3 && p == 1 {
            RankKind::FullHouse
        } else if m == 3 {
            RankKind::ThreeKind
        } else if p == 2 {
            RankKind::TwoPairs
        } else if m == 2 {
            RankKind::OnePair
        } else {
            RankKind::HighCard
        }
    }
}

/// The ranking of a five-card hand.
pub open spec fn spec_ranking(hand: Seq<Card>) -> RankModel {
    (spec_kind(hand), spec_descending(hand))
}

/// Lexicographic comparison: 1, 0 or -1.
pub open spec fn lex_cmp(a: Seq<usize>, b: Seq<usize>) -> int
    decreases a.len(),
{
    if a.len() == 0 || b.len() == 0 {
        0
    } else if a[0] > b[0] {
        1
    } else if a[0] < b[0] {
        -1
    } else {
        lex_cmp(a.drop_first(), b.drop_first())
    }
}

/// Compares rankings: category first, then values; 1, 0 or -1.
pub open spec fn rank_cmp(a: RankModel, b: RankModel) -> int {
    if a.0.spec_ordinal() > b.0.spec_ordinal() {
        1
    } else if a.0.spec_ordinal() < b.0.spec_ordinal() {
        -1
    } else {
        lex_cmp(a.1, b.1)
    }
}

/// The ordering that the sign of a comparison stands for.
pub open spec fn ordering_of(c: int) -> std::cmp::Ordering {
    if c > 0 {
        std::cmp::Ordering::Greater
    } else if c < 0 {
        std::cmp::Ordering::Less
    } else {
        std::cmp::Ordering::Equal
    }
}

pub proof fn lemma_geq_total()
    ensures
        total_ordering(geq()),
{
}

/// Sorts five values, largest first.
fn sort_descending(vals: [usize; 5]) -> (r: [usize; 5])
    ensures
        r@ == vals@.sort_by(geq()),
{
    let ghost leq = geq();
    let mut out: Vec<usize> = Vec::new();
    for i in 0..5usize
        invariant
            leq == geq(),
            out@.len() == i,
            sorted_by(out@, leq),
            out@.to_multiset() == vals@.take(i as int).to_multiset(),
    {
        let x = vals[i];
        let mut p: usize = 0;
        while p < out.len() && out[p] >= x
            invariant
                p <= out@.len(),
                forall|k: int| 0 <= k < p ==> out@[k] >= x,
            decreases out@.len() - p,
        {
            p = p + 1;
        }
        let ghost before = out@;
        out.insert(p, x);
        proof {
            vstd::seq_lib::to_multiset_insert(before, p as int, x);
            assert(vals@.take(i as int).push(x) =~= vals@.take(i + 1));
            assert forall|a: int, b: int| 0 <= a < b < out@.len() implies #[trigger] leq(
                out@[a],
                out@[b],
            ) by {
                if b < p {
                } else if b == p {
                } else if a < p {
                    assert(leq(before[a], before[b - 1]));
                } else if a == p {
                    if p < before.len() {
                        assert(before[p as int] < x);
                        assert(leq(before[p as int], before[b - 1]) || b - 1 == p);
                    }
                } else {
                    assert(leq(before[a - 1], before[b - 1]));
                }
            }
        }
    }
    let r = [out[0], out[1], out[2], out[3], out[4]];
    proof {
        assert(r@ =~= out@);
        assert(vals@.take(5) =~= vals@);
        lemma_geq_total();
        vals@.lemma_sort_by_ensures(leq);
        lemma_sorted_unique(r@, vals@.sort_by(leq), leq);
    }
    r
}

impl Ranking {
    /// Classifies a five-card hand.
    pub fn from_hand(hand: &Hand) -> (r: Ranking)
        ensures
            r.model() == spec_ranking(hand.0@),
    {
        let vals = hand.face_values();
        let d = sort_descending(vals);
        let ghost leq = geq();
        proof {
            lemma_geq_total();
            vals@.lemma_sort_by_ensures(leq);
            assert(leq(d@[0], d@[4]) && leq(d@[1], d@[4]) && leq(d@[2], d@[4]) && leq(d@[3], d@[4]));
        }
        // flush: every suit equals the first
        let s0 = hand.0[0].1;
        let mut flush = true;
        for i in 0..5usize
            invariant
                s0 == hand.0@[0].1,
                flush == (forall|k: int| 0 <= k < i ==> #[trigger] hand.0@[k].1 == s0),
        {
            if hand.0[i].1 != s0 {
                flush = false;
            }
        }
        let broadway = d[0] == 13 && d[1] == 12 && d[2] == 11 && d[3] == 10 && d[4] == 1;
        proof {
            if broadway {
                assert(d@ =~= seq![13usize, 12, 11, 10, 1]);
            } else {
                if d@ == seq![13usize, 12, 11, 10, 1] {
                    assert(d@[0] == 13 && d@[1] == 12 && d@[2] == 11 && d@[3] == 10 && d@[4] == 1);
                }
            }
        }
        let highs = hand.high_values();
        let e = sort_descending(highs);
        proof {
            highs@.lemma_sort_by_ensures(leq);
            assert(leq(e@[0], e@[4]) && leq(e@[1], e@[4]) && leq(e@[2], e@[4]) && leq(e@[3], e@[4]));
        }
        let run = e[0] - e[4] == 4 && e[1] - e[4] == 3 && e[2] - e[4] == 2 && e[3] - e[4] == 1;
        let straight = run || broadway;
        proof {
            if run {
                assert forall|i: int| 0 <= i < 5 implies #[trigger] e@[i] == e@[4] + (4 - i) by {
                    if i == 0 {
                    } else if i == 1 {
                    } else if i == 2 {
                    } else if i == 3 {
                    } else {
                    }
                }
            }
        }
        if straight && flush {
            if broadway {
                return Ranking { kind: RankKind::RoyalFlush, hand_descending: d };
            }
            return Ranking { kind: RankKind::StraightFlush, hand_descending: d };
        } else if straight {
            return Ranking { kind: RankKind::Straight, hand_descending: d };
        } else if flush {
            return Ranking { kind: RankKind::Flush, hand_descending: d };
        }
        // counts of each stored value
        let mut counts: Vec<usize> = Vec::new();
        for v in 0..14usize
            invariant
                counts@.len() == v,
                forall|w: int| 0 <= w < v ==> counts@[w] == 0,
        {
            counts.push(0);
        }
        for i in 0..5usize
            invariant
                vals@ == spec_face_values(hand.0@),
                counts@.len() == 14,
                forall|w: int|
                    0 <= w < 14 ==> #[trigger] counts@[w] == vals@.take(i as int).to_multiset().count(
                        w as usize,
                    ),
        {
            let v = vals[i];
            assert(vals@.take(i as int).push(v) =~= vals@.take(i + 1));
            assert(v <= 13);
            assert(counts@[v as int] <= i) by {
                assert(vals@.take(i as int).to_multiset().count(v) <= vals@.take(
                    i as int,
                ).to_multiset().len());
            }
            counts.set(v, counts[v] + 1);
        }
        assert(vals@.take(5) =~= vals@);
        let mut max: usize = 0;
        let mut pairs: usize = 0;
        for v in 0..14usize
            invariant
                vals@ == spec_face_values(hand.0@),
                counts@.len() == 14,
                forall|w: int|
                    0 <= w < 14 ==> #[trigger] counts@[w] == vals@.to_multiset().count(w as usize),
                max == max_count_below(hand.0@, v as int),
                pairs == pairs_below(hand.0@, v as int),
                pairs <= v,
        {
            let c = counts[v];
            if max < c {
                max = c;
            }
            if c == 2 {
                pairs = pairs + 1;
            }
        }
        let kind = if max == 4 {
            RankKind::FourKind
        } else if max == 3 && pairs == 1 {
            RankKind::FullHouse
        } else if max == 3 {
            RankKind::ThreeKind
        } else if pairs == 2 {
            RankKind::TwoPairs
        } else if max == 2 {
            RankKind::OnePair
        } else {
            RankKind::HighCard
        };
        Ranking { kind, hand_descending: d }
    }

    /// Compares two rankings: category first, then the descending values.
    pub fn compare(&self, other: &Ranking) -> (r: std::cmp::Ordering)
        ensures
            r == ordering_of(rank_cmp(self.model(), other.model())),
    {
        let a = self.kind.ordinal();
        let b = other.kind.ordinal();
        if a > b {
            return std::cmp::Ordering::Greater;
        } else if a < b {
            return std::cmp::Ordering::Less;
        }
        let x = &self.hand_descending;
        let y = &other.hand_descending;
        assert(x@.subrange(0, 5) =~= x@);
        assert(y@.subrange(0, 5) =~= y@);
        for i in 0..5usize
            invariant
                x@ == self.hand_descending@,
                y@ == other.hand_descending@,
                self.kind.spec_ordinal() == other.kind.spec_ordinal(),
                lex_cmp(x@, y@) == lex_cmp(x@.subrange(i as int, 5), y@.subrange(i as int, 5)),
        {
            assert(x@.subrange(i as int, 5).drop_first() =~= x@.subrange(i + 1, 5));
            assert(y@.subrange(i as int, 5).drop_first() =~= y@.subrange(i + 1, 5));
            if x[i] > y[i] {
                return std::cmp::Ordering::Greater;
            } else if x[i] < y[i] {
                return std::cmp::Ordering::Less;
            }
        }
        std::cmp::Ordering::Equal
    }

    /// The name of the ranking's category.
    pub fn name(&self) -> (r: &'static str)
        ensures
            r@ == self.kind.spec_name(),
    {
        self.kind.name()
    }
}

pub proof fn lemma_lex_antisymmetric(a: Seq<usize>, b: Seq<usize>)
    ensures
        lex_cmp(a, b) == -lex_cmp(b, a),
    decreases a.len(),
{
    if a.len() > 0 && b.len() > 0 && a[0] == b[0] {
        lemma_lex_antisymmetric(a.drop_first(), b.drop_first());
    }
}

pub proof fn lemma_lex_transitive(a: Seq<usize>, b: Seq<usize>, c: Seq<usize>)
    requires
        a.len() == b.len() == c.len(),
        lex_cmp(a, b) >= 0,
        lex_cmp(b, c) >= 0,
    ensures
        lex_cmp(a, c) >= 0,
    decreases a.len(),
{
    if a.len() > 0 && a[0] == b[0] && b[0] == c[0] {
        lemma_lex_transitive(a.drop_first(), b.drop_first(), c.drop_first());
    }
}

/// The ranking order is total: of two rankings one is at least the other.
pub proof fn lemma_rank_antisymmetric(a: RankModel, b: RankModel)
    ensures
        rank_cmp(a, b) == -rank_cmp(b, a),
{
    lemma_lex_antisymmetric(a.1, b.1);
}

pub proof fn lemma_rank_transitive(a: RankModel, b: RankModel, c: RankModel)
    requires
        a.1.len() == b.1.len() == c.1.len(),
        rank_cmp(a, b) >= 0,
        rank_cmp(b, c) >= 0,
    ensures
        rank_cmp(a, c) >= 0,
{
    if a.0.spec_ordinal() == b.0.spec_ordinal() && b.0.spec_ordinal() == c.0.spec_ordinal() {
        lemma_lex_transitive(a.1, b.1, c.1);
    }
}

/// The last of the greatest rankings of a non-empty list.
pub open spec fn max_rank(rs: Seq<RankModel>) -> RankModel
    decreases rs.len(),
{
    if rs.len() <= 1 {
        rs[0]
    } else {
        let m = max_rank(rs.drop_last());
        if rank_cmp(rs.last(), m) >= 0 {
            rs.last()
        } else {
            m
        }
    }
}

pub proof fn lemma_max_rank(rs: Seq<RankModel>)
    requires
        rs.len() > 0,
        forall|i: int| 0 <= i < rs.len() ==> (#[trigger] rs[i]).1.len() == 5,
    ensures
        rs.contains(max_rank(rs)),
        forall|i: int| 0 <= i < rs.len() ==> rank_cmp(max_rank(rs), #[trigger] rs[i]) >= 0,
    decreases rs.len(),
{
    if rs.len() == 1 {
        assert(rs[0] == max_rank(rs));
        assert(rank_cmp(rs[0], rs[0]) == 0) by {
            lemma_rank_antisymmetric(rs[0], rs[0]);
        }
    } else {
        let init = rs.drop_last();
        lemma_max_rank(init);
        let m = max_rank(init);
        let t = choose|t: int| 0 <= t < init.len() && init[t] == m;
        assert(rs[t] == m);
        if rank_cmp(rs.last(), m) >= 0 {
            assert(rs[rs.len() - 1] == max_rank(rs));
            assert forall|i: int| 0 <= i < rs.len() implies rank_cmp(
                max_rank(rs),
                #[trigger] rs[i],
            ) >= 0 by {
                if i < rs.len() - 1 {
                    assert(init[i] == rs[i]);
                    lemma_rank_transitive(rs.last(), m, rs[i]);
                } else {
                    lemma_rank_antisymmetric(rs[i], rs[i]);
                }
            }
        } else {
            assert forall|i: int| 0 <= i < rs.len() implies rank_cmp(
                max_rank(rs),
                #[trigger] rs[i],
            ) >= 0 by {
                if i < rs.len() - 1 {
                    assert(init[i] == rs[i]);
                } else {
                    lemma_rank_antisymmetric(rs.last(), m);
                }
            }
        }
    }
}

/// The rankings of the five-card selections of `cards`, in selection order.
pub open spec fn subset_rankings(cards: Seq<Card>) -> Seq<RankModel> {
    combos(cards, 5).map_values(|h: Seq<Card>| spec_ranking(h))
}

/// The greatest ranking among the five-card selections of `cards`.
pub open spec fn best_rank(cards: Seq<Card>) -> RankModel {
    max_rank(subset_rankings(cards))
}

proof fn lemma_ranking_len(h: Seq<Card>)
    requires
        h.len() == 5,
    ensures
        spec_ranking(h).1.len() == 5,
{
    let leq = geq();
    assert(spec_face_values(h).len() == 5);
    lemma_geq_total();
    spec_face_values(h).lemma_sort_by_ensures(leq);
    assert(spec_face_values(h).to_multiset().len() == 5);
    assert(spec_descending(h).to_multiset().len() == spec_descending(h).len());
}

/// Every ranking of a five-card selection has five values.
pub proof fn lemma_subset_rankings_len(cards: Seq<Card>)
    ensures
        forall|i: int|
            0 <= i < subset_rankings(cards).len() ==> (#[trigger] subset_rankings(cards)[i]).1.len()
                == 5,
{
    lemma_combos_elements(cards, 5);
    assert forall|i: int| 0 <= i < subset_rankings(cards).len() implies (
    #[trigger] subset_rankings(cards)[i]).1.len() == 5 by {
        lemma_ranking_len(combos(cards, 5)[i]);
    }
}

/// The five cards of `cards` that rank highest; where several rank alike,
/// the last of them in selection order.
pub fn best_hand_in(cards: &Vec<Card>) -> (r: Hand)
    requires
        cards@.len() >= 5,
    ensures
        combos(cards@, 5).contains(r.0@),
        spec_ranking(r.0@) == best_rank(cards@),
        forall|i: int|
            0 <= i < combos(cards@, 5).len() ==> rank_cmp(
                spec_ranking(r.0@),
                spec_ranking(#[trigger] combos(cards@, 5)[i]),
            ) >= 0,
{
    let subsets = combinations(cards, 5);
    let ghost models = subset_rankings(cards@);
    proof {
        lemma_combos_elements(cards@, 5);
        lemma_combos_nonempty(cards@, 5);
    }
    let mut best = Hand::from_cards(subsets[0].as_slice());
    let mut best_rank = Ranking::from_hand(&best);
    let mut bi: usize = 0;
    assert(models.take(1).drop_last() =~= Seq::<RankModel>::empty());
    for i in 1..subsets.len()
        invariant
            subsets@.len() == combos(cards@, 5).len(),
            forall|k: int| 0 <= k < subsets@.len() ==> #[trigger] subsets@[k]@ == combos(cards@, 5)[k],
            forall|k: int| 0 <= k < combos(cards@, 5).len() ==> (#[trigger] combos(cards@, 5)[k]).len() == 5,
            models == subset_rankings(cards@),
            bi < i,
            best.0@ == combos(cards@, 5)[bi as int],
            best_rank.model() == spec_ranking(best.0@),
            best_rank.model() == max_rank(models.take(i as int)),
    {
        let h = Hand::from_cards(subsets[i].as_slice());
        let rank = Ranking::from_hand(&h);
        proof {
            assert(models.take(i + 1).drop_last() =~= models.take(i as int));
            assert(models.take(i + 1).last() == models[i as int]);
        }
        match rank.compare(&best_rank) {
            std::cmp::Ordering::Less => {},
            _ => {
                best = h;
                best_rank = rank;
                bi = i;
            },
        }
    }
    proof {
        assert(models.take(models.len() as int) =~= models);
        lemma_subset_rankings_len(cards@);
        lemma_max_rank(models);
        assert forall|i: int| 0 <= i < combos(cards@, 5).len() implies rank_cmp(
            spec_ranking(best.0@),
            spec_ranking(#[trigger] combos(cards@, 5)[i]),
        ) >= 0 by {
            assert(models[i] == spec_ranking(combos(cards@, 5)[i]));
        }
        assert(combos(cards@, 5)[bi as int] == best.0@);
    }
    best
}

/// A list of at least `k` cards has a `k`-element selection.
pub proof fn lemma_combos_nonempty(s: Seq<Card>, k: nat)
    requires
        s.len() >= k,
    ensures
        combos(s, k).len() > 0,
    decreases s.len(),
{
    if k > 0 {
        lemma_combos_nonempty(s.drop_first(), (k - 1) as nat);
    }
}

/// The symbols of the hand's faces, lowest stored value first, then the
/// category's name in brackets, as in `45TKK [Pair]`.
pub open spec fn spec_hand_text(hand: Seq<Card>) -> Seq<char> {
    let d = spec_descending(hand);
    Seq::new(5, |i: int| crate::cards::symbol_of_value(d[4 - i])) + " ["@ + spec_kind(hand).spec_name()
        + "]"@
}

impl Hand {
    pub fn text(&self) -> (r: String)
        ensures
            r@ == spec_hand_text(self.0@),
    {
        let d = sort_descending(self.face_values());
        let rank = Ranking::from_hand(self);
        let mut r = String::new();
        let mut i: usize = 0;
        proof {
            lemma_geq_total();
            spec_face_values(self.0@).lemma_sort_by_ensures(geq());
            assert forall|k: int| 0 <= k < 5 implies 1 <= #[trigger] d@[k] <= 13 by {
                assert(spec_face_values(self.0@).to_multiset().count(d@[k]) > 0);
                let j = choose|j: int|
                    0 <= j < spec_face_values(self.0@).len() && spec_face_values(self.0@)[j] == d@[k];
                assert(spec_face_values(self.0@)[j] == self.0@[j].0.spec_value());
            }
        }
        while i < 5
            invariant
                i <= 5,
                d@ == spec_descending(self.0@),
                forall|k: int| 0 <= k < 5 ==> 1 <= #[trigger] d@[k] <= 13,
                r@ == Seq::new(i as nat, |k: int| crate::cards::symbol_of_value(d@[4 - k])),
            decreases 5 - i,
        {
            let c = crate::cards::Face::from_value(d[4 - i]).symbol();
            crate::cards::push_char(&mut r, c);
            i = i + 1;
            assert(r@ =~= Seq::new(i as nat, |k: int| crate::cards::symbol_of_value(d@[4 - k])));
        }
        r.append(" [");
        r.append(rank.name());
        r.append("]");
        r
    }
}

} // verus!
