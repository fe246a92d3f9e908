use vstd::prelude::*;
use vstd::seq_lib::lemma_sorted_unique;

use crate::cards::{spec_face_values, spec_high_values, Card, Face, Suite};
use crate::eval::{add_tally, partial_tallies, spec_tally, sum_tallies, Tally, Variance};
use crate::parse::Parse;
use crate::preflop::{covers, spec_grid_pos, HandSuite, OpeningHand};
use crate::rank::{
    geq, lemma_geq_total, max_count_below, pairs_below, spec_descending, spec_descending_high,
    spec_is_flush,
    spec_ranking, value_count,
};
use crate::state::DeckState;

verus! {

broadcast use vstd::seq_lib::group_to_multiset_ensures;

/// Face values of reordered cards are the same values reordered.
proof fn lemma_face_values_multiset(a: Seq<Card>, b: Seq<Card>)
    requires
        a.to_multiset() == b.to_multiset(),
    ensures
        spec_face_values(a).to_multiset() == spec_face_values(b).to_multiset(),
    decreases a.len(),
{
    if a.len() == 0 {
        assert(b.to_multiset().len() == 0);
        assert(spec_face_values(a) =~= spec_face_values(b));
    } else {
        let x = a.last();
        let a0 = a.drop_last();
        assert(a =~= a0.push(x));
        assert(b.to_multiset().count(x) > 0);
        let j = choose|j: int| 0 <= j < b.len() && b[j] == x;
        let b0 = b.remove(j);
        assert(b0.to_multiset() =~= b.to_multiset().remove(x));
        assert(a0.to_multiset() =~= a.to_multiset().remove(x));
        lemma_face_values_multiset(a0, b0);
        assert(spec_face_values(a) =~= spec_face_values(a0).push(x.0.spec_value()));
        assert(spec_face_values(b0) =~= spec_face_values(b).remove(j));
        assert(spec_face_values(b0).to_multiset() =~= spec_face_values(b).to_multiset().remove(
            x.0.spec_value(),
        ));
        assert(spec_face_values(b).to_multiset().count(x.0.spec_value()) > 0) by {
            assert(spec_face_values(b)[j] == x.0.spec_value());
        }
    }
}

/// Ace-high values of reordered cards are the same values reordered.
proof fn lemma_high_values_multiset(a: Seq<Card>, b: Seq<Card>)
    requires
        a.to_multiset() == b.to_multiset(),
    ensures
        spec_high_values(a).to_multiset() == spec_high_values(b).to_multiset(),
    decreases a.len(),
{
    if a.len() == 0 {
        assert(b.to_multiset().len() == 0);
        assert(spec_high_values(a) =~= spec_high_values(b));
    } else {
        let x = a.last();
        let a0 = a.drop_last();
        assert(a =~= a0.push(x));
        assert(b.to_multiset().count(x) > 0);
        let j = choose|j: int| 0 <= j < b.len() && b[j] == x;
        let b0 = b.remove(j);
        assert(b0.to_multiset() =~= b.to_multiset().remove(x));
        assert(a0.to_multiset() =~= a.to_multiset().remove(x));
        lemma_high_values_multiset(a0, b0);
        assert(spec_high_values(a) =~= spec_high_values(a0).push(x.0.spec_high_value()));
        assert(spec_high_values(b0) =~= spec_high_values(b).remove(j));
        assert(spec_high_values(b0).to_multiset() =~= spec_high_values(b).to_multiset().remove(
            x.0.spec_high_value(),
        ));
        assert(spec_high_values(b).to_multiset().count(x.0.spec_high_value()) > 0) by {
            assert(spec_high_values(b)[j] == x.0.spec_high_value());
        }
    }
}

proof fn lemma_counts_agree(a: Seq<Card>, b: Seq<Card>, n: int)
    requires
        spec_face_values(a).to_multiset() == spec_face_values(b).to_multiset(),
    ensures
        max_count_below(a, n) == max_count_below(b, n),
        pairs_below(a, n) == pairs_below(b, n),
    decreases n,
{
    if n > 0 {
        lemma_counts_agree(a, b, n - 1);
        assert(value_count(a, n - 1) == value_count(b, n - 1));
    }
}

/// Classifying a five-card hand does not depend on the order of its cards:
/// two orderings of the same five cards rank alike.
pub proof fn lemma_ranking_permutation(h1: Seq<Card>, h2: Seq<Card>)
    requires
        h1.len() == 5,
        h1.to_multiset() == h2.to_multiset(),
    ensures
        spec_ranking(h1) == spec_ranking(h2),
{
    lemma_face_values_multiset(h1, h2);
    let v1 = spec_face_values(h1);
    let v2 = spec_face_values(h2);
    lemma_geq_total();
    v1.lemma_sort_by_ensures(geq());
    v2.lemma_sort_by_ensures(geq());
    lemma_sorted_unique(v1.sort_by(geq()), v2.sort_by(geq()), geq());
    assert(spec_descending(h1) == spec_descending(h2));
    lemma_high_values_multiset(h1, h2);
    let w1 = spec_high_values(h1);
    let w2 = spec_high_values(h2);
    w1.lemma_sort_by_ensures(geq());
    w2.lemma_sort_by_ensures(geq());
    lemma_sorted_unique(w1.sort_by(geq()), w2.sort_by(geq()), geq());
    assert(spec_descending_high(h1) == spec_descending_high(h2));
    lemma_counts_agree(h1, h2, 14);
    assert(h2.len() == 5) by {
        assert(h2.to_multiset().len() == h2.len());
    }
    assert(spec_is_flush(h1) == spec_is_flush(h2)) by {
        assert(h1.to_multiset().count(h2[0]) > 0);
        assert(h2.to_multiset().count(h1[0]) > 0);
        if spec_is_flush(h1) {
            assert forall|i: int| 0 <= i < h2.len() implies #[trigger] h2[i].1 == h2[0].1 by {
                assert(h1.to_multiset().count(h2[i]) > 0);
                let k = choose|k: int| 0 <= k < h1.len() && h1[k] == h2[i];
                let k0 = choose|k: int| 0 <= k < h1.len() && h1[k] == h2[0];
                assert(h1[k].1 == h1[0].1);
                assert(h1[k0].1 == h1[0].1);
            }
        }
        if spec_is_flush(h2) {
            assert forall|i: int| 0 <= i < h1.len() implies #[trigger] h1[i].1 == h1[0].1 by {
                assert(h2.to_multiset().count(h1[i]) > 0);
                let k = choose|k: int| 0 <= k < h2.len() && h2[k] == h1[i];
                let k0 = choose|k: int| 0 <= k < h2.len() && h2[k] == h1[0];
                assert(h2[k].1 == h2[0].1);
                assert(h2[k0].1 == h2[0].1);
            }
        }
    }
}

/// The upper-case form of the letters used for faces and suits.
pub open spec fn upper(c: char) -> char {
    if c == 'a' {
        'A'
    } else if c == 't' {
        'T'
    } else if c == 'j' {
        'J'
    } else if c == 'q' {
        'Q'
    } else if c == 'k' {
        'K'
    } else if c == 'h' {
        'H'
    } else if c == 's' {
        'S'
    } else if c == 'd' {
        'D'
    } else if c == 'c' {
        'C'
    } else {
        c
    }
}

/// The canonical form of a card token: upper case, with `1` written `A`.
pub open spec fn canonical_token(s: Seq<char>) -> Seq<char> {
    seq![if s[0] == '1' { 'A' } else { upper(s[0]) }, upper(s[1])]
}

/// Reading a card token and writing the card back gives the token's
/// canonical form.
pub proof fn lemma_card_token_round_trip(s: Seq<char>)
    requires
        s.len() == 2,
        Card::parse_at(s, 0) is Some,
    ensures
        Card::parse_at(s, 0) matches Some((c, end)) && end == 2 && c.spec_text()
            == canonical_token(s),
{
    let (c, end) = Card::parse_at(s, 0)->Some_0;
    assert(c.spec_text() =~= canonical_token(s));
}

/// Writing a card and reading it back gives the same card.
pub proof fn lemma_card_text_parses_back(c: Card)
    ensures
        Card::parse_at(c.spec_text(), 0) == Some((c, 2int)),
{
    let t = c.spec_text();
    assert(Face::spec_from_char(t[0]) == Some(c.0));
    assert(Suite::spec_from_char(t[1]) == Some(c.1));
}

/// Summing the concatenation of two lists of tallies is summing each and
/// adding the results: partial sums may be formed over any split.
pub proof fn lemma_sum_split(a: Seq<Tally>, b: Seq<Tally>)
    ensures
        sum_tallies(a + b) == add_tally(sum_tallies(a), sum_tallies(b)),
    decreases b.len(),
{
    if b.len() == 0 {
        assert(a + b =~= a);
    } else {
        lemma_sum_split(a, b.drop_last());
        assert((a + b).drop_last() =~= a + b.drop_last());
    }
}

/// The sum of a list of tallies does not depend on their order.
pub proof fn lemma_sum_reorder(a: Seq<Tally>, b: Seq<Tally>)
    requires
        a.to_multiset() == b.to_multiset(),
    ensures
        sum_tallies(a) == sum_tallies(b),
    decreases a.len(),
{
    if a.len() == 0 {
        assert(b.to_multiset().len() == 0);
        assert(b =~= Seq::<Tally>::empty());
    } else {
        let x = a.last();
        let a0 = a.drop_last();
        assert(a =~= a0.push(x));
        assert(b.to_multiset().count(x) > 0);
        let j = choose|j: int| 0 <= j < b.len() && b[j] == x;
        let b0 = b.remove(j);
        assert(b0.to_multiset() =~= b.to_multiset().remove(x));
        assert(a0.to_multiset() =~= a.to_multiset().remove(x));
        lemma_sum_reorder(a0, b0);
        let left = b.take(j);
        let right = b.skip(j + 1);
        assert(b =~= left + (seq![x] + right));
        assert(b0 =~= left + right);
        lemma_sum_split(left, seq![x] + right);
        lemma_sum_split(seq![x], right);
        lemma_sum_split(left, right);
        assert(seq![x].drop_last() =~= Seq::<Tally>::empty());
        assert(sum_tallies(Seq::<Tally>::empty()) == (0int, 0int, 0int));
        assert(sum_tallies(seq![x]) == add_tally((0, 0, 0), x));
        assert(sum_tallies(seq![x] + right) == add_tally(x, sum_tallies(right)));
        assert(sum_tallies(b) == add_tally(sum_tallies(left), add_tally(x, sum_tallies(right))));
        assert(sum_tallies(a) == add_tally(sum_tallies(a0), x));
    }
}

/// The parallel enumeration gives the sequential tally: however the
/// opponent hands' shares are ordered when they come back from the workers,
/// their sum is the tally summed one opponent hand after another.
pub proof fn lemma_parallel_tally(state: DeckState, variance: Variance, shares: Seq<Tally>)
    requires
        shares.to_multiset() == partial_tallies(state, variance).to_multiset(),
    ensures
        sum_tallies(shares) == spec_tally(state, variance),
{
    lemma_sum_reorder(shares, partial_tallies(state, variance));
}

/// Suited and offsuit classes live apart: a suited token, with or without
/// `+`, takes in only cells above the diagonal, and an offsuit token of
/// distinct faces only cells below it, so neither touches the other's cell.
pub proof fn lemma_suited_offsuit_apart(h: OpeningHand, plus: bool, x: int, y: int)
    requires
        h.0 != h.1,
        covers(h, plus, x, y),
    ensures
        h.2 == HandSuite::Suited ==> x < y,
        h.2 == HandSuite::OffSuite ==> x > y,
{
    assert(spec_grid_pos(h.0) != spec_grid_pos(h.1));
}

} // verus!
