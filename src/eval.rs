use rayon::iter::{IntoParallelIterator, ParallelIterator};
use vstd::prelude::*;

use crate::cards::{
    deck_without, spec_all_faces, spec_deck_without, spec_open_hand, unique_open_hands, Card,
};
use crate::combos::{combinations, combos, lemma_combos_elements, lemma_combos_len_deck};
use crate::preflop::{
    covered, spec_index, spec_range, HandChart, HandSuite, OpeningHand, OPPONENT_RANGE,
};
use crate::rank::{best_hand_in, best_rank, rank_cmp, Ranking};
use crate::state::{Board, DeckState};

verus! {

/// What to do with a hand, from most passive to most aggressive.
#[derive(Debug, Clone, Copy, PartialEq, Eq, Structural, PartialOrd, Ord, Hash)]
pub enum Recommendation {
    Fold,
    Call,
    Raise,
    AllIn,
}

impl Recommendation {
    /// Position in the order `Fold < Call < Raise < AllIn`.
    pub open spec fn spec_level(self) -> int {
        match self {
            Recommendation::Fold => 0,
            Recommendation::Call => 1,
            Recommendation::Raise => 2,
            Recommendation::AllIn => 3,
        }
    }

    pub fn level(self) -> (r: u8)
        ensures
            r == self.spec_level(),
    {
        match self {
            Recommendation::Fold => 0,
            Recommendation::Call => 1,
            Recommendation::Raise => 2,
            Recommendation::AllIn => 3,
        }
    }

    /// The greater of two recommendations.
    pub open spec fn spec_max(self, other: Recommendation) -> Recommendation {
        if self.spec_level() >= other.spec_level() {
            self
        } else {
            other
        }
    }

    pub fn max(self, other: Recommendation) -> (r: Recommendation)
        ensures
            r == self.spec_max(other),
    {
        if self.level() >= other.level() {
            self
        } else {
            other
        }
    }

    /// One letter standing for the recommendation in a chart printout:
    /// `f`, `c`, `r` or `a` in ASCII.
    pub open spec fn spec_symbol(self) -> u8 {
        match self {
            Recommendation::Fold => 102,
            Recommendation::Call => 99,
            Recommendation::Raise => 114,
            Recommendation::AllIn => 97,
        }
    }

    pub fn symbol(self) -> (r: u8)
        ensures
            r == self.spec_symbol(),
    {
        match self {
            Recommendation::Fold => 102,
            Recommendation::Call => 99,
            Recommendation::Raise => 114,
            Recommendation::AllIn => 97,
        }
    }

    /// The text shown for the recommendation.
    pub fn name(self) -> &'static str {
        match self {
            Recommendation::Fold => "Check / fold",
            Recommendation::Call => "Call",
            Recommendation::Raise => "Raise",
            Recommendation::AllIn => "All in",
        }
    }
}

impl Default for Recommendation {
    fn default() -> (r: Recommendation)
        ensures
            r == Recommendation::Fold,
    {
        Recommendation::Fold
    }
}

/// Which opponent hands the equity enumeration considers.
#[derive(Debug, Clone, Copy, PartialEq, Eq, Structural)]
pub enum Variance {
    /// Every opponent hand.
    Random,
    /// Only the hands of the expected opponent range.
    Weighted,
}

impl Default for Variance {
    fn default() -> (r: Variance)
        ensures
            r == Variance::Weighted,
    {
        Variance::Weighted
    }
}

/// Wins, ties and losses counted over an enumeration.
#[derive(Debug, Clone, Copy, PartialEq, Eq, Structural)]
pub struct Outcomes {
    pub wins: u64,
    pub ties: u64,
    pub losses: u64,
}

/// A tally as integers: wins, ties, losses.
pub type Tally = (int, int, int);

impl Outcomes {
    pub open spec fn model(self) -> Tally {
        (self.wins as int, self.ties as int, self.losses as int)
    }
}

/// One win, tie or loss, by the sign of a comparison.
pub open spec fn outcome_of(c: int) -> Tally {
    if c > 0 {
        (1, 0, 0)
    } else if c == 0 {
        (0, 1, 0)
    } else {
        (0, 0, 1)
    }
}

pub open spec fn add_tally(a: Tally, b: Tally) -> Tally {
    (a.0 + b.0, a.1 + b.1, a.2 + b.2)
}

/// The sum of a list of tallies.
pub open spec fn sum_tallies(s: Seq<Tally>) -> Tally
    decreases s.len(),
{
    if s.len() == 0 {
        (0, 0, 0)
    } else {
        add_tally(sum_tallies(s.drop_last()), s.last())
    }
}

/// The result for the hero of one showdown of best hands.
pub open spec fn showdown(hero: Seq<Card>, opponent: Seq<Card>) -> Tally {
    outcome_of(rank_cmp(best_rank(hero), best_rank(opponent)))
}

/// How many community cards are still to come.
pub open spec fn cards_to_come(board: Board) -> nat {
    match board {
        Board::PreFlop => 3,
        Board::Flop(_) => 2,
        Board::Turn(_) => 1,
        Board::River(_) => 0,
    }
}

/// The showdowns of hero and opponent over each run-out, in order.
pub open spec fn runout_results(hero: Seq<Card>, opponent: Seq<Card>, runouts: Seq<Seq<Card>>) -> Seq<
    Tally,
> {
    runouts.map_values(|f: Seq<Card>| showdown(hero + f, opponent + f))
}

/// The run-outs left once the state's cards and the opponent's are dealt.
pub open spec fn runouts(state: DeckState, opponent: Seq<Card>) -> Seq<Seq<Card>> {
    combos(spec_deck_without(state.spec_cards() + opponent), cards_to_come(state.board))
}

/// The hero's tally against one opponent hand over every run-out.
pub open spec fn tally_against(state: DeckState, opponent: Seq<Card>) -> Tally {
    let b = state.board.spec_cards();
    sum_tallies(runout_results(state.hand@ + b, opponent + b, runouts(state, opponent)))
}

/// The tokens of the expected opponent range.
pub open spec fn opponent_tokens() -> Seq<(OpeningHand, bool)> {
    spec_range(OPPONENT_RANGE@)->Some_0
}

/// The starting class of two cards.
pub open spec fn class_of(a: Card, b: Card) -> OpeningHand {
    OpeningHand(
        a.0,
        b.0,
        if a.1 == b.1 {
            HandSuite::Suited
        } else {
            HandSuite::OffSuite
        },
    )
}

/// Whether an opponent hand is considered under the variance.
pub open spec fn allows(variance: Variance, opponent: Seq<Card>) -> bool {
    match variance {
        Variance::Random => true,
        Variance::Weighted => {
            let i = spec_index(class_of(opponent[0], opponent[1]));
            covered(opponent_tokens(), i.0, i.1)
        },
    }
}

/// The representatives of the 169 starting classes (see `unique_open_hands`).
pub open spec fn open_hands() -> Seq<Seq<Card>> {
    Seq::new(
        169,
        |k: int|
            {
                let p = spec_open_hand(spec_all_faces()[k / 13], spec_all_faces()[k % 13]);
                seq![p.0, p.1]
            },
    )
}

/// The opponent hands before filtering: the starting classes preflop, every
/// pair of unseen cards later.
pub open spec fn candidate_opponents(state: DeckState) -> Seq<Seq<Card>> {
    if state.board is PreFlop {
        open_hands()
    } else {
        combos(spec_deck_without(state.spec_cards()), 2)
    }
}

/// The opponent hands that the enumeration considers.
pub open spec fn opponents(state: DeckState, variance: Variance) -> Seq<Seq<Card>> {
    candidate_opponents(state).filter(|o: Seq<Card>| allows(variance, o))
}

/// The tally against each considered opponent hand.
pub open spec fn partial_tallies(state: DeckState, variance: Variance) -> Seq<Tally> {
    opponents(state, variance).map_values(|o: Seq<Card>| tally_against(state, o))
}

/// The hero's tally over every considered opponent hand and run-out.
pub open spec fn spec_tally(state: DeckState, variance: Variance) -> Tally {
    sum_tallies(partial_tallies(state, variance))
}

/// The card lists held by a list of vectors.
pub open spec fn views(v: Seq<Vec<Card>>) -> Seq<Seq<Card>> {
    v.map_values(|x: Vec<Card>| x@)
}

/// `a` followed by `b`.
fn concat(a: &Vec<Card>, b: &Vec<Card>) -> (r: Vec<Card>)
    ensures
        r@ == a@ + b@,
{
    let mut r = a.clone();
    assert(r@ == a@);
    for i in 0..b.len()
        invariant
            r@ == a@ + b@.take(i as int),
    {
        r.push(b[i]);
        assert(r@ =~= a@ + b@.take(i + 1));
    }
    assert(b@.take(b@.len() as int) =~= b@);
    r
}

/// The best ranking among the five-card selections of `cards`.
fn best_ranking(cards: &Vec<Card>) -> (r: Ranking)
    requires
        cards@.len() >= 5,
    ensures
        r.model() == best_rank(cards@),
{
    let h = best_hand_in(cards);
    Ranking::from_hand(&h)
}

impl DeckState {
    /// How many community cards are still to come.
    pub fn cards_to_come(&self) -> (r: usize)
        ensures
            r == cards_to_come(self.board),
    {
        match self.board {
            Board::PreFlop => 3,
            Board::Flop(_) => 2,
            Board::Turn(_) => 1,
            Board::River(_) => 0,
        }
    }

    /// The hero's tally against one opponent hand over every run-out.
    pub fn tally_against(&self, opponent: &Vec<Card>) -> (r: Outcomes)
        requires
            opponent@.len() == 2,
        ensures
            r.model() == tally_against(*self, opponent@),
            r.wins + r.ties + r.losses <= 140608,
    {
        let b = self.board.cards();
        let mut hero_base: Vec<Card> = Vec::new();
        hero_base.push(self.hand[0]);
        hero_base.push(self.hand[1]);
        assert(hero_base@ =~= self.hand@);
        let hero_base = concat(&hero_base, &b);
        let opp_base = concat(opponent, &b);
        let known = self.cards();
        let excluded = concat(&known, opponent);
        let rest = deck_without(excluded.as_slice());
        let n = self.cards_to_come();
        let runs = combinations(&rest, n);
        let ghost results = runout_results(hero_base@, opp_base@, runouts(*self, opponent@));
        proof {
            lemma_combos_elements(rest@, n as nat);
            spec_deck_without_len(excluded@);
            lemma_combos_len_deck(rest@, n as nat);
        }
        proof {
            match self.board {
                Board::PreFlop => {},
                Board::Flop(c) => assert(c@.len() == 3),
                Board::Turn(c) => assert(c@.len() == 4),
                Board::River(c) => assert(c@.len() == 5),
            }
        }
        let mut out = Outcomes { wins: 0, ties: 0, losses: 0 };
        for i in 0..runs.len()
            invariant
                runs@.len() == combos(rest@, n as nat).len(),
                runs@.len() <= 140608,
                forall|k: int| 0 <= k < runs@.len() ==> #[trigger] runs@[k]@ == combos(rest@, n as nat)[k],
                forall|k: int|
                    0 <= k < combos(rest@, n as nat).len() ==> (#[trigger] combos(rest@, n as nat)[k]).len() == n,
                combos(rest@, n as nat) == runouts(*self, opponent@),
                hero_base@.len() + n >= 5,
                opp_base@.len() + n >= 5,
                results == runout_results(hero_base@, opp_base@, runouts(*self, opponent@)),
                out.model() == sum_tallies(results.take(i as int)),
                out.wins + out.ties + out.losses == i,
        {
            let hero_cards = concat(&hero_base, &runs[i]);
            let opp_cards = concat(&opp_base, &runs[i]);
            let hr = best_ranking(&hero_cards);
            let or = best_ranking(&opp_cards);
            proof {
                assert(results.take(i + 1).drop_last() =~= results.take(i as int));
            }
            match hr.compare(&or) {
                std::cmp::Ordering::Greater => {
                    out.wins = out.wins + 1;
                },
                std::cmp::Ordering::Equal => {
                    out.ties = out.ties + 1;
                },
                std::cmp::Ordering::Less => {
                    out.losses = out.losses + 1;
                },
            }
        }
        proof {
            assert(results.take(results.len() as int) =~= results);
        }
        out
    }
}

/// The deck without some cards has at most 52 cards.
proof fn spec_deck_without_len(excluded: Seq<Card>)
    ensures
        spec_deck_without(excluded).len() <= 52,
{
    broadcast use vstd::seq_lib::group_filter_ensures;

    assert(crate::cards::spec_deck().filter(|c: Card| !excluded.contains(c)).len() <= 52);
}

impl DeckState {
    /// The opponent hands before filtering (see `candidate_opponents`).
    fn candidate_opponents(&self) -> (r: Vec<Vec<Card>>)
        ensures
            views(r@) == candidate_opponents(*self),
            r@.len() <= 2704,
            forall|k: int| 0 <= k < r@.len() ==> (#[trigger] r@[k])@.len() == 2,
    {
        if let Board::PreFlop = self.board {
            let classes = unique_open_hands();
            let mut r: Vec<Vec<Card>> = Vec::new();
            for k in 0..classes.len()
                invariant
                    self.board is PreFlop,
                    classes@.len() == 169,
                    forall|i: int, j: int|
                        0 <= i < 13 && 0 <= j < 13 ==> {
                            let p = spec_open_hand(spec_all_faces()[i], spec_all_faces()[j]);
                            &&& (#[trigger] classes@[i * 13 + j])@[0] == p.0
                            &&& classes@[i * 13 + j]@[1] == p.1
                        },
                    views(r@) == open_hands().take(k as int),
                    r@.len() == k,
                    forall|m: int| 0 <= m < r@.len() ==> (#[trigger] r@[m])@.len() == 2,
            {
                let pair = classes[k];
                let mut v: Vec<Card> = Vec::new();
                v.push(pair[0]);
                v.push(pair[1]);
                proof {
                    let i = k as int / 13;
                    let j = k as int % 13;
                    assert(k as int == i * 13 + j);
                    assert(classes@[i * 13 + j]@[0] == pair[0]);
                    assert(v@ =~= open_hands()[k as int]);
                }
                r.push(v);
                assert(views(r@) =~= open_hands().take(k + 1));
            }
            assert(open_hands().take(169) =~= open_hands());
            r
        } else {
            let known = self.cards();
            let rest = deck_without(known.as_slice());
            let r = combinations(&rest, 2);
            proof {
                lemma_combos_elements(rest@, 2);
                crate::eval::spec_deck_without_len(known@);
                lemma_combos_len_deck(rest@, 2);
                assert(views(r@) =~= candidate_opponents(*self));
            }
            r
        }
    }

    /// The opponent hands that the enumeration considers (see `opponents`).
    pub fn opponents(&self, variance: Variance) -> (r: Vec<Vec<Card>>)
        ensures
            views(r@) == opponents(*self, variance),
            r@.len() <= 2704,
            forall|k: int| 0 <= k < r@.len() ==> (#[trigger] r@[k])@.len() == 2,
    {
        let cands = self.candidate_opponents();
        let chart = match variance {
            Variance::Random => HandChart::filled_with(Recommendation::Call),
            Variance::Weighted => HandChart::opponent_expectation(),
        };
        let ghost pred = |o: Seq<Card>| allows(variance, o);
        let mut r: Vec<Vec<Card>> = Vec::new();
        for k in 0..cands.len()
            invariant
                views(cands@) == candidate_opponents(*self),
                cands@.len() <= 2704,
                forall|m: int| 0 <= m < cands@.len() ==> (#[trigger] cands@[m])@.len() == 2,
                pred == (|o: Seq<Card>| allows(variance, o)),
                variance is Random ==> forall|x: int, y: int|
                    0 <= x < 13 && 0 <= y < 13 ==> #[trigger] chart.at(x, y)
                        == Recommendation::Call,
                variance is Weighted ==> chart.is_chart_of(Recommendation::Call, opponent_tokens()),
                views(r@) == views(cands@).take(k as int).filter(pred),
                r@.len() <= k,
                forall|m: int| 0 <= m < r@.len() ==> (#[trigger] r@[m])@.len() == 2,
        {
            let o = &cands[k];
            let keep = chart.filter_hand([o[0], o[1]]);
            proof {
                let os = views(cands@)[k as int];
                assert(os == o@);
                let idx = spec_index(class_of(os[0], os[1]));
                assert(OpeningHand::spec_from_cards([o@[0], o@[1]]) == class_of(os[0], os[1]));
                crate::preflop::lemma_index_bounds(class_of(os[0], os[1]));
                assert(keep == pred(os)) by {
                    assert(chart.at(idx.0, idx.1) == chart.spec_class(class_of(os[0], os[1])));
                }
                views(cands@).take(k as int).lemma_filter_push(os, pred);
                assert(views(cands@).take(k as int).push(os) =~= views(cands@).take(k + 1));
            }
            if keep {
                r.push(o.clone());
                proof {
                    assert(r@.last()@ == o@);
                    assert(views(r@) =~= views(cands@).take(k + 1).filter(pred));
                }
            }
        }
        assert(views(cands@).take(cands@.len() as int) =~= views(cands@));
        r
    }

    /// The tally, summed one opponent hand after another.
    pub fn tally_sequential(&self, variance: Variance) -> (r: Outcomes)
        ensures
            r.model() == spec_tally(*self, variance),
            r.wins + r.ties + r.losses <= 2704 * 140608,
    {
        let opps = self.opponents(variance);
        let ghost parts = partial_tallies(*self, variance);
        let mut out = Outcomes { wins: 0, ties: 0, losses: 0 };
        for k in 0..opps.len()
            invariant
                views(opps@) == opponents(*self, variance),
                opps@.len() <= 2704,
                forall|m: int| 0 <= m < opps@.len() ==> (#[trigger] opps@[m])@.len() == 2,
                parts == partial_tallies(*self, variance),
                out.model() == sum_tallies(parts.take(k as int)),
                out.wins + out.ties + out.losses <= k * 140608,
        {
            let t = self.tally_against(&opps[k]);
            proof {
                assert(parts.take(k + 1).drop_last() =~= parts.take(k as int));
                assert(views(opps@)[k as int] == opps@[k as int]@);
                assert(k * 140608 <= 2704 * 140608) by (nonlinear_arith)
                    requires
                        k < 2704,
                ;
            }
            out = add_outcomes(out, t);
        }
        assert(parts.take(parts.len() as int) =~= parts);
        out
    }

    /// The tally, each opponent hand's share computed on a worker pool and
    /// the shares summed afterwards.
    pub fn tally(&self, variance: Variance) -> (r: Outcomes)
        ensures
            r.model() == spec_tally(*self, variance),
            r.wins + r.ties + r.losses <= 2704 * 140608,
    {
        if let Board::River(_) = self.board {
            // one showdown per opponent hand: not worth a worker pool
            return self.tally_sequential(variance);
        }
        let opps = self.opponents(variance);
        let ghost parts = partial_tallies(*self, variance);
        let ghost opp_views = views(opps@);
        let shares = par_tallies(self, opps);
        assert forall|m: int| 0 <= m < shares@.len() implies #[trigger] shares@[m].model() == parts[m] by {
            assert(opp_views[m] == opponents(*self, variance)[m]);
        }
        let mut out = Outcomes { wins: 0, ties: 0, losses: 0 };
        for k in 0..shares.len()
            invariant
                shares@.len() == parts.len(),
                shares@.len() <= 2704,
                forall|m: int| 0 <= m < shares@.len() ==> #[trigger] shares@[m].model() == parts[m],
                forall|m: int|
                    0 <= m < shares@.len() ==> #[trigger] shares@[m].wins + shares@[m].ties
                        + shares@[m].losses <= 140608,
                parts == partial_tallies(*self, variance),
                out.model() == sum_tallies(parts.take(k as int)),
                out.wins + out.ties + out.losses <= k * 140608,
        {
            let t = shares[k];
            proof {
                assert(parts.take(k + 1).drop_last() =~= parts.take(k as int));
                assert(k * 140608 <= 2704 * 140608) by (nonlinear_arith)
                    requires
                        k < 2704,
                ;
            }
            out = add_outcomes(out, t);
        }
        assert(parts.take(parts.len() as int) =~= parts);
        out
    }
}

/// The sum of two tallies.
pub fn add_outcomes(a: Outcomes, b: Outcomes) -> (r: Outcomes)
    requires
        a.wins + a.ties + a.losses + b.wins + b.ties + b.losses <= u64::MAX,
    ensures
        r.model() == add_tally(a.model(), b.model()),
        r.wins + r.ties + r.losses == a.wins + a.ties + a.losses + b.wins + b.ties + b.losses,
{
    Outcomes { wins: a.wins + b.wins, ties: a.ties + b.ties, losses: a.losses + b.losses }
}

/// Relies on rayon's IntoParallelIterator::into_par_iter, map and collect
/// into a Vec: the result holds the closure's value for each item, in the
/// items' order.
#[verifier::external_body]
fn par_tallies(state: &DeckState, opponents: Vec<Vec<Card>>) -> (r: Vec<Outcomes>)
    requires
        forall|m: int| 0 <= m < opponents@.len() ==> (#[trigger] opponents@[m])@.len() == 2,
    ensures
        r@.len() == opponents@.len(),
        forall|m: int|
            0 <= m < r@.len() ==> #[trigger] r@[m].model() == tally_against(*state, opponents@[m]@),
        forall|m: int|
            0 <= m < r@.len() ==> #[trigger] r@[m].wins + r@[m].ties + r@[m].losses <= 140608,
{
    opponents.into_par_iter().map(|o| state.tally_against(&o)).collect()
}

/// A fraction `num / den`, such as a probability or pot odds.
#[derive(Debug, Clone, Copy, PartialEq, Eq, Structural)]
pub struct Odds {
    pub num: u32,
    pub den: u32,
}

impl Outcomes {
    /// The chance of winning, a tie counting half: `(wins + ties / 2) /
    /// (wins + ties + losses)`, as `(2 wins + ties) / (2 (wins + ties +
    /// losses))`; `None` when nothing was counted.
    pub fn strength(&self) -> (r: Option<Odds>)
        requires
            2 * (self.wins + self.ties + self.losses) <= u32::MAX,
        ensures
            self.wins + self.ties + self.losses == 0 ==> r is None,
            self.wins + self.ties + self.losses > 0 ==> r == Some(
                Odds {
                    num: (2 * self.wins + self.ties) as u32,
                    den: (2 * (self.wins + self.ties + self.losses)) as u32,
                },
            ),
    {
        let total = self.wins + self.ties + self.losses;
        if total == 0 {
            None
        } else {
            Some(Odds { num: (2 * self.wins + self.ties) as u32, den: (2 * total) as u32 })
        }
    }
}

impl DeckState {
    /// The hero's chance of winning over every considered opponent hand and
    /// run-out, a tie counting half; `None` when no opponent hand is
    /// considered.
    pub fn strength(&self, variance: Variance) -> (r: Option<Odds>)
        ensures
            ({
                let t = spec_tally(*self, variance);
                &&& t.0 + t.1 + t.2 == 0 ==> r is None
                &&& t.0 + t.1 + t.2 > 0 ==> r == Some(
                    Odds { num: (2 * t.0 + t.1) as u32, den: (2 * (t.0 + t.1 + t.2)) as u32 },
                )
            }),
    {
        let t = self.tally(variance);
        t.strength()
    }
}

} // verus!
