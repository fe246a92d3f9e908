use vstd::prelude::*;

use crate::cards::{push_char, Card, Face};
use crate::eval::Recommendation;
use crate::state::Position;
use crate::parse::{chars_of, Parse};

verus! {

/// Whether the two cards of a starting hand share a suit.
#[derive(Debug, Clone, Copy, PartialEq, Eq, Structural)]
pub enum HandSuite {
    Suited,
    OffSuite,
}

/// A starting-hand class: two faces and whether they are suited.
#[derive(Debug, Clone, Copy, PartialEq, Eq, Structural)]
pub struct OpeningHand(pub Face, pub Face, pub HandSuite);

impl OpeningHand {
    /// The class of two concrete cards.
    pub open spec fn spec_from_cards(cards: [Card; 2]) -> OpeningHand {
        OpeningHand(
            cards@[0].0,
            cards@[1].0,
            if cards@[0].1 == cards@[1].1 {
                HandSuite::Suited
            } else {
                HandSuite::OffSuite
            },
        )
    }

    pub fn from_cards(cards: [Card; 2]) -> (r: OpeningHand)
        ensures
            r == Self::spec_from_cards(cards),
    {
        OpeningHand(
            cards[0].0,
            cards[1].0,
            if cards[0].1 == cards[1].1 {
                HandSuite::Suited
            } else {
                HandSuite::OffSuite
            },
        )
    }
}

impl OpeningHand {
    /// The class as written in a range: the two faces, then `s` or `o`
    /// unless they form a pair.
    pub open spec fn spec_text(self) -> Seq<char> {
        if self.0 == self.1 {
            seq![self.0.spec_symbol(), self.1.spec_symbol()]
        } else {
            seq![
                self.0.spec_symbol(),
                self.1.spec_symbol(),
                if self.2 == HandSuite::Suited {
                    's'
                } else {
                    'o'
                },
            ]
        }
    }

    pub fn text(&self) -> (r: String)
        ensures
            r@ == self.spec_text(),
    {
        let mut r = String::new();
        push_char(&mut r, self.0.symbol());
        push_char(&mut r, self.1.symbol());
        if self.0 != self.1 {
            let c = if self.2 == HandSuite::Suited {
                's'
            } else {
                'o'
            };
            push_char(&mut r, c);
        }
        assert(r@ =~= self.spec_text());
        r
    }
}

impl Parse for OpeningHand {
    /// Two faces; when they differ, then `s` (suited) or `o` (offsuit).
    open spec fn parse_at(s: Seq<char>, pos: int) -> Option<(OpeningHand, int)> {
        match Face::parse_at(s, pos) {
            Some((f1, p)) => match Face::parse_at(s, p) {
                Some((f2, q)) => if f1 == f2 {
                    Some((OpeningHand(f1, f2, HandSuite::OffSuite), q))
                } else if q < s.len() && s[q] == 'o' {
                    Some((OpeningHand(f1, f2, HandSuite::OffSuite), q + 1))
                } else if q < s.len() && s[q] == 's' {
                    Some((OpeningHand(f1, f2, HandSuite::Suited), q + 1))
                } else {
                    None
                },
                None => None,
            },
            None => None,
        }
    }

    fn parse(s: &[char], pos: usize) -> (r: Option<(OpeningHand, usize)>) {
        match Face::parse(s, pos) {
            Some((f1, p)) => match Face::parse(s, p) {
                Some((f2, q)) => if f1 == f2 {
                    Some((OpeningHand(f1, f2, HandSuite::OffSuite), q))
                } else if q < s.len() && s[q] == 'o' {
                    Some((OpeningHand(f1, f2, HandSuite::OffSuite), q + 1))
                } else if q < s.len() && s[q] == 's' {
                    Some((OpeningHand(f1, f2, HandSuite::Suited), q + 1))
                } else {
                    None
                },
                None => None,
            },
            None => None,
        }
    }
}

/// Row or column of a face in the grid: Ace 0, King 1, ..., Two 12.
pub open spec fn spec_grid_pos(f: Face) -> int {
    if f == Face::Ace {
        0
    } else {
        14 - f.spec_value()
    }
}

/// The cell of a class: suited hands above the diagonal, offsuit hands
/// below it, pairs on it.
pub open spec fn spec_index(h: OpeningHand) -> (int, int) {
    let a = spec_grid_pos(h.0);
    let b = spec_grid_pos(h.1);
    let lo = if a <= b {
        a
    } else {
        b
    };
    let hi = if a <= b {
        b
    } else {
        a
    };
    if h.2 == HandSuite::Suited {
        (lo, hi)
    } else {
        (hi, lo)
    }
}

pub proof fn lemma_index_bounds(h: OpeningHand)
    ensures
        0 <= spec_index(h).0 < 13,
        0 <= spec_index(h).1 < 13,
{
}

pub fn index(idx: OpeningHand) -> (r: (usize, usize))
    ensures
        (r.0 as int, r.1 as int) == spec_index(idx),
        r.0 < 13,
        r.1 < 13,
{
    let a: usize = if idx.0 == Face::Ace {
        0
    } else {
        14 - idx.0.value()
    };
    let b: usize = if idx.1 == Face::Ace {
        0
    } else {
        14 - idx.1.value()
    };
    let (lo, hi) = if a <= b {
        (a, b)
    } else {
        (b, a)
    };
    if idx.2 == HandSuite::Suited {
        (lo, hi)
    } else {
        (hi, lo)
    }
}

/// Whether the range token `h` (with `+` when `plus`) takes in cell `(x, y)`:
/// a pair and every higher pair; a suited or offsuit hand and every hand of
/// the same shape and higher face whose lower face lies between it and the
/// higher face.
pub open spec fn covers(h: OpeningHand, plus: bool, x: int, y: int) -> bool {
    let (x0, y0) = spec_index(h);
    if !plus {
        x == x0 && y == y0
    } else if x0 == y0 {
        x == y && 0 <= x <= x0
    } else if x0 < y0 {
        x == x0 && x0 < y <= y0
    } else {
        y == y0 && y0 < x <= x0
    }
}

/// Whether some token of the list takes in cell `(x, y)`.
pub open spec fn covered(tokens: Seq<(OpeningHand, bool)>, x: int, y: int) -> bool
    decreases tokens.len(),
{
    if tokens.len() == 0 {
        false
    } else {
        covers(tokens.last().0, tokens.last().1, x, y) || covered(tokens.drop_last(), x, y)
    }
}

/// One token at `pos`: a class, optionally followed by `+`.
pub open spec fn token_at(s: Seq<char>, pos: int) -> Option<((OpeningHand, bool), int)> {
    match OpeningHand::parse_at(s, pos) {
        Some((h, p)) => if p < s.len() && s[p] == '+' {
            Some(((h, true), p + 1))
        } else {
            Some(((h, false), p))
        },
        None => None,
    }
}

/// Tokens from `pos` to the end, separated by commas.
pub open spec fn range_from(s: Seq<char>, pos: int) -> Option<Seq<(OpeningHand, bool)>>
    decreases s.len() - pos,
{
    if pos < 0 || pos >= s.len() {
        None
    } else {
        match token_at(s, pos) {
            Some((t, p)) => if p >= s.len() {
                Some(seq![t])
            } else if s[p] == ',' && p > pos {
                match range_from(s, p + 1) {
                    Some(rest) => Some(seq![t] + rest),
                    None => None,
                }
            } else {
                None
            },
            None => None,
        }
    }
}

/// The tokens of a range text such as `22+,A2s+,KQo`; the empty text has
/// none, and malformed text gives `None`.
pub open spec fn spec_range(s: Seq<char>) -> Option<Seq<(OpeningHand, bool)>> {
    if s.len() == 0 {
        Some(Seq::empty())
    } else {
        range_from(s, 0)
    }
}

/// A 13 by 13 grid of recommendations, one cell per starting class; row and
/// column `0` belong to Ace and `12` to Two (see `index`).
#[derive(Debug, Clone, Copy, PartialEq, Eq)]
pub struct HandChart {
    pub cells: [Recommendation; 169],
}

pub proof fn lemma_grid_index(a: int, b: int, c: int, d: int)
    requires
        0 <= b < 13,
        0 <= d < 13,
        0 <= a,
        0 <= c,
        a * 13 + b == c * 13 + d,
    ensures
        a == c,
        b == d,
{
    assert(a == c) by (nonlinear_arith)
        requires
            0 <= b < 13,
            0 <= d < 13,
            a * 13 + b == c * 13 + d,
    ;
}

impl HandChart {
    /// `rec` in the cells that the tokens take in, `Fold` in the others.
    pub open spec fn is_chart_of(self, rec: Recommendation, tokens: Seq<(OpeningHand, bool)>) -> bool {
        forall|x: int, y: int|
            0 <= x < 13 && 0 <= y < 13 ==> #[trigger] self.at(x, y) == if covered(tokens, x, y) {
                rec
            } else {
                Recommendation::Fold
            }
    }

    /// The recommendation for a class.
    pub open spec fn spec_class(self, h: OpeningHand) -> Recommendation {
        self.at(spec_index(h).0, spec_index(h).1)
    }

    /// The cell in row `x`, column `y`.
    pub open spec fn at(self, x: int, y: int) -> Recommendation {
        self.cells@[x * 13 + y]
    }

    pub fn get(&self, x: usize, y: usize) -> (r: Recommendation)
        requires
            x < 13,
            y < 13,
        ensures
            r == self.at(x as int, y as int),
    {
        self.cells[x * 13 + y]
    }

    /// Sets one cell, leaving the others.
    pub fn set(&mut self, x: usize, y: usize, rec: Recommendation)
        requires
            x < 13,
            y < 13,
        ensures
            forall|a: int, b: int|
                0 <= a < 13 && 0 <= b < 13 ==> #[trigger] final(self).at(a, b) == if a == x && b
                    == y {
                    rec
                } else {
                    old(self).at(a, b)
                },
    {
        let k = x * 13 + y;
        self.cells[k] = rec;
        proof {
            assert forall|a: int, b: int| 0 <= a < 13 && 0 <= b < 13 implies #[trigger] self.at(
                a,
                b,
            ) == if a == x && b == y {
                rec
            } else {
                old(self).at(a, b)
            } by {
                if a * 13 + b == k {
                    lemma_grid_index(a, b, x as int, y as int);
                }
                assert(0 <= a * 13 + b < 169) by (nonlinear_arith)
                    requires
                        0 <= a < 13,
                        0 <= b < 13,
                ;
            }
        }
    }

    /// Every cell holds `rec`.
    pub fn filled_with(rec: Recommendation) -> (r: HandChart)
        ensures
            forall|x: int, y: int| 0 <= x < 13 && 0 <= y < 13 ==> #[trigger] r.at(x, y) == rec,
    {
        let r = HandChart { cells: [rec; 169] };
        proof {
            assert forall|x: int, y: int| 0 <= x < 13 && 0 <= y < 13 implies #[trigger] r.at(x, y)
                == rec by {
                assert(0 <= x * 13 + y < 169) by (nonlinear_arith)
                    requires
                        0 <= x < 13,
                        0 <= y < 13,
                ;
            }
        }
        r
    }

    /// Gives `rec` to every cell that the token `(h, plus)` takes in.
    fn apply_token(&mut self, h: OpeningHand, plus: bool, rec: Recommendation)
        ensures
            forall|a: int, b: int|
                0 <= a < 13 && 0 <= b < 13 ==> #[trigger] final(self).at(a, b) == if covers(
                    h,
                    plus,
                    a,
                    b,
                ) {
                    rec
                } else {
                    old(self).at(a, b)
                },
    {
        let (x0, y0) = index(h);
        if !plus {
            self.set(x0, y0, rec);
        } else if x0 == y0 {
            for z in 0..x0 + 1
                invariant
                    x0 == y0,
                    x0 < 13,
                    (x0 as int, y0 as int) == spec_index(h),
                    plus,
                    forall|a: int, b: int|
                        0 <= a < 13 && 0 <= b < 13 ==> #[trigger] self.at(a, b) == if a == b && 0
                            <= a < z {
                            rec
                        } else {
                            old(self).at(a, b)
                        },
            {
                self.set(z, z, rec);
            }
        } else if x0 < y0 {
            for y in x0 + 1..y0 + 1
                invariant
                    x0 < y0 < 13,
                    (x0 as int, y0 as int) == spec_index(h),
                    plus,
                    forall|a: int, b: int|
                        0 <= a < 13 && 0 <= b < 13 ==> #[trigger] self.at(a, b) == if a == x0 && x0
                            < b < y {
                            rec
                        } else {
                            old(self).at(a, b)
                        },
            {
                self.set(x0, y, rec);
            }
        } else {
            for x in y0 + 1..x0 + 1
                invariant
                    y0 < x0 < 13,
                    (x0 as int, y0 as int) == spec_index(h),
                    plus,
                    forall|a: int, b: int|
                        0 <= a < 13 && 0 <= b < 13 ==> #[trigger] self.at(a, b) == if b == y0 && y0
                            < a < x {
                            rec
                        } else {
                            old(self).at(a, b)
                        },
            {
                self.set(x, y0, rec);
            }
        }
    }

    /// The chart of a range text: `rec` in every cell that a token takes
    /// in, `Fold` elsewhere; `None` when the text is malformed.
    pub fn parse_range(rec: Recommendation, list: &str) -> (r: Option<HandChart>)
        ensures
            match spec_range(list@) {
                Some(tokens) => r matches Some(c) && c.is_chart_of(rec, tokens),
                None => r is None,
            },
    {
        let s = chars_of(list);
        let mut chart = HandChart::filled_with(Recommendation::Fold);
        if s.len() == 0 {
            return Some(chart);
        }
        let mut p: usize = 0;
        let ghost mut done: Seq<(OpeningHand, bool)> = Seq::empty();
        loop
            invariant
                s@ == list@,
                s@.len() > 0,
                p <= s@.len(),
                spec_range(s@) == match range_from(s@, p as int) {
                    Some(rest) => Some(done + rest),
                    None => None::<Seq<(OpeningHand, bool)>>,
                },
                forall|x: int, y: int|
                    0 <= x < 13 && 0 <= y < 13 ==> #[trigger] chart.at(x, y) == if covered(
                        done,
                        x,
                        y,
                    ) {
                        rec
                    } else {
                        Recommendation::Fold
                    },
            decreases s@.len() - p,
        {
            if p >= s.len() {
                return None;
            }
            let (h, q) = match OpeningHand::parse(s.as_slice(), p) {
                Some(v) => v,
                None => {
                    return None;
                },
            };
            let mut plus = false;
            let mut e = q;
            if q < s.len() && s[q] == '+' {
                plus = true;
                e = q + 1;
            }
            assert(token_at(s@, p as int) == Some(((h, plus), e as int)));
            let ghost before = chart;
            chart.apply_token(h, plus, rec);
            proof {
                let t = (h, plus);
                assert(done.push(t).drop_last() =~= done);
                assert forall|x: int, y: int| 0 <= x < 13 && 0 <= y < 13 implies #[trigger] chart.at(
                    x,
                    y,
                ) == if covered(done.push(t), x, y) {
                    rec
                } else {
                    Recommendation::Fold
                } by {
                    assert(before.at(x, y) == if covered(done, x, y) {
                        rec
                    } else {
                        Recommendation::Fold
                    });
                }
            }
            if e >= s.len() {
                proof {
                    assert(done + seq![(h, plus)] =~= done.push((h, plus)));
                }
                return Some(chart);
            }
            if s[e] != ',' {
                return None;
            }
            proof {
                let t = (h, plus);
                match range_from(s@, e + 1) {
                    Some(rest) => {
                        assert(done + (seq![t] + rest) =~= done.push(t) + rest);
                    },
                    None => {},
                }
                done = done.push(t);
            }
            p = e + 1;
        }
    }

    /// The chart of a well-formed range text (see `parse_range`).
    pub fn new(rec: Recommendation, list: &str) -> (r: HandChart)
        requires
            spec_range(list@) is Some,
        ensures
            r.is_chart_of(rec, spec_range(list@)->Some_0),
    {
        match HandChart::parse_range(rec, list) {
            Some(c) => c,
            None => HandChart::filled_with(Recommendation::Fold),
        }
    }

    /// The range that opponents are expected to play.
    pub fn opponent_expectation() -> (r: HandChart)
        ensures
            spec_range(OPPONENT_RANGE@) is Some,
            r.is_chart_of(Recommendation::Call, spec_range(OPPONENT_RANGE@)->Some_0),
    {
        proof {
            reveal_strlit(
                "22+,A2s+,K2s+,Q2s+,J3s+,T3s+,95s+,85s+,74s+,64s+,53s+,43s,A2o+,K5o+,Q8o+,J8o+,T7o+,97o+,87o",
            );
            reveal_with_fuel(range_from, 20);
        }
        HandChart::new(Recommendation::Call, OPPONENT_RANGE)
    }

    /// The recommendation for a class.
    pub fn class(&self, h: OpeningHand) -> (r: Recommendation)
        ensures
            r == self.spec_class(h),
    {
        let (x, y) = index(h);
        self.get(x, y)
    }

    /// Whether the chart recommends more than folding for two concrete cards.
    pub fn filter_hand(&self, cards: [Card; 2]) -> (r: bool)
        ensures
            r == (self.spec_class(OpeningHand::spec_from_cards(cards)) != Recommendation::Fold),
    {
        let rec = self.class(OpeningHand::from_cards(cards));
        rec != Recommendation::Fold
    }

    /// The cell-wise greater of two charts.
    pub fn bitor(self, rhs: HandChart) -> (r: HandChart)
        ensures
            forall|x: int, y: int|
                0 <= x < 13 && 0 <= y < 13 ==> #[trigger] r.at(x, y) == self.at(x, y).spec_max(
                    rhs.at(x, y),
                ),
    {
        let mut out = self;
        for x in 0..13usize
            invariant
                forall|a: int, b: int|
                    0 <= a < 13 && 0 <= b < 13 ==> #[trigger] out.at(a, b) == if a < x {
                        self.at(a, b).spec_max(rhs.at(a, b))
                    } else {
                        self.at(a, b)
                    },
        {
            for y in 0..13usize
                invariant
                    x < 13,
                    forall|a: int, b: int|
                        0 <= a < 13 && 0 <= b < 13 ==> #[trigger] out.at(a, b) == if a < x || (a
                            == x && b < y) {
                            self.at(a, b).spec_max(rhs.at(a, b))
                        } else {
                            self.at(a, b)
                        },
            {
                let m = out.get(x, y).max(rhs.get(x, y));
                out.set(x, y, m);
            }
        }
        out
    }

    /// The chart as text: one line of thirteen symbols per row.
    pub fn rows_text(&self) -> (r: Vec<u8>)
        ensures
            r@.len() == 13 * 14,
            forall|x: int, y: int|
                0 <= x < 13 && 0 <= y < 13 ==> #[trigger] r@[x * 14 + y] == self.at(
                    x,
                    y,
                ).spec_symbol(),
            forall|x: int| 0 <= x < 13 ==> #[trigger] r@[x * 14 + 13] == 10,
    {
        let mut out: Vec<u8> = Vec::new();
        for x in 0..13usize
            invariant
                out@.len() == x * 14,
                forall|a: int, b: int|
                    0 <= a < x && 0 <= b < 13 ==> #[trigger] out@[a * 14 + b] == self.at(
                        a,
                        b,
                    ).spec_symbol(),
                forall|a: int| 0 <= a < x ==> #[trigger] out@[a * 14 + 13] == 10,
        {
            for y in 0..13usize
                invariant
                    x < 13,
                    out@.len() == x * 14 + y,
                    forall|a: int, b: int|
                        (0 <= a < x && 0 <= b < 13) || (a == x && 0 <= b < y) ==> #[trigger] out@[a
                            * 14 + b] == self.at(a, b).spec_symbol(),
                    forall|a: int| 0 <= a < x ==> #[trigger] out@[a * 14 + 13] == 10,
            {
                out.push(self.get(x, y).symbol());
                proof {
                    assert forall|a: int, b: int|
                        (0 <= a < x && 0 <= b < 13) || (a == x && 0 <= b < y + 1) implies #[trigger] out@[a
                            * 14 + b] == self.at(a, b).spec_symbol() by {
                        if a < x {
                            assert(a * 14 + b < x * 14) by (nonlinear_arith)
                                requires
                                    a < x,
                                    b < 13,
                            ;
                        }
                    }
                    assert forall|a: int| 0 <= a < x implies #[trigger] out@[a * 14 + 13] == 10 by {
                        assert(a * 14 + 13 < x * 14) by (nonlinear_arith)
                            requires
                                a < x,
                        ;
                    }
                }
            }
            out.push(10);
            proof {
                assert forall|a: int, b: int|
                    0 <= a < x + 1 && 0 <= b < 13 implies #[trigger] out@[a * 14 + b] == self.at(
                        a,
                        b,
                    ).spec_symbol() by {
                    if a < x {
                        assert(a * 14 + b < x * 14) by (nonlinear_arith)
                            requires
                                a < x,
                                b < 13,
                        ;
                    }
                }
                assert forall|a: int| 0 <= a < x + 1 implies #[trigger] out@[a * 14 + 13] == 10 by {
                    if a < x {
                        assert(a * 14 + 13 < x * 14) by (nonlinear_arith)
                            requires
                                a < x,
                        ;
                    }
                }
            }
        }
        out
    }
}

impl Default for HandChart {
    /// The chart that folds everything.
    fn default() -> (r: HandChart)
        ensures
            forall|x: int, y: int|
                0 <= x < 13 && 0 <= y < 13 ==> #[trigger] r.at(x, y) == Recommendation::Fold,
    {
        HandChart::filled_with(Recommendation::Fold)
    }
}

/// The range that opponents are expected to play.
pub const OPPONENT_RANGE: &'static str = "22+,A2s+,K2s+,Q2s+,J3s+,T3s+,95s+,85s+,74s+,64s+,53s+,43s,A2o+,K5o+,Q8o+,J8o+,T7o+,97o+,87o";

impl Position {
    /// The opening table: the recommendation and range text of the seat; the big blind
    /// has none and calls everything.
    pub open spec fn spec_opening_range(self) -> Option<(Recommendation, &'static str)> {
        match self {
            Position::BigBlind => None,
            Position::SmallBlind => Some((Recommendation::Call, OPENING_SMALL_BLIND)),
            Position::Button => Some((Recommendation::Raise, OPENING_BUTTON)),
            Position::Cutoff => Some((Recommendation::Raise, OPENING_CUTOFF)),
            Position::Hijack => Some((Recommendation::Raise, OPENING_HIJACK)),
            Position::Lojack => Some((Recommendation::Raise, OPENING_LOJACK)),
            Position::UTG2 => Some((Recommendation::Raise, OPENING_UTG2)),
            Position::UTG1 => Some((Recommendation::Raise, OPENING_UTG1)),
            Position::UTG => Some((Recommendation::Raise, OPENING_UTG)),
        }
    }

    pub fn opening_range(self) -> (r: Option<(Recommendation, &'static str)>)
        ensures
            r == self.spec_opening_range(),
            r matches Some((_, text)) ==> spec_range(text@) is Some,
    {
        match self {
            Position::BigBlind => None,
            Position::SmallBlind => {
                proof {
                    lemma_opening_small_blind_parses();
                }
                Some((Recommendation::Call, OPENING_SMALL_BLIND))
            },
            Position::Button => {
                proof {
                    lemma_opening_button_parses();
                }
                Some((Recommendation::Raise, OPENING_BUTTON))
            },
            Position::Cutoff => {
                proof {
                    lemma_opening_cutoff_parses();
                }
                Some((Recommendation::Raise, OPENING_CUTOFF))
            },
            Position::Hijack => {
                proof {
                    lemma_opening_hijack_parses();
                }
                Some((Recommendation::Raise, OPENING_HIJACK))
            },
            Position::Lojack => {
                proof {
                    lemma_opening_lojack_parses();
                }
                Some((Recommendation::Raise, OPENING_LOJACK))
            },
            Position::UTG2 => {
                proof {
                    lemma_opening_utg2_parses();
                }
                Some((Recommendation::Raise, OPENING_UTG2))
            },
            Position::UTG1 => {
                proof {
                    lemma_opening_utg1_parses();
                }
                Some((Recommendation::Raise, OPENING_UTG1))
            },
            Position::UTG => {
                proof {
                    lemma_opening_utg_parses();
                }
                Some((Recommendation::Raise, OPENING_UTG))
            },
        }
    }

    /// Game theory optimal preflop chart.
    pub fn gto_preflop(self) -> (r: HandChart)
        ensures
            match self.spec_opening_range() {
                None => forall|x: int, y: int|
                    0 <= x < 13 && 0 <= y < 13 ==> #[trigger] r.at(x, y) == Recommendation::Call,
                Some((rec, text)) => spec_range(text@) is Some && r.is_chart_of(
                    rec,
                    spec_range(text@)->Some_0,
                ),
            },
    {
        match self.opening_range() {
            None => HandChart::filled_with(Recommendation::Call),
            Some((rec, text)) => HandChart::new(rec, text),
        }
    }

    /// The short-stack table: the recommendation and range text of the seat; the big blind
    /// has none and calls everything.
    pub open spec fn spec_push_range(self) -> Option<(Recommendation, &'static str)> {
        match self {
            Position::BigBlind => None,
            Position::SmallBlind => Some((Recommendation::AllIn, PUSH_SMALL_BLIND)),
            Position::Button => Some((Recommendation::AllIn, PUSH_BUTTON)),
            Position::Cutoff => Some((Recommendation::AllIn, PUSH_CUTOFF)),
            Position::Hijack => Some((Recommendation::AllIn, PUSH_HIJACK)),
            Position::Lojack => Some((Recommendation::AllIn, PUSH_LOJACK)),
            Position::UTG2 => Some((Recommendation::AllIn, PUSH_UTG2)),
            Position::UTG1 => Some((Recommendation::AllIn, PUSH_UTG1)),
            Position::UTG => Some((Recommendation::AllIn, PUSH_UTG)),
        }
    }

    pub fn push_range(self) -> (r: Option<(Recommendation, &'static str)>)
        ensures
            r == self.spec_push_range(),
            r matches Some((_, text)) ==> spec_range(text@) is Some,
    {
        match self {
            Position::BigBlind => None,
            Position::SmallBlind => {
                proof {
                    lemma_push_small_blind_parses();
                }
                Some((Recommendation::AllIn, PUSH_SMALL_BLIND))
            },
            Position::Button => {
                proof {
                    lemma_push_button_parses();
                }
                Some((Recommendation::AllIn, PUSH_BUTTON))
            },
            Position::Cutoff => {
                proof {
                    lemma_push_cutoff_parses();
                }
                Some((Recommendation::AllIn, PUSH_CUTOFF))
            },
            Position::Hijack => {
                proof {
                    lemma_push_hijack_parses();
                }
                Some((Recommendation::AllIn, PUSH_HIJACK))
            },
            Position::Lojack => {
                proof {
                    lemma_push_lojack_parses();
                }
                Some((Recommendation::AllIn, PUSH_LOJACK))
            },
            Position::UTG2 => {
                proof {
                    lemma_push_utg2_parses();
                }
                Some((Recommendation::AllIn, PUSH_UTG2))
            },
            Position::UTG1 => {
                proof {
                    lemma_push_utg1_parses();
                }
                Some((Recommendation::AllIn, PUSH_UTG1))
            },
            Position::UTG => {
                proof {
                    lemma_push_utg_parses();
                }
                Some((Recommendation::AllIn, PUSH_UTG))
            },
        }
    }

    /// Preflop chart for short stacks.
    pub fn short_preflop(self) -> (r: HandChart)
        ensures
            match self.spec_push_range() {
                None => forall|x: int, y: int|
                    0 <= x < 13 && 0 <= y < 13 ==> #[trigger] r.at(x, y) == Recommendation::Call,
                Some((rec, text)) => spec_range(text@) is Some && r.is_chart_of(
                    rec,
                    spec_range(text@)->Some_0,
                ),
            },
    {
        match self.push_range() {
            None => HandChart::filled_with(Recommendation::Call),
            Some((rec, text)) => HandChart::new(rec, text),
        }
    }

    /// Preflop chart for deep stacks: the big blind calls everything, the
    /// other seats have an empty range.
    pub fn tall_preflop(self) -> (r: HandChart)
        ensures
            forall|x: int, y: int|
                0 <= x < 13 && 0 <= y < 13 ==> #[trigger] r.at(x, y) == if self == Position::BigBlind {
                    Recommendation::Call
                } else {
                    Recommendation::Fold
                },
    {
        match self {
            Position::BigBlind => HandChart::filled_with(Recommendation::Call),
            _ => HandChart::filled_with(Recommendation::Fold),
        }
    }
}

proof fn lemma_opening_small_blind_parses()
    ensures
        spec_range(OPENING_SMALL_BLIND@) is Some,
{
    reveal_strlit("22+,A2s+,K2s+,Q2s+,J2s+,T2s+,92s+,82s+,72s+,62s+,52s+,42s+,32s,A2o+,K2o+,Q2o+,J2o+,T3o+,95o+,85o+,75o+,64o+,54o");
    reveal_with_fuel(range_from, 26);
}

proof fn lemma_opening_button_parses()
    ensures
        spec_range(OPENING_BUTTON@) is Some,
{
    reveal_strlit("22+,A2s+,K2s+,Q2s+,J3s+,T3s+,95s+,85s+,74s+,64s+,53s+,43s,A2o+,K5o+,Q8o+,J8o+,T7o+,97o+,87o");
    reveal_with_fuel(range_from, 26);
}

proof fn lemma_opening_cutoff_parses()
    ensures
        spec_range(OPENING_CUTOFF@) is Some,
{
    reveal_strlit("22+,A2s+,K2s+,Q5s+,J7s+,T6s+,96s+,86s+,75s+,65s,54s,A5o+,K9o+,Q9o+,J9o+,T9o");
    reveal_with_fuel(range_from, 26);
}

proof fn lemma_opening_hijack_parses()
    ensures
        spec_range(OPENING_HIJACK@) is Some,
{
    reveal_strlit("22+,A2s+,K4s+,Q8s+,J8s+,T7s+,97s+,87s,76s,65s,54s,A8o+,KTo+,QTo+,JTo");
    reveal_with_fuel(range_from, 26);
}

proof fn lemma_opening_lojack_parses()
    ensures
        spec_range(OPENING_LOJACK@) is Some,
{
    reveal_strlit("33+,A2s+,K6s+,Q9s+,J8s+,T8s+,98s,87s,76s,A9o+,KTo+,QTo+");
    reveal_with_fuel(range_from, 26);
}

proof fn lemma_opening_utg2_parses()
    ensures
        spec_range(OPENING_UTG2@) is Some,
{
    reveal_strlit("44+,A2s+,K8s+,Q9s+,J9s+,T8s+,98s,76s,ATo+,KTo+");
    reveal_with_fuel(range_from, 26);
}

proof fn lemma_opening_utg1_parses()
    ensures
        spec_range(OPENING_UTG1@) is Some,
{
    reveal_strlit("66+,A3s+,K8s+,Q9s+,J9s+,T9s,98s,ATo+");
    reveal_with_fuel(range_from, 26);
}

proof fn lemma_opening_utg_parses()
    ensures
        spec_range(OPENING_UTG@) is Some,
{
    reveal_strlit("66+,A3s+,K9s+,Q9s+,AJo+,KQo");
    reveal_with_fuel(range_from, 26);
}

proof fn lemma_push_small_blind_parses()
    ensures
        spec_range(PUSH_SMALL_BLIND@) is Some,
{
    reveal_strlit("22+,A2s+,K2s+,Q2s+,J2s+,T2s+,92s+,82s+,72s+,62s+,52s+,42s+,32s,A2o+,K2o+,Q2o+,J2o+,T4o+,95o+,86o+,75o+,65o");
    reveal_with_fuel(range_from, 26);
}

proof fn lemma_push_button_parses()
    ensures
        spec_range(PUSH_BUTTON@) is Some,
{
    reveal_strlit("22+,A2s+,K2s+,Q5s+,J6s+,T6s+,97s+,87s,A2o+,K7o+,QTo+,JTo");
    reveal_with_fuel(range_from, 26);
}

proof fn lemma_push_cutoff_parses()
    ensures
        spec_range(PUSH_CUTOFF@) is Some,
{
    reveal_strlit("22+,A2s+,K6s+,Q8s+,J8s+,T8s+,98s,A2o+,KTo+,QTo+,JTo");
    reveal_with_fuel(range_from, 26);
}

proof fn lemma_push_hijack_parses()
    ensures
        spec_range(PUSH_HIJACK@) is Some,
{
    reveal_strlit("22+,A2s+,K9s+,Q9s+,J9s+,T8s+,98s,A3o+,KTo+,QJo,JTo");
    reveal_with_fuel(range_from, 26);
}

proof fn lemma_push_lojack_parses()
    ensures
        spec_range(PUSH_LOJACK@) is Some,
{
    reveal_strlit("22+,A2s+,K9s+,Q9s+,J9s+,T9s,98s,A7o+,KTo+,QJo");
    reveal_with_fuel(range_from, 26);
}

proof fn lemma_push_utg2_parses()
    ensures
        spec_range(PUSH_UTG2@) is Some,
{
    reveal_strlit("33+,A2s+,K9s+,Q9s+,J9s+,T9s,A9o+,KJo+,QJo");
    reveal_with_fuel(range_from, 26);
}

proof fn lemma_push_utg1_parses()
    ensures
        spec_range(PUSH_UTG1@) is Some,
{
    reveal_strlit("33+,A2s+,K9s+,Q9s+,J9s+,T9s,A9o+,KJo+,QJo");
    reveal_with_fuel(range_from, 26);
}

proof fn lemma_push_utg_parses()
    ensures
        spec_range(PUSH_UTG@) is Some,
{
    reveal_strlit("44+,A4s+,K9s+,QTs+,J9s+,T9s,A9o+,KJo+");
    reveal_with_fuel(range_from, 26);
}

/// Opening range from SmallBlind.
pub const OPENING_SMALL_BLIND: &'static str = "22+,A2s+,K2s+,Q2s+,J2s+,T2s+,92s+,82s+,72s+,62s+,52s+,42s+,32s,A2o+,K2o+,Q2o+,J2o+,T3o+,95o+,85o+,75o+,64o+,54o";

/// Opening range from Button.
pub const OPENING_BUTTON: &'static str = "22+,A2s+,K2s+,Q2s+,J3s+,T3s+,95s+,85s+,74s+,64s+,53s+,43s,A2o+,K5o+,Q8o+,J8o+,T7o+,97o+,87o";

/// Opening range from Cutoff.
pub const OPENING_CUTOFF: &'static str = "22+,A2s+,K2s+,Q5s+,J7s+,T6s+,96s+,86s+,75s+,65s,54s,A5o+,K9o+,Q9o+,J9o+,T9o";

/// Opening range from Hijack.
pub const OPENING_HIJACK: &'static str = "22+,A2s+,K4s+,Q8s+,J8s+,T7s+,97s+,87s,76s,65s,54s,A8o+,KTo+,QTo+,JTo";

/// Opening range from Lojack.
pub const OPENING_LOJACK: &'static str = "33+,A2s+,K6s+,Q9s+,J8s+,T8s+,98s,87s,76s,A9o+,KTo+,QTo+";

/// Opening range from UTG2.
pub const OPENING_UTG2: &'static str = "44+,A2s+,K8s+,Q9s+,J9s+,T8s+,98s,76s,ATo+,KTo+";

/// Opening range from UTG1.
pub const OPENING_UTG1: &'static str = "66+,A3s+,K8s+,Q9s+,J9s+,T9s,98s,ATo+";

/// Opening range from UTG.
pub const OPENING_UTG: &'static str = "66+,A3s+,K9s+,Q9s+,AJo+,KQo";

/// Short-stack push range from SmallBlind.
pub const PUSH_SMALL_BLIND: &'static str = "22+,A2s+,K2s+,Q2s+,J2s+,T2s+,92s+,82s+,72s+,62s+,52s+,42s+,32s,A2o+,K2o+,Q2o+,J2o+,T4o+,95o+,86o+,75o+,65o";

/// Short-stack push range from Button.
pub const PUSH_BUTTON: &'static str = "22+,A2s+,K2s+,Q5s+,J6s+,T6s+,97s+,87s,A2o+,K7o+,QTo+,JTo";

/// Short-stack push range from Cutoff.
pub const PUSH_CUTOFF: &'static str = "22+,A2s+,K6s+,Q8s+,J8s+,T8s+,98s,A2o+,KTo+,QTo+,JTo";

/// Short-stack push range from Hijack.
pub const PUSH_HIJACK: &'static str = "22+,A2s+,K9s+,Q9s+,J9s+,T8s+,98s,A3o+,KTo+,QJo,JTo";

/// Short-stack push range from Lojack.
pub const PUSH_LOJACK: &'static str = "22+,A2s+,K9s+,Q9s+,J9s+,T9s,98s,A7o+,KTo+,QJo";

/// Short-stack push range from UTG2.
pub const PUSH_UTG2: &'static str = "33+,A2s+,K9s+,Q9s+,J9s+,T9s,A9o+,KJo+,QJo";

/// Short-stack push range from UTG1.
pub const PUSH_UTG1: &'static str = "33+,A2s+,K9s+,Q9s+,J9s+,T9s,A9o+,KJo+,QJo";

/// Short-stack push range from UTG.
pub const PUSH_UTG: &'static str = "44+,A4s+,K9s+,QTs+,J9s+,T9s,A9o+,KJo+";

} // verus!
