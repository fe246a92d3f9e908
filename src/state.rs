use vstd::prelude::*;

use crate::cards::{Card, Hand};
use crate::rank::{best_hand_in, best_rank, Ranking};

verus! {

/// Seats at the table, from the big blind round to under the gun.
#[derive(Debug, Clone, Copy, PartialEq, Eq, Structural)]
pub enum Position {
    BigBlind,
    SmallBlind,
    Button,
    Cutoff,
    Hijack,
    Lojack,
    UTG2,
    UTG1,
    UTG,
}

impl Default for Position {
    fn default() -> (r: Position)
        ensures
            r == Position::BigBlind,
    {
        Position::BigBlind
    }
}

pub open spec fn spec_all_positions() -> Seq<Position> {
    seq![
        Position::BigBlind,
        Position::SmallBlind,
        Position::Button,
        Position::Cutoff,
        Position::Hijack,
        Position::Lojack,
        Position::UTG2,
        Position::UTG1,
        Position::UTG,
    ]
}

/// The seats in play at a table of `n` players.
pub open spec fn spec_with_n_players(n: usize) -> Seq<Position> {
    if n == 2 {
        seq![Position::BigBlind, Position::SmallBlind]
    } else if n == 3 {
        seq![Position::BigBlind, Position::SmallBlind, Position::UTG]
    } else if n == 4 {
        seq![Position::BigBlind, Position::SmallBlind, Position::Button, Position::UTG]
    } else if n == 5 {
        seq![
            Position::BigBlind,
            Position::SmallBlind,
            Position::Button,
            Position::Cutoff,
            Position::UTG,
        ]
    } else if n == 6 {
        seq![
            Position::BigBlind,
            Position::SmallBlind,
            Position::Button,
            Position::Cutoff,
            Position::Hijack,
            Position::UTG,
        ]
    } else if n == 7 {
        seq![
            Position::BigBlind,
            Position::SmallBlind,
            Position::Button,
            Position::Cutoff,
            Position::Hijack,
            Position::Lojack,
            Position::UTG,
        ]
    } else if n == 8 {
        seq![
            Position::BigBlind,
            Position::SmallBlind,
            Position::Button,
            Position::Cutoff,
            Position::Hijack,
            Position::Lojack,
            Position::UTG1,
            Position::UTG,
        ]
    } else {
        spec_all_positions()
    }
}

impl Position {
    /// Every seat, big blind first.
    pub fn all() -> (r: Vec<Position>)
        ensures
            r@ == spec_all_positions(),
    {
        let r = vec![
            Position::BigBlind,
            Position::SmallBlind,
            Position::Button,
            Position::Cutoff,
            Position::Hijack,
            Position::Lojack,
            Position::UTG2,
            Position::UTG1,
            Position::UTG,
        ];
        assert(r@ =~= spec_all_positions());
        r
    }

    pub fn with_n_players(n: usize) -> (r: Vec<Position>)
        ensures
            r@ == spec_with_n_players(n),
    {
        let r = if n == 2 {
            vec![Position::BigBlind, Position::SmallBlind]
        } else if n == 3 {
            vec![Position::BigBlind, Position::SmallBlind, Position::UTG]
        } else if n == 4 {
            vec![Position::BigBlind, Position::SmallBlind, Position::Button, Position::UTG]
        } else if n == 5 {
            vec![
                Position::BigBlind,
                Position::SmallBlind,
                Position::Button,
                Position::Cutoff,
                Position::UTG,
            ]
        } else if n == 6 {
            vec![
                Position::BigBlind,
                Position::SmallBlind,
                Position::Button,
                Position::Cutoff,
                Position::Hijack,
                Position::UTG,
            ]
        } else if n == 7 {
            vec![
                Position::BigBlind,
                Position::SmallBlind,
                Position::Button,
                Position::Cutoff,
                Position::Hijack,
                Position::Lojack,
                Position::UTG,
            ]
        } else if n == 8 {
            vec![
                Position::BigBlind,
                Position::SmallBlind,
                Position::Button,
                Position::Cutoff,
                Position::Hijack,
                Position::Lojack,
                Position::UTG1,
                Position::UTG,
            ]
        } else {
            Position::all()
        };
        assert(r@ =~= spec_with_n_players(n));
        r
    }

    /// The short name of the seat.
    pub fn name(self) -> &'static str {
        match self {
            Position::BigBlind => "BB",
            Position::SmallBlind => "SB",
            Position::Button => "BTN",
            Position::Cutoff => "CO",
            Position::Hijack => "HJ",
            Position::Lojack => "LJ",
            Position::UTG2 => "UTG+2",
            Position::UTG1 => "UTG+1",
            Position::UTG => "UTG",
        }
    }
}

/// The community cards revealed so far; the variant fixes their number.
#[derive(Debug, Clone, Copy, PartialEq, Eq)]
pub enum Board {
    PreFlop,
    Flop([Card; 3]),
    Turn([Card; 4]),
    River([Card; 5]),
}

impl Board {
    pub open spec fn spec_cards(self) -> Seq<Card> {
        match self {
            Board::PreFlop => Seq::empty(),
            Board::Flop(c) => c@,
            Board::Turn(c) => c@,
            Board::River(c) => c@,
        }
    }

    /// The board's cards in order.
    pub fn cards(&self) -> (r: Vec<Card>)
        ensures
            r@ == self.spec_cards(),
    {
        let mut r: Vec<Card> = Vec::new();
        match self {
            Board::PreFlop => {},
            Board::Flop(c) => {
                r.push(c[0]);
                r.push(c[1]);
                r.push(c[2]);
            },
            Board::Turn(c) => {
                r.push(c[0]);
                r.push(c[1]);
                r.push(c[2]);
                r.push(c[3]);
            },
            Board::River(c) => {
                r.push(c[0]);
                r.push(c[1]);
                r.push(c[2]);
                r.push(c[3]);
                r.push(c[4]);
            },
        }
        assert(r@ =~= self.spec_cards());
        r
    }

    /// The board for a list of revealed cards: none, three, four or five.
    pub fn from_cards(cards: &[Card]) -> (r: Option<Board>)
        ensures
            r is Some <==> (cards@.len() == 0 || 3 <= cards@.len() <= 5),
            r matches Some(b) ==> b.spec_cards() == cards@,
    {
        let n = cards.len();
        if n == 0 {
            assert(Board::PreFlop.spec_cards() =~= cards@);
            Some(Board::PreFlop)
        } else if n == 3 {
            let b = Board::Flop([cards[0], cards[1], cards[2]]);
            assert(b.spec_cards() =~= cards@);
            Some(b)
        } else if n == 4 {
            let b = Board::Turn([cards[0], cards[1], cards[2], cards[3]]);
            assert(b.spec_cards() =~= cards@);
            Some(b)
        } else if n == 5 {
            let b = Board::River([cards[0], cards[1], cards[2], cards[3], cards[4]]);
            assert(b.spec_cards() =~= cards@);
            Some(b)
        } else {
            None
        }
    }
}

/// One decision point: the board and the two hole cards.
#[derive(Debug, Clone, Copy, PartialEq, Eq)]
pub struct DeckState {
    /// Cards currently on the board
    pub board: Board,
    /// Cards currently in my hand
    pub hand: [Card; 2],
}

impl DeckState {
    /// Every known card: the board's, then the hole cards.
    pub open spec fn spec_cards(self) -> Seq<Card> {
        self.board.spec_cards() + self.hand@
    }

    pub fn cards(&self) -> (r: Vec<Card>)
        ensures
            r@ == self.spec_cards(),
    {
        let mut r = self.board.cards();
        r.push(self.hand[0]);
        r.push(self.hand[1]);
        assert(r@ =~= self.spec_cards());
        r
    }

    /// The best ranking of the hole cards with the board.
    pub fn current_rank(&self) -> (r: Ranking)
        requires
            !(self.board is PreFlop),
        ensures
            r.model() == best_rank(self.hand@ + self.board.spec_cards()),
    {
        self.rank_with_hand(&self.hand)
    }

    /// The best ranking of `hand` with the board.
    pub fn rank_with_hand(&self, hand: &[Card]) -> (r: Ranking)
        requires
            !(self.board is PreFlop),
            hand@.len() + self.board.spec_cards().len() >= 5,
        ensures
            r.model() == best_rank(hand@ + self.board.spec_cards()),
    {
        let mut all: Vec<Card> = Vec::new();
        for i in 0..hand.len()
            invariant
                all@ == hand@.take(i as int),
        {
            all.push(hand[i]);
        }
        let b = self.board.cards();
        for i in 0..b.len()
            invariant
                all@ == hand@ + b@.take(i as int),
        {
            all.push(b[i]);
            assert(all@ =~= hand@ + b@.take(i + 1));
        }
        assert(b@.take(b@.len() as int) =~= b@);
        assert(hand@.take(hand@.len() as int) =~= hand@);
        let best = best_hand_in(&all);
        Ranking::from_hand(&best)
    }
}

} // verus!
