use itertools::Itertools;
use vstd::prelude::*;

use crate::parse::Parse;

verus! {

/// The four suits; they carry no order.
#[derive(Debug, Clone, Copy, PartialEq, Eq, Structural)]
pub enum Suite {
    Heart,
    Spade,
    Diamond,
    Club,
}

impl Suite {
    /// The suits in deck order.
    pub fn all() -> (r: [Suite; 4])
        ensures
            r@ == spec_all_suites(),
    {
        let r = [Suite::Heart, Suite::Spade, Suite::Diamond, Suite::Club];
        assert(r@ =~= spec_all_suites());
        r
    }

    /// The letter written for the suit.
    pub open spec fn spec_symbol(self) -> char {
        match self {
            Suite::Heart => 'H',
            Suite::Spade => 'S',
            Suite::Diamond => 'D',
            Suite::Club => 'C',
        }
    }

    pub fn symbol(self) -> (r: char)
        ensures
            r == self.spec_symbol(),
    {
        match self {
            Suite::Heart => 'H',
            Suite::Spade => 'S',
            Suite::Diamond => 'D',
            Suite::Club => 'C',
        }
    }

    /// The suit a letter stands for, in either case.
    pub open spec fn spec_from_char(c: char) -> Option<Suite> {
        if c == 'h' || c == 'H' {
            Some(Suite::Heart)
        } else if c == 's' || c == 'S' {
            Some(Suite::Spade)
        } else if c == 'd' || c == 'D' {
            Some(Suite::Diamond)
        } else if c == 'c' || c == 'C' {
            Some(Suite::Club)
        } else {
            None
        }
    }

    pub fn from_char(c: char) -> (r: Option<Suite>)
        ensures
            r == Self::spec_from_char(c),
    {
        if c == 'h' || c == 'H' {
            Some(Suite::Heart)
        } else if c == 's' || c == 'S' {
            Some(Suite::Spade)
        } else if c == 'd' || c == 'D' {
            Some(Suite::Diamond)
        } else if c == 'c' || c == 'C' {
            Some(Suite::Club)
        } else {
            None
        }
    }
}

pub open spec fn spec_all_suites() -> Seq<Suite> {
    seq![Suite::Heart, Suite::Spade, Suite::Diamond, Suite::Club]
}

impl Parse for Suite {
    open spec fn parse_at(s: Seq<char>, pos: int) -> Option<(Suite, int)> {
        if 0 <= pos < s.len() {
            match Suite::spec_from_char(s[pos]) {
                Some(v) => Some((v, pos + 1)),
                None => None,
            }
        } else {
            None
        }
    }

    fn parse(s: &[char], pos: usize) -> (r: Option<(Suite, usize)>) {
        if pos < s.len() {
            match Suite::from_char(s[pos]) {
                Some(v) => Some((v, pos + 1)),
                None => None,
            }
        } else {
            None
        }
    }
}

/// The thirteen faces, Ace first as in storage; `value` gives Ace 1 and King 13.
#[derive(Debug, Clone, Copy, PartialEq, Eq, Structural, PartialOrd, Ord, Hash)]
pub enum Face {
    Ace,
    Two,
    Three,
    Four,
    Five,
    Six,
    Seven,
    Eight,
    Nine,
    Ten,
    Jack,
    Queen,
    King,
}

impl Face {
    /// The stored value: Ace is 1, Two is 2, ..., King is 13.
    pub open spec fn spec_value(self) -> usize {
        match self {
            Face::Ace => 1,
            Face::Two => 2,
            Face::Three => 3,
            Face::Four => 4,
            Face::Five => 5,
            Face::Six => 6,
            Face::Seven => 7,
            Face::Eight => 8,
            Face::Nine => 9,
            Face::Ten => 10,
            Face::Jack => 11,
            Face::Queen => 12,
            Face::King => 13,
        }
    }

    pub fn value(self) -> (r: usize)
        ensures
            r == self.spec_value(),
    {
        match self {
            Face::Ace => 1,
            Face::Two => 2,
            Face::Three => 3,
            Face::Four => 4,
            Face::Five => 5,
            Face::Six => 6,
            Face::Seven => 7,
            Face::Eight => 8,
            Face::Nine => 9,
            Face::Ten => 10,
            Face::Jack => 11,
            Face::Queen => 12,
            Face::King => 13,
        }
    }

    /// The face stored with value `v`.
    pub open spec fn spec_from_value(v: usize) -> Face {
        if v == 1 {
            Face::Ace
        } else if v == 2 {
            Face::Two
        } else if v == 3 {
            Face::Three
        } else if v == 4 {
            Face::Four
        } else if v == 5 {
            Face::Five
        } else if v == 6 {
            Face::Six
        } else if v == 7 {
            Face::Seven
        } else if v == 8 {
            Face::Eight
        } else if v == 9 {
            Face::Nine
        } else if v == 10 {
            Face::Ten
        } else if v == 11 {
            Face::Jack
        } else if v == 12 {
            Face::Queen
        } else {
            Face::King
        }
    }

    pub fn from_value(v: usize) -> (r: Face)
        requires
            1 <= v <= 13,
        ensures
            r == Self::spec_from_value(v),
            r.spec_value() == v,
    {
        if v == 1 {
            Face::Ace
        } else if v == 2 {
            Face::Two
        } else if v == 3 {
            Face::Three
        } else if v == 4 {
            Face::Four
        } else if v == 5 {
            Face::Five
        } else if v == 6 {
            Face::Six
        } else if v == 7 {
            Face::Seven
        } else if v == 8 {
            Face::Eight
        } else if v == 9 {
            Face::Nine
        } else if v == 10 {
            Face::Ten
        } else if v == 11 {
            Face::Jack
        } else if v == 12 {
            Face::Queen
        } else {
            Face::King
        }
    }

    /// The value with Ace counted high: 14 for Ace, the stored value otherwise.
    pub open spec fn spec_high_value(self) -> usize {
        if self == Face::Ace {
            14
        } else {
            self.spec_value()
        }
    }

    pub fn high_value(self) -> (r: usize)
        ensures
            r == self.spec_high_value(),
    {
        if self == Face::Ace {
            14
        } else {
            self.value()
        }
    }

    /// The faces from Two up to Ace, the order of conventional rank.
    pub fn all() -> (r: [Face; 13])
        ensures
            r@ == spec_all_faces(),
    {
        let r = [
            Face::Two,
            Face::Three,
            Face::Four,
            Face::Five,
            Face::Six,
            Face::Seven,
            Face::Eight,
            Face::Nine,
            Face::Ten,
            Face::Jack,
            Face::Queen,
            Face::King,
            Face::Ace,
        ];
        assert(r@ =~= spec_all_faces());
        r
    }

    /// The character written for the face.
    pub open spec fn spec_symbol(self) -> char {
        match self {
            Face::Two => '2',
            Face::Three => '3',
            Face::Four => '4',
            Face::Five => '5',
            Face::Six => '6',
            Face::Seven => '7',
            Face::Eight => '8',
            Face::Nine => '9',
            Face::Ten => 'T',
            Face::Jack => 'J',
            Face::Queen => 'Q',
            Face::King => 'K',
            Face::Ace => 'A',
        }
    }

    pub fn symbol(self) -> (r: char)
        ensures
            r == self.spec_symbol(),
    {
        match self {
            Face::Two => '2',
            Face::Three => '3',
            Face::Four => '4',
            Face::Five => '5',
            Face::Six => '6',
            Face::Seven => '7',
            Face::Eight => '8',
            Face::Nine => '9',
            Face::Ten => 'T',
            Face::Jack => 'J',
            Face::Queen => 'Q',
            Face::King => 'K',
            Face::Ace => 'A',
        }
    }

    /// The face a character stands for; letters in either case, and '1' for Ace.
    pub open spec fn spec_from_char(c: char) -> Option<Face> {
        if c == 'a' || c == 'A' || c == '1' {
            Some(Face::Ace)
        } else if c == '2' {
            Some(Face::Two)
        } else if c == '3' {
            Some(Face::Three)
        } else if c == '4' {
            Some(Face::Four)
        } else if c == '5' {
            Some(Face::Five)
        } else if c == '6' {
            Some(Face::Six)
        } else if c == '7' {
            Some(Face::Seven)
        } else if c == '8' {
            Some(Face::Eight)
        } else if c == '9' {
            Some(Face::Nine)
        } else if c == 't' || c == 'T' {
            Some(Face::Ten)
        } else if c == 'j' || c == 'J' {
            Some(Face::Jack)
        } else if c == 'q' || c == 'Q' {
            Some(Face::Queen)
        } else if c == 'k' || c == 'K' {
            Some(Face::King)
        } else {
            None
        }
    }

    pub fn from_char(c: char) -> (r: Option<Face>)
        ensures
            r == Self::spec_from_char(c),
    {
        if c == 'a' || c == 'A' || c == '1' {
            Some(Face::Ace)
        } else if c == '2' {
            Some(Face::Two)
        } else if c == '3' {
            Some(Face::Three)
        } else if c == '4' {
            Some(Face::Four)
        } else if c == '5' {
            Some(Face::Five)
        } else if c == '6' {
            Some(Face::Six)
        } else if c == '7' {
            Some(Face::Seven)
        } else if c == '8' {
            Some(Face::Eight)
        } else if c == '9' {
            Some(Face::Nine)
        } else if c == 't' || c == 'T' {
            Some(Face::Ten)
        } else if c == 'j' || c == 'J' {
            Some(Face::Jack)
        } else if c == 'q' || c == 'Q' {
            Some(Face::Queen)
        } else if c == 'k' || c == 'K' {
            Some(Face::King)
        } else {
            None
        }
    }
}

pub open spec fn spec_all_faces() -> Seq<Face> {
    seq![
        Face::Two,
        Face::Three,
        Face::Four,
        Face::Five,
        Face::Six,
        Face::Seven,
        Face::Eight,
        Face::Nine,
        Face::Ten,
        Face::Jack,
        Face::Queen,
        Face::King,
        Face::Ace,
    ]
}

impl Parse for Face {
    open spec fn parse_at(s: Seq<char>, pos: int) -> Option<(Face, int)> {
        if 0 <= pos < s.len() {
            match Face::spec_from_char(s[pos]) {
                Some(v) => Some((v, pos + 1)),
                None => None,
            }
        } else {
            None
        }
    }

    fn parse(s: &[char], pos: usize) -> (r: Option<(Face, usize)>) {
        if pos < s.len() {
            match Face::from_char(s[pos]) {
                Some(v) => Some((v, pos + 1)),
                None => None,
            }
        } else {
            None
        }
    }
}

/// A playing card: a face and a suit.
#[derive(Debug, Clone, Copy, PartialEq, Eq, Structural)]
pub struct Card(pub Face, pub Suite);

impl Card {
    /// The two characters written for the card: face, then suit, upper case.
    pub open spec fn spec_text(self) -> Seq<char> {
        seq![self.0.spec_symbol(), self.1.spec_symbol()]
    }

    pub fn text(&self) -> (r: String)
        ensures
            r@ == self.spec_text(),
    {
        let mut r = String::new();
        push_char(&mut r, self.0.symbol());
        push_char(&mut r, self.1.symbol());
        assert(r@ =~= self.spec_text());
        r
    }
}

/// Relies on String::push: the character is appended.
#[verifier::external_body]
pub(crate) fn push_char(s: &mut String, c: char)
    ensures
        final(s)@ == old(s)@.push(c),
{
    s.push(c)
}

impl Parse for Card {
    open spec fn parse_at(s: Seq<char>, pos: int) -> Option<(Card, int)> {
        match Face::parse_at(s, pos) {
            Some((f, p)) => match Suite::parse_at(s, p) {
                Some((u, q)) => Some((Card(f, u), q)),
                None => None,
            },
            None => None,
        }
    }

    fn parse(s: &[char], pos: usize) -> (r: Option<(Card, usize)>) {
        match Face::parse(s, pos) {
            Some((f, p)) => match Suite::parse(s, p) {
                Some((u, q)) => Some((Card(f, u), q)),
                None => None,
            },
            None => None,
        }
    }
}

/// A card list: consecutive two-character tokens, all valid, covering the
/// whole input; `None` when the length is odd or some token is not a card.
pub open spec fn spec_parse_cards(s: Seq<char>, pos: int) -> Option<Seq<Card>>
    decreases s.len() - pos,
{
    if pos >= s.len() {
        Some(Seq::empty())
    } else {
        match Card::parse_at(s, pos) {
            Some((c, p)) => match spec_parse_cards(s, p) {
                Some(rest) => Some(seq![c] + rest),
                None => None,
            },
            None => None,
        }
    }
}

/// Reads the cards of `s` from `pos` to its end.
pub fn parse_cards_from(s: &[char], pos: usize) -> (r: Option<Vec<Card>>)
    requires
        pos <= s@.len(),
    ensures
        match r {
            Some(v) => spec_parse_cards(s@, pos as int) == Some(v@),
            None => spec_parse_cards(s@, pos as int) is None,
        },
{
    let mut out: Vec<Card> = Vec::new();
    let mut p: usize = pos;
    while p < s.len()
        invariant
            pos <= p <= s@.len(),
            spec_parse_cards(s@, pos as int) == match spec_parse_cards(s@, p as int) {
                Some(rest) => Some(out@ + rest),
                None => None::<Seq<Card>>,
            },
        decreases s@.len() - p,
    {
        match Card::parse(s, p) {
            Some((c, q)) => {
                proof {
                    let ghost old_out = out@;
                    match spec_parse_cards(s@, q as int) {
                        Some(rest) => {
                            assert(old_out + (seq![c] + rest) =~= old_out.push(c) + rest);
                        },
                        None => {},
                    }
                }
                out.push(c);
                p = q;
            },
            None => {
                return None;
            },
        }
    }
    assert(out@ + Seq::<Card>::empty() =~= out@);
    Some(out)
}

/// Reads a card list from text (see `spec_parse_cards`).
pub fn parse_cards(text: &str) -> (r: Option<Vec<Card>>)
    ensures
        match r {
            Some(v) => spec_parse_cards(text@, 0) == Some(v@),
            None => spec_parse_cards(text@, 0) is None,
        },
{
    let cs = crate::parse::chars_of(text);
    parse_cards_from(cs.as_slice(), 0)
}

/// Five cards; that they are distinct is the caller's affair.
#[derive(Debug, Clone, Copy)]
pub struct Hand(pub [Card; 5]);

impl Hand {
    pub fn faces(&self) -> (r: [Face; 5])
        ensures
            forall|i: int| 0 <= i < 5 ==> r@[i] == self.0@[i].0,
    {
        [self.0[0].0, self.0[1].0, self.0[2].0, self.0[3].0, self.0[4].0]
    }

    pub fn face_values(&self) -> (r: [usize; 5])
        ensures
            r@ == spec_face_values(self.0@),
    {
        let r = [
            self.0[0].0.value(),
            self.0[1].0.value(),
            self.0[2].0.value(),
            self.0[3].0.value(),
            self.0[4].0.value(),
        ];
        assert(r@ =~= spec_face_values(self.0@));
        r
    }

    pub fn high_values(&self) -> (r: [usize; 5])
        ensures
            r@ == spec_high_values(self.0@),
    {
        let r = [
            self.0[0].0.high_value(),
            self.0[1].0.high_value(),
            self.0[2].0.high_value(),
            self.0[3].0.high_value(),
            self.0[4].0.high_value(),
        ];
        assert(r@ =~= spec_high_values(self.0@));
        r
    }

    pub fn faces_iter(&self) -> (r: Vec<Face>)
        ensures
            r@.len() == 5,
            forall|i: int| 0 <= i < 5 ==> r@[i] == self.0@[i].0,
    {
        let mut r: Vec<Face> = Vec::new();
        for i in 0..5usize
            invariant
                r@.len() == i,
                forall|k: int| 0 <= k < i ==> r@[k] == self.0@[k].0,
        {
            r.push(self.0[i].0);
        }
        r
    }

    pub fn suites(&self) -> (r: [Suite; 5])
        ensures
            forall|i: int| 0 <= i < 5 ==> r@[i] == self.0@[i].1,
    {
        [self.0[0].1, self.0[1].1, self.0[2].1, self.0[3].1, self.0[4].1]
    }

    pub fn suites_iter(&self) -> (r: Vec<Suite>)
        ensures
            r@.len() == 5,
            forall|i: int| 0 <= i < 5 ==> r@[i] == self.0@[i].1,
    {
        let mut r: Vec<Suite> = Vec::new();
        for i in 0..5usize
            invariant
                r@.len() == i,
                forall|k: int| 0 <= k < i ==> r@[k] == self.0@[k].1,
        {
            r.push(self.0[i].1);
        }
        r
    }

    /// Reads five cards one after the other from `pos`.
    pub fn parse(s: &[char], pos: usize) -> (r: Option<(Hand, usize)>)
        requires
            pos <= s@.len(),
        ensures
            match r {
                Some((h, p)) => spec_parse_n(s@, pos as int, 5) == Some((h.0@, p as int)),
                None => spec_parse_n(s@, pos as int, 5) is None,
            },
    {
        match parse_n_cards(s, pos, 5) {
            Some((cs, p)) => {
                proof {
                    lemma_parse_n_len(s@, pos as int, 5);
                }
                let h = Hand::from_cards(cs.as_slice());
                Some((h, p))
            },
            None => None,
        }
    }

    /// The hand of a list of exactly five cards.
    pub fn from_cards(cards: &[Card]) -> (r: Hand)
        requires
            cards@.len() == 5,
        ensures
            r.0@ == cards@,
    {
        let r = Hand([cards[0], cards[1], cards[2], cards[3], cards[4]]);
        assert(r.0@ =~= cards@);
        r
    }
}

/// The symbol of the face stored with value `v`.
pub open spec fn symbol_of_value(v: usize) -> char {
    Face::spec_from_value(v).spec_symbol()
}

/// The stored face values of some cards, in their order.
pub open spec fn spec_face_values(cards: Seq<Card>) -> Seq<usize> {
    cards.map_values(|c: Card| c.0.spec_value())
}

/// The face values of some cards with Ace counted high, in their order.
pub open spec fn spec_high_values(cards: Seq<Card>) -> Seq<usize> {
    cards.map_values(|c: Card| c.0.spec_high_value())
}

/// Exactly `n` cards read one after the other from `pos`.
pub open spec fn spec_parse_n(s: Seq<char>, pos: int, n: nat) -> Option<(Seq<Card>, int)>
    decreases n,
{
    if n == 0 {
        Some((Seq::empty(), pos))
    } else {
        match Card::parse_at(s, pos) {
            Some((c, p)) => match spec_parse_n(s, p, (n - 1) as nat) {
                Some((rest, q)) => Some((seq![c] + rest, q)),
                None => None,
            },
            None => None,
        }
    }
}

pub proof fn lemma_parse_n_len(s: Seq<char>, pos: int, n: nat)
    ensures
        spec_parse_n(s, pos, n) matches Some((cs, p)) ==> cs.len() == n,
    decreases n,
{
    if n > 0 {
        if let Some((c, p)) = Card::parse_at(s, pos) {
            lemma_parse_n_len(s, p, (n - 1) as nat);
        }
    }
}

/// Reads exactly `n` cards from `pos`.
pub fn parse_n_cards(s: &[char], pos: usize, n: usize) -> (r: Option<(Vec<Card>, usize)>)
    requires
        pos <= s@.len(),
    ensures
        match r {
            Some((v, p)) => spec_parse_n(s@, pos as int, n as nat) == Some((v@, p as int)),
            None => spec_parse_n(s@, pos as int, n as nat) is None,
        },
{
    let mut out: Vec<Card> = Vec::new();
    let mut p: usize = pos;
    let mut k: usize = 0;
    while k < n
        invariant
            pos <= p <= s@.len(),
            k <= n,
            spec_parse_n(s@, pos as int, n as nat) == match spec_parse_n(
                s@,
                p as int,
                (n - k) as nat,
            ) {
                Some((rest, q)) => Some((out@ + rest, q)),
                None => None::<(Seq<Card>, int)>,
            },
        decreases n - k,
    {
        match Card::parse(s, p) {
            Some((c, q)) => {
                proof {
                    let ghost old_out = out@;
                    match spec_parse_n(s@, q as int, (n - k - 1) as nat) {
                        Some((rest, e)) => {
                            assert(old_out + (seq![c] + rest) =~= old_out.push(c) + rest);
                        },
                        None => {},
                    }
                }
                out.push(c);
                p = q;
                k = k + 1;
            },
            None => {
                return None;
            },
        }
    }
    assert(out@ + Seq::<Card>::empty() =~= out@);
    Some((out, p))
}

/// Relies on itertools' Itertools::cartesian_product: every pair of a face and
/// a suit, the face varying slowest.
#[verifier::external_body]
fn cartesian_product(faces: [Face; 13], suites: [Suite; 4]) -> (r: Vec<(Face, Suite)>)
    ensures
        r@.len() == 52,
        forall|i: int, j: int|
            0 <= i < 13 && 0 <= j < 4 ==> #[trigger] r@[i * 4 + j] == (faces@[i], suites@[j]),
{
    faces.into_iter().cartesian_product(suites).collect()
}

/// The full deck: faces from Two to Ace, and for each face the suits in
/// deck order.
pub open spec fn spec_deck() -> Seq<Card> {
    Seq::new(52, |k: int| Card(spec_all_faces()[k / 4], spec_all_suites()[k % 4]))
}

pub fn deck() -> (r: Vec<Card>)
    ensures
        r@ == spec_deck(),
{
    let pairs = cartesian_product(Face::all(), Suite::all());
    let mut r: Vec<Card> = Vec::new();
    for k in 0..52usize
        invariant
            pairs@.len() == 52,
            forall|i: int, j: int|
                0 <= i < 13 && 0 <= j < 4 ==> #[trigger] pairs@[i * 4 + j] == (
                    spec_all_faces()[i],
                    spec_all_suites()[j],
                ),
            r@ == spec_deck().take(k as int),
    {
        let (f, u) = pairs[k];
        proof {
            let i = k as int / 4;
            let j = k as int % 4;
            assert(k as int == i * 4 + j);
            assert(pairs@[i * 4 + j] == (spec_all_faces()[i], spec_all_suites()[j]));
        }
        r.push(Card(f, u));
        assert(r@ =~= spec_deck().take(k + 1));
    }
    assert(r@ =~= spec_deck());
    r
}

/// Whether `c` is among `cards`.
pub fn contains_card(cards: &[Card], c: Card) -> (r: bool)
    ensures
        r == cards@.contains(c),
{
    for i in 0..cards.len()
        invariant
            forall|k: int| 0 <= k < i ==> cards@[k] != c,
    {
        if cards[i] == c {
            return true;
        }
    }
    false
}

/// The deck without the cards equal to one of `excluded`, in deck order.
pub open spec fn spec_deck_without(excluded: Seq<Card>) -> Seq<Card> {
    spec_deck().filter(|c: Card| !excluded.contains(c))
}

pub fn deck_without(excluded: &[Card]) -> (r: Vec<Card>)
    ensures
        r@ == spec_deck_without(excluded@),
{
    let d = deck();
    let mut r: Vec<Card> = Vec::new();
    let ghost pred = |c: Card| !excluded@.contains(c);
    for i in 0..d.len()
        invariant
            d@ == spec_deck(),
            pred == (|c: Card| !excluded@.contains(c)),
            r@ == d@.take(i as int).filter(pred),
    {
        proof {
            d@.take(i as int).lemma_filter_push(d@[i as int], pred);
            assert(d@.take(i as int).push(d@[i as int]) =~= d@.take(i + 1));
        }
        if !contains_card(excluded, d[i]) {
            r.push(d[i]);
        }
    }
    assert(d@.take(d@.len() as int) =~= d@);
    r
}

/// One representative pair for each of the 169 starting classes: for faces
/// `f1`, `f2` taken in `Face::all` order, Heart and Spade when `f1` is stored
/// at or below `f2`, two Hearts otherwise.
pub open spec fn spec_open_hand(f1: Face, f2: Face) -> (Card, Card) {
    if f1.spec_value() <= f2.spec_value() {
        (Card(f1, Suite::Heart), Card(f2, Suite::Spade))
    } else {
        (Card(f1, Suite::Heart), Card(f2, Suite::Heart))
    }
}

pub fn unique_open_hands() -> (r: Vec<[Card; 2]>)
    ensures
        r@.len() == 169,
        forall|i: int, j: int|
            0 <= i < 13 && 0 <= j < 13 ==> {
                let p = spec_open_hand(spec_all_faces()[i], spec_all_faces()[j]);
                &&& (#[trigger] r@[i * 13 + j])@[0] == p.0
                &&& r@[i * 13 + j]@[1] == p.1
            },
{
    let faces = Face::all();
    let mut r: Vec<[Card; 2]> = Vec::new();
    for i in 0..13usize
        invariant
            faces@ == spec_all_faces(),
            r@.len() == i * 13,
            forall|a: int, b: int|
                0 <= a < i && 0 <= b < 13 ==> {
                    let p = spec_open_hand(spec_all_faces()[a], spec_all_faces()[b]);
                    &&& (#[trigger] r@[a * 13 + b])@[0] == p.0
                    &&& r@[a * 13 + b]@[1] == p.1
                },
    {
        for j in 0..13usize
            invariant
                faces@ == spec_all_faces(),
                0 <= i < 13,
                r@.len() == i * 13 + j,
                forall|a: int, b: int|
                    (0 <= a < i && 0 <= b < 13) || (a == i && 0 <= b < j) ==> {
                        let p = spec_open_hand(spec_all_faces()[a], spec_all_faces()[b]);
                        &&& (#[trigger] r@[a * 13 + b])@[0] == p.0
                        &&& r@[a * 13 + b]@[1] == p.1
                    },
        {
            let f1 = faces[i];
            let f2 = faces[j];
            let pair = if f1.value() <= f2.value() {
                [Card(f1, Suite::Heart), Card(f2, Suite::Spade)]
            } else {
                [Card(f1, Suite::Heart), Card(f2, Suite::Heart)]
            };
            r.push(pair);
            proof {
                assert forall|a: int, b: int|
                    (0 <= a < i && 0 <= b < 13) || (a == i && 0 <= b < j + 1) implies {
                        let p = spec_open_hand(spec_all_faces()[a], spec_all_faces()[b]);
                        &&& (#[trigger] r@[a * 13 + b])@[0] == p.0
                        &&& r@[a * 13 + b]@[1] == p.1
                    } by {
                    if a < i {
                        assert(a * 13 + b < i * 13) by (nonlinear_arith)
                            requires a < i, b < 13;
                    } else if b < j {
                    } else {
                        assert(a * 13 + b == i * 13 + j);
                    }
                }
            }
        }
    }
    r
}

} // verus!
