use poker_solver::ai::decide;
use poker_solver::cards::{
    deck, deck_without, parse_cards, unique_open_hands, Card, Face, Hand, Suite,
};
use poker_solver::eval::{Odds, Outcomes, Recommendation, Variance};
use poker_solver::parse::{chars_of, Parse};
use poker_solver::preflop::{index, HandChart, HandSuite, OpeningHand};
use poker_solver::rank::{best_hand_in, RankKind, Ranking};
use poker_solver::state::{Board, DeckState, Position};

fn cards(text: &str) -> Vec<Card> {
    parse_cards(text).unwrap()
}

fn hand(text: &str) -> Hand {
    Hand::from_cards(&cards(text))
}

fn rank(text: &str) -> Ranking {
    Ranking::from_hand(&hand(text))
}

fn state(hole: &str, board: &str) -> DeckState {
    let h = cards(hole);
    DeckState { board: Board::from_cards(&cards(board)).unwrap(), hand: [h[0], h[1]] }
}

#[test]
fn royal_flush_on_board() {
    let s = state("AhKh", "QhJhTh");
    let r = s.current_rank();
    assert_eq!(r.kind, RankKind::RoyalFlush);
    assert_eq!(r.hand_descending, [13, 12, 11, 10, 1]);
    for other in ["9hKhQhJhTh", "2c2d2h2sKd", "AsAdAcKsKd", "2h4h6h8hTh"] {
        assert!(r > rank(other));
        assert_eq!(r.compare(&rank(other)), std::cmp::Ordering::Greater);
    }
}

#[test]
fn four_kind_beats_full_house_in_selection() {
    let best = best_hand_in(&cards("2h2d2c2s5h5d5c"));
    assert_eq!(Ranking::from_hand(&best).kind, RankKind::FourKind);
}

#[test]
fn free_check_is_never_a_fold() {
    let (rec, _) = decide(
        Position::Button,
        Odds { num: 9, den: 10 },
        Odds { num: 0, den: 1 },
        1,
        0,
        0,
        100,
        5,
    );
    assert_ne!(rec, Recommendation::Fold);
    assert_eq!(rec, Recommendation::Raise);
}

#[test]
fn pairs_plus_chart() {
    let chart = HandChart::new(Recommendation::Raise, "22+");
    for x in 0..13 {
        for y in 0..13 {
            let expected = if x == y { Recommendation::Raise } else { Recommendation::Fold };
            assert_eq!(chart.get(x, y), expected);
        }
    }
}

#[test]
fn wheel_is_not_a_straight() {
    let r = rank("Ah2c3d4s5h");
    assert_eq!(r.kind, RankKind::HighCard);
    assert_eq!(r.hand_descending, [5, 4, 3, 2, 1]);
    assert_eq!(rank("2c3d4s5h6h").kind, RankKind::Straight);
    assert_eq!(rank("TcJdQsKhAh").kind, RankKind::Straight);
}

#[test]
fn classification_ignores_card_order() {
    let base = cards("KhKd7c7s2h");
    let r = Ranking::from_hand(&Hand::from_cards(&base));
    assert_eq!(r.kind, RankKind::TwoPairs);
    let orders = [[0, 1, 2, 3, 4], [4, 3, 2, 1, 0], [2, 0, 4, 1, 3], [1, 4, 0, 3, 2]];
    for o in orders {
        let permuted: Vec<Card> = o.iter().map(|&i| base[i]).collect();
        assert_eq!(Ranking::from_hand(&Hand::from_cards(&permuted)), r);
    }
    let f = cards("2h9hKh4h7h");
    let rf = Ranking::from_hand(&Hand::from_cards(&f));
    assert_eq!(rf.kind, RankKind::Flush);
    let g: Vec<Card> = [3, 1, 4, 0, 2].iter().map(|&i| f[i]).collect();
    assert_eq!(Ranking::from_hand(&Hand::from_cards(&g)), rf);
}

#[test]
fn every_card_token_round_trips() {
    let faces = "23456789tjqka";
    let suits = "hsdc";
    let mut n = 0;
    for f in faces.chars() {
        for s in suits.chars() {
            let token = format!("{f}{s}");
            let c = cards(&token);
            assert_eq!(c.len(), 1);
            assert_eq!(c[0].text(), token.to_uppercase());
            let upper = cards(&token.to_uppercase());
            assert_eq!(upper, c);
            n += 1;
        }
    }
    assert_eq!(n, 52);
    assert_eq!(cards("1s")[0], Card(Face::Ace, Suite::Spade));
    assert_eq!(cards("1s")[0].text(), "AS");
}

#[test]
fn best_hand_ranks_at_least_every_subset() {
    let seven = cards("AsKd7h7c2s9dKh");
    let best = Ranking::from_hand(&best_hand_in(&seven));
    assert_eq!(best.kind, RankKind::TwoPairs);
    assert_eq!(best.hand_descending, [13, 13, 9, 7, 7]);
    let mut count = 0;
    for a in 0..7 {
        for b in a + 1..7 {
            let five: Vec<Card> =
                (0..7).filter(|&i| i != a && i != b).map(|i| seven[i]).collect();
            assert!(best >= Ranking::from_hand(&Hand::from_cards(&five)));
            count += 1;
        }
    }
    assert_eq!(count, 21);
}

#[test]
fn parallel_and_sequential_tallies_agree() {
    let river = state("AhAd", "Kc7d2s9hJc");
    assert_eq!(river.tally(Variance::Random), river.tally_sequential(Variance::Random));
    assert_eq!(river.tally(Variance::Weighted), river.tally_sequential(Variance::Weighted));
    let turn = state("QsJs", "Ts9d2c4h");
    assert_eq!(turn.tally(Variance::Weighted), turn.tally_sequential(Variance::Weighted));
}

#[test]
fn suited_token_leaves_offsuit_cell() {
    let chart = HandChart::new(Recommendation::Call, "AKs");
    let suited = OpeningHand(Face::Ace, Face::King, HandSuite::Suited);
    let offsuit = OpeningHand(Face::Ace, Face::King, HandSuite::OffSuite);
    assert_eq!(index(suited), (0, 1));
    assert_eq!(index(offsuit), (1, 0));
    assert_eq!(chart.class(suited), Recommendation::Call);
    assert_eq!(chart.class(offsuit), Recommendation::Fold);
    for x in 0..13 {
        for y in 0..13 {
            if (x, y) != (0, 1) {
                assert_eq!(chart.get(x, y), Recommendation::Fold);
            }
        }
    }
}

#[test]
fn plus_tokens_extend_toward_higher_face() {
    let chart = HandChart::new(Recommendation::Raise, "A2s+,K5o+");
    for y in 1..13 {
        assert_eq!(chart.get(0, y), Recommendation::Raise);
    }
    assert_eq!(chart.get(0, 0), Recommendation::Fold);
    for x in 2..10 {
        assert_eq!(chart.get(x, 1), Recommendation::Raise);
    }
    assert_eq!(chart.get(1, 1), Recommendation::Fold);
    assert_eq!(chart.get(10, 1), Recommendation::Fold);
    assert_eq!(chart.get(1, 0), Recommendation::Fold);
}

#[test]
fn malformed_ranges_are_rejected() {
    assert!(HandChart::parse_range(Recommendation::Call, "AKx").is_none());
    assert!(HandChart::parse_range(Recommendation::Call, "22,").is_none());
    assert!(HandChart::parse_range(Recommendation::Call, "22s").is_none());
    assert!(HandChart::parse_range(Recommendation::Call, "AK").is_none());
    assert!(HandChart::parse_range(Recommendation::Call, "22+;33").is_none());
    let empty = HandChart::parse_range(Recommendation::Raise, "").unwrap();
    assert_eq!(empty, HandChart::filled_with(Recommendation::Fold));
}

#[test]
fn card_lists_parse_exactly() {
    assert_eq!(cards("AhKh"), vec![Card(Face::Ace, Suite::Heart), Card(Face::King, Suite::Heart)]);
    assert_eq!(parse_cards(""), Some(vec![]));
    assert_eq!(parse_cards("AhK"), None);
    assert_eq!(parse_cards("AhKx"), None);
    assert_eq!(parse_cards("Zh"), None);
    let s = chars_of("xxQd");
    assert_eq!(Card::parse(&s, 2), Some((Card(Face::Queen, Suite::Diamond), 4)));
    assert_eq!(Card::parse(&s, 0), None);
    let (h, end) = Hand::parse(&chars_of("2h3h4h5h6hX"), 0).unwrap();
    assert_eq!(end, 10);
    assert_eq!(h.face_values(), [2, 3, 4, 5, 6]);
    assert!(Hand::parse(&chars_of("2h3h4h5h"), 0).is_none());
}

#[test]
fn deck_has_every_card_once() {
    let d = deck();
    assert_eq!(d.len(), 52);
    assert_eq!(d[0], Card(Face::Two, Suite::Heart));
    assert_eq!(d[1], Card(Face::Two, Suite::Spade));
    assert_eq!(d[51], Card(Face::Ace, Suite::Club));
    for i in 0..52 {
        for j in i + 1..52 {
            assert_ne!(d[i], d[j]);
        }
    }
    let rest = deck_without(&cards("AcAh2h"));
    assert_eq!(rest.len(), 49);
    assert!(!rest.contains(&Card(Face::Ace, Suite::Club)));
    assert_eq!(rest[0], Card(Face::Two, Suite::Spade));
    assert_eq!(deck_without(&[]), d);
}

#[test]
fn open_hands_cover_every_class() {
    let hands = unique_open_hands();
    assert_eq!(hands.len(), 169);
    assert_eq!(hands[0], [Card(Face::Two, Suite::Heart), Card(Face::Two, Suite::Spade)]);
    assert_eq!(hands[12], [Card(Face::Two, Suite::Heart), Card(Face::Ace, Suite::Heart)]);
    assert_eq!(hands[13], [Card(Face::Three, Suite::Heart), Card(Face::Two, Suite::Heart)]);
    let mut cells = std::collections::HashSet::new();
    for h in &hands {
        cells.insert(index(OpeningHand::from_cards(*h)));
    }
    assert_eq!(cells.len(), 169);
}

#[test]
fn hand_accessors() {
    let h = hand("AhKs7d7c2h");
    assert_eq!(h.faces(), [Face::Ace, Face::King, Face::Seven, Face::Seven, Face::Two]);
    assert_eq!(h.face_values(), [1, 13, 7, 7, 2]);
    assert_eq!(h.faces_iter(), h.faces().to_vec());
    assert_eq!(h.suites(), [Suite::Heart, Suite::Spade, Suite::Diamond, Suite::Club, Suite::Heart]);
    assert_eq!(h.suites_iter(), h.suites().to_vec());
}

#[test]
fn categories_and_tie_breaks() {
    assert_eq!(rank("9h9d9c9sKd").kind, RankKind::FourKind);
    assert_eq!(rank("9h9d9cKsKd").kind, RankKind::FullHouse);
    assert_eq!(rank("9h9d9cKs2d").kind, RankKind::ThreeKind);
    assert_eq!(rank("9h9dKcKs2d").kind, RankKind::TwoPairs);
    assert_eq!(rank("9h9dKcQs2d").kind, RankKind::OnePair);
    assert_eq!(rank("9h3dKcQs2d").kind, RankKind::HighCard);
    assert_eq!(rank("2s5s9sJsKs").kind, RankKind::Flush);
    assert_eq!(rank("5s6s7s8s9s").kind, RankKind::StraightFlush);
    assert_eq!(rank("9h3dKcQs2d").hand_descending, [13, 12, 9, 3, 2]);
    // Ace is stored as 1, so an Ace-high hand ranks below a King-high one.
    assert!(rank("Ah3d9cQs2d") < rank("Kh3d9cQs2d"));
    assert_eq!(rank("Kh3d9cQs2d").compare(&rank("Kd3h9sQc2c")), std::cmp::Ordering::Equal);
    assert_eq!(RankKind::FullHouse.name(), "Full house");
    assert_eq!(rank("9h9d9cKsKd").name(), "Full house");
}

#[test]
fn river_strength_is_exact() {
    // Royal flush on the board: every opponent ties.
    let s = state("2c3d", "AhKhQhJhTh");
    let t = s.tally(Variance::Random);
    assert_eq!(t, Outcomes { wins: 0, ties: 990, losses: 0 });
    assert_eq!(s.strength(Variance::Random), Some(Odds { num: 990, den: 1980 }));
    // The nuts: four aces with a king kicker cannot be beaten or tied.
    let nuts = state("AcAd", "AhAsKh7c2d");
    let t = nuts.tally(Variance::Random);
    assert_eq!(t.losses + t.ties, 0);
    assert_eq!(t.wins, 990);
}

#[test]
fn weighted_range_filters_opponents() {
    let s = state("AcAd", "AhAsKh7c2d");
    let all = s.opponents(Variance::Random);
    let some = s.opponents(Variance::Weighted);
    assert_eq!(all.len(), 990);
    assert!(some.len() < all.len());
    let chart = HandChart::opponent_expectation();
    for o in &some {
        assert!(chart.filter_hand([o[0], o[1]]));
    }
    assert_eq!(s.tally(Variance::Weighted).wins as usize, some.len());
}

#[test]
fn preflop_tally_against_one_class() {
    let s = state("AhAs", "");
    let t = s.tally_against(&cards("7c2d"));
    assert_eq!(t.wins + t.ties + t.losses, 17296);
    assert!(t.wins > t.losses);
    assert_eq!(s.opponents(Variance::Random).len(), 169);
}

#[test]
fn outcomes_to_strength() {
    let t = Outcomes { wins: 3, ties: 2, losses: 5 };
    assert_eq!(t.strength(), Some(Odds { num: 8, den: 20 }));
    assert_eq!(Outcomes { wins: 0, ties: 0, losses: 0 }.strength(), None);
}

#[test]
fn decide_cases() {
    let strong = Odds { num: 9, den: 10 };
    let weak = Odds { num: 1, den: 10 };
    let odds = Odds { num: 1, den: 3 };
    // stack too small for the raise: all in
    assert_eq!(decide(Position::Button, strong, odds, 2, 10, 20, 15, 5), (Recommendation::AllIn, 15));
    // raise to twice the call price
    assert_eq!(decide(Position::Button, strong, odds, 2, 10, 20, 500, 5), (Recommendation::Raise, 20));
    // weak hand facing a bet: fold
    assert_eq!(decide(Position::Button, weak, odds, 2, 10, 20, 500, 5), (Recommendation::Fold, 0));
    // no opponents: never a raise
    assert_eq!(decide(Position::Button, strong, odds, 0, 10, 20, 500, 5), (Recommendation::Call, 10));
    // middling hand that beats the pot odds: call
    let mid = Odds { num: 2, den: 5 };
    assert_eq!(decide(Position::Cutoff, mid, odds, 1, 10, 10, 500, 5), (Recommendation::Call, 10));
}

#[test]
fn charts_and_tables() {
    let a = HandChart::new(Recommendation::Call, "22+");
    let b = HandChart::new(Recommendation::Raise, "AKs");
    let c = a.bitor(b);
    assert_eq!(c.get(0, 0), Recommendation::Call);
    assert_eq!(c.get(0, 1), Recommendation::Raise);
    assert_eq!(c.get(1, 0), Recommendation::Fold);
    let text = HandChart::filled_with(Recommendation::Call).rows_text();
    assert_eq!(text.len(), 13 * 14);
    assert_eq!(&text[0..14], b"ccccccccccccc\n");
    for p in Position::all() {
        let g = p.gto_preflop();
        let s = p.short_preflop();
        let t = p.tall_preflop();
        if p == Position::BigBlind {
            assert_eq!(g, HandChart::filled_with(Recommendation::Call));
            assert_eq!(t, HandChart::filled_with(Recommendation::Call));
        } else {
            let (rec, text) = p.opening_range().unwrap();
            assert_eq!(Some(g), HandChart::parse_range(rec, text));
            assert_eq!(g.get(0, 0), rec);
            let (rec, text) = p.push_range().unwrap();
            assert_eq!(Some(s), HandChart::parse_range(rec, text));
            assert_eq!(s.get(0, 0), Recommendation::AllIn);
            assert_eq!(t, HandChart::filled_with(Recommendation::Fold));
        }
    }
    let utg = Position::UTG.gto_preflop();
    assert_eq!(utg.get(9, 9), Recommendation::Fold);
    assert_eq!(utg.get(8, 8), Recommendation::Raise);
    assert_eq!(utg.get(7, 7), Recommendation::Raise);
    let opp = HandChart::opponent_expectation();
    assert!(opp.filter_hand([Card(Face::Eight, Suite::Heart), Card(Face::Seven, Suite::Spade)]));
    assert!(!opp.filter_hand([Card(Face::Eight, Suite::Heart), Card(Face::Two, Suite::Spade)]));
}

#[test]
fn seats_by_table_size() {
    assert_eq!(Position::with_n_players(2), vec![Position::BigBlind, Position::SmallBlind]);
    assert_eq!(
        Position::with_n_players(4),
        vec![Position::BigBlind, Position::SmallBlind, Position::Button, Position::UTG]
    );
    assert_eq!(Position::with_n_players(9).len(), 9);
    assert_eq!(Position::with_n_players(1), Position::all());
    assert_eq!(Position::UTG2.name(), "UTG+2");
}

#[test]
fn recommendation_symbols() {
    assert_eq!(Recommendation::Fold.symbol(), b'f');
    assert_eq!(Recommendation::Call.symbol(), b'c');
    assert_eq!(Recommendation::Raise.symbol(), b'r');
    assert_eq!(Recommendation::AllIn.symbol(), b'a');
    assert_eq!(Recommendation::Raise.max(Recommendation::Call), Recommendation::Raise);
    assert_eq!(Recommendation::default(), Recommendation::Fold);
}

#[test]
fn rank_with_other_hole_cards() {
    let s = state("2c3d", "AhKhQh");
    assert_eq!(s.rank_with_hand(&cards("JhTh")).kind, RankKind::RoyalFlush);
    assert_eq!(s.current_rank().kind, RankKind::HighCard);
    assert_eq!(s.cards(), cards("AhKhQh2c3d"));
}

#[test]
fn hands_and_classes_as_text() {
    assert_eq!(hand("KhAs4dKc5s").text(), "A45KK [Pair]");
    assert_eq!(hand("AhKhQhJhTh").text(), "ATJQK [Royal flush]");
    assert_eq!(OpeningHand(Face::Ace, Face::King, HandSuite::Suited).text(), "AKs");
    assert_eq!(OpeningHand(Face::Ten, Face::Nine, HandSuite::OffSuite).text(), "T9o");
    assert_eq!(OpeningHand(Face::Two, Face::Two, HandSuite::OffSuite).text(), "22");
    let s = chars_of("AKs,77");
    assert_eq!(
        OpeningHand::parse(&s, 0),
        Some((OpeningHand(Face::Ace, Face::King, HandSuite::Suited), 3))
    );
    assert_eq!(
        OpeningHand::parse(&s, 4),
        Some((OpeningHand(Face::Seven, Face::Seven, HandSuite::OffSuite), 6))
    );
    assert_eq!(OpeningHand::parse(&chars_of("AKx"), 0), None);
}

#[test]
fn boards_by_card_count() {
    assert_eq!(Board::from_cards(&[]), Some(Board::PreFlop));
    assert!(Board::from_cards(&cards("AhKh")).is_none());
    assert!(Board::from_cards(&cards("AhKhQhJhTh9h")).is_none());
    let turn = Board::from_cards(&cards("AhKhQhJh")).unwrap();
    assert!(matches!(turn, Board::Turn(_)));
    assert_eq!(turn.cards(), cards("AhKhQhJh"));
}

#[test]
fn default_chart_folds_everything() {
    assert_eq!(HandChart::default(), HandChart::filled_with(Recommendation::Fold));
    assert_eq!(Position::default(), Position::BigBlind);
    assert_eq!(Variance::default(), Variance::Weighted);
}
