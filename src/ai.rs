use vstd::prelude::*;

use crate::eval::{Odds, Recommendation};
use crate::state::Position;

verus! {

/// The size of a bet or raise: twice the price to call, or twice the blind
/// when nothing is to be called, capped at the stack.
pub open spec fn bet_size(call_price: int, stack: int, blind: int) -> int {
    let want = if call_price == 0 {
        2 * blind
    } else {
        2 * call_price
    };
    if want <= stack {
        want
    } else {
        stack
    }
}

/// The pots after a raise summed over the opponents, the `c`-th of whom
/// (from 0) finds `c` earlier calls of the raise increment in it.
pub open spec fn raise_total(n: nat, pot: int, raise: int, bet: int) -> int
    decreases n,
{
    if n == 0 {
        0
    } else {
        raise_total((n - 1) as nat, pot, raise, bet) + pot + (n - 1) * raise + bet
    }
}

/// Expected value of calling, times the strength's denominator:
/// `pot * s - call_price * (1 - s)` for `s = a / b`.
pub open spec fn call_ev_scaled(a: int, b: int, call_price: int, pot: int) -> int {
    pot * a - call_price * (b - a)
}

/// Expected value of raising, times the strength's denominator and the
/// number of opponents `n`: `avg_pot * s - bet * (1 - s)` with `avg_pot =
/// total / n`.
pub open spec fn raise_ev_scaled(a: int, b: int, n: int, total: int, bet: int) -> int {
    total * a - n * bet * (b - a)
}

/// The recommendation and amount for the decision point (see `decide`).
pub open spec fn spec_decide(
    hand_strength: Odds,
    pot_odds: Odds,
    num_opponents: usize,
    call_price: usize,
    pot: usize,
    stack: usize,
    blind: usize,
) -> (Recommendation, usize) {
    let a = hand_strength.num as int;
    let b = hand_strength.den as int;
    let n = num_opponents as int;
    let bet = bet_size(call_price as int, stack as int, blind as int);
    let total = raise_total(num_opponents as nat, pot as int, bet - call_price, bet);
    let call_ev = call_ev_scaled(a, b, call_price as int, pot as int);
    let raise_ev = raise_ev_scaled(a, b, n, total, bet);
    if n > 0 && raise_ev > n * call_ev && raise_ev > 0 {
        if bet >= stack {
            (Recommendation::AllIn, stack)
        } else {
            (Recommendation::Raise, bet as usize)
        }
    } else if call_ev > 0 || a * pot_odds.den > pot_odds.num * b || call_price == 0 {
        (Recommendation::Call, call_price)
    } else {
        (Recommendation::Fold, 0)
    }
}

/// Twice `raise_total`, in closed form: `2 n pot + 2 n bet + raise n (n - 1)`.
pub open spec fn twice_raise_total(n: int, pot: int, raise: int, bet: int) -> int {
    2 * n * pot + 2 * n * bet + raise * n * (n - 1)
}

proof fn lemma_raise_total_closed(n: nat, pot: int, raise: int, bet: int)
    ensures
        2 * raise_total(n, pot, raise, bet) == twice_raise_total(n as int, pot, raise, bet),
    decreases n,
{
    if n > 0 {
        lemma_raise_total_closed((n - 1) as nat, pot, raise, bet);
        let m = n - 1;
        assert(raise_total(n, pot, raise, bet) == raise_total((n - 1) as nat, pot, raise, bet) + pot
            + m * raise + bet);
        assert(2 * m * pot + 2 * m * bet + raise * m * (m - 1) + 2 * (pot + m * raise + bet) == 2
            * n * pot + 2 * n * bet + raise * n * (n - 1)) by (nonlinear_arith)
            requires
                m == n - 1,
        ;
        assert(twice_raise_total(m, pot, raise, bet) == 2 * m * pot + 2 * m * bet + raise * m * (m
            - 1));
        assert(twice_raise_total(n as int, pot, raise, bet) == 2 * n * pot + 2 * n * bet + raise * n
            * (n - 1));
    } else {
        assert(2 * n * pot + 2 * n * bet + raise * n * (n - 1) == 0) by (nonlinear_arith)
            requires
                n == 0,
        ;
    }
}

proof fn lemma_raise_total(k: nat, m: nat, pot: int, raise: int, bet: int)
    requires
        k <= m,
        pot >= 0,
        raise >= 0,
        bet >= 0,
    ensures
        raise_total(k, pot, raise, bet) <= raise_total(m, pot, raise, bet),
        raise_total(m, pot, raise, bet) >= m * pot + m * bet,
    decreases m,
{
    if m > 0 {
        if k < m {
            lemma_raise_total(k, (m - 1) as nat, pot, raise, bet);
        } else {
            lemma_raise_total(0, (m - 1) as nat, pot, raise, bet);
        }
        assert((m - 1) * raise >= 0) by (nonlinear_arith)
            requires
                m >= 1,
                raise >= 0,
        ;
        assert(m * pot + m * bet == (m - 1) * pot + (m - 1) * bet + pot + bet) by (nonlinear_arith);
    }
}

/// Picks fold, call, raise or all-in by comparing the expected values of
/// folding (nothing), calling and raising, and gives the amount to put in.
///
/// The bet is twice the price to call (twice the blind when nothing is to
/// be called), capped at the stack. Raising is chosen when its expected
/// value beats both others, as all-in when the bet takes the whole stack;
/// otherwise calling when its expected value is positive, the strength
/// beats the pot odds, or calling is free; otherwise folding.
pub fn decide(
    position: Position,
    hand_strength: Odds,
    pot_odds: Odds,
    num_opponents: usize,
    call_price: usize,
    pot: usize,
    stack: usize,
    blind: usize,
) -> (r: (Recommendation, usize))
    requires
        hand_strength.num <= hand_strength.den,
        pot_odds.den > 0,
        call_price == 0 ==> 2 * blind <= usize::MAX,
        2 * call_price <= usize::MAX,
        call_price <= bet_size(call_price as int, stack as int, blind as int),
        twice_raise_total(
            num_opponents as int,
            pot as int,
            bet_size(call_price as int, stack as int, blind as int) - call_price,
            bet_size(call_price as int, stack as int, blind as int),
        ) <= 2 * usize::MAX,
    ensures
        r == spec_decide(hand_strength, pot_odds, num_opponents, call_price, pot, stack, blind),
{
    let want: usize = if call_price == 0 {
        blind * 2
    } else {
        call_price * 2
    };
    let bet: usize = if want <= stack {
        want
    } else {
        stack
    };
    let raise_amount = bet - call_price;
    let ghost total_spec = raise_total(num_opponents as nat, pot as int, raise_amount as int, bet as int);
    proof {
        lemma_raise_total_closed(num_opponents as nat, pot as int, raise_amount as int, bet as int);
    }
    let mut total: usize = 0;
    for c in 0..num_opponents
        invariant
            total == raise_total(c as nat, pot as int, raise_amount as int, bet as int),
            total_spec == raise_total(num_opponents as nat, pot as int, raise_amount as int, bet as int),
            total_spec <= usize::MAX,
    {
        proof {
            lemma_raise_total((c + 1) as nat, num_opponents as nat, pot as int, raise_amount as int, bet as int);
            assert(c * raise_amount >= 0) by (nonlinear_arith)
                requires
                    c >= 0,
                    raise_amount >= 0,
            ;
        }
        total = total + pot + c * raise_amount + bet;
    }
    let a = hand_strength.num as u128;
    let b = hand_strength.den as u128;
    let n = num_opponents as u128;
    let lose = b - a;
    proof {
        lemma_raise_total(0, num_opponents as nat, pot as int, raise_amount as int, bet as int);
        let t = total as int;
        assert(t * a <= 0x1_0000_0000_0000_0000 * 0x1_0000_0000) by (nonlinear_arith)
            requires
                0 <= t <= usize::MAX,
                usize::MAX < 0x1_0000_0000_0000_0000,
                0 <= a < 0x1_0000_0000,
        ;
        assert(n * pot * a <= t * a && n * bet * lose <= t * lose && n * call_price * lose <= t
            * lose) by (nonlinear_arith)
            requires
                n * pot + n * bet <= t,
                call_price <= bet,
                0 <= n,
                0 <= pot,
                0 <= a,
                0 <= lose,
                0 <= call_price,
        ;
        assert(t * lose <= 0x1_0000_0000_0000_0000 * 0x1_0000_0000) by (nonlinear_arith)
            requires
                0 <= t <= usize::MAX,
                usize::MAX < 0x1_0000_0000_0000_0000,
                0 <= lose < 0x1_0000_0000,
        ;
        assert(n * call_price <= t) by (nonlinear_arith)
            requires
                n * pot + n * bet <= t,
                call_price <= bet,
                0 <= n,
                0 <= pot,
                0 <= call_price,
        ;
        assert(call_price * lose <= 0x1_0000_0000_0000_0000 * 0x1_0000_0000) by (nonlinear_arith)
            requires
                0 <= call_price <= usize::MAX,
                usize::MAX < 0x1_0000_0000_0000_0000,
                0 <= lose < 0x1_0000_0000,
        ;
        assert(pot * a <= 0x1_0000_0000_0000_0000 * 0x1_0000_0000) by (nonlinear_arith)
            requires
                0 <= pot <= usize::MAX,
                usize::MAX < 0x1_0000_0000_0000_0000,
                0 <= a < 0x1_0000_0000,
        ;
        let d = pot_odds.den as int;
        let m = pot_odds.num as int;
        assert(a * d < 0x1_0000_0000 * 0x1_0000_0000 && m * b < 0x1_0000_0000 * 0x1_0000_0000)
            by (nonlinear_arith)
            requires
                0 <= a < 0x1_0000_0000,
                0 <= b < 0x1_0000_0000,
                0 <= d < 0x1_0000_0000,
                0 <= m < 0x1_0000_0000,
        ;
        assert(n * call_ev_scaled(a as int, b as int, call_price as int, pot as int) == n * pot * a
            - n * call_price * lose) by (nonlinear_arith)
            requires
                lose == b - a,
        ;
        assert(pot * a <= t * a || n == 0) by (nonlinear_arith)
            requires
                n * pot + n * bet <= t,
                0 <= pot,
                0 <= a,
                0 <= bet,
        ;
    }
    // raise_ev > call_ev, scaled by n * b: total*a - n*bet*lose > n*(pot*a - call*lose)
    let raise_gain = (total as u128) * a + n * (call_price as u128) * lose;
    let call_gain = n * (pot as u128) * a + n * (bet as u128) * lose;
    let raise_beats_call = n > 0 && raise_gain > call_gain;
    let raise_beats_fold = n > 0 && (total as u128) * a > n * (bet as u128) * lose;
    if raise_beats_call && raise_beats_fold {
        if bet >= stack {
            (Recommendation::AllIn, stack)
        } else {
            (Recommendation::Raise, bet)
        }
    } else if (pot as u128) * a > (call_price as u128) * lose || a * (pot_odds.den as u128) > (
    pot_odds.num as u128) * b || call_price == 0 {
        (Recommendation::Call, call_price)
    } else {
        (Recommendation::Fold, 0)
    }
}

} // verus!
