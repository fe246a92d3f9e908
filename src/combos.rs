use itertools::Itertools;
use vstd::prelude::*;

use crate::cards::Card;

verus! {

/// The `k`-element selections of `s`, each keeping the order of `s`, listed
/// in lexicographic order of positions.
pub open spec fn combos(s: Seq<Card>, k: nat) -> Seq<Seq<Card>>
    decreases s.len(),
{
    if k == 0 {
        seq![Seq::empty()]
    } else if s.len() == 0 {
        Seq::empty()
    } else {
        let rest = s.drop_first();
        combos(rest, (k - 1) as nat).map_values(|c: Seq<Card>| seq![s[0]] + c) + combos(rest, k)
    }
}

/// Relies on itertools' Itertools::combinations: the `k`-length selections of
/// the list in lexicographic order of positions, one empty one for `k == 0`,
/// none when `k` exceeds the length.
#[verifier::external_body]
pub(crate) fn combinations(cards: &Vec<Card>, k: usize) -> (r: Vec<Vec<Card>>)
    ensures
        r@.len() == combos(cards@, k as nat).len(),
        forall|i: int| 0 <= i < r@.len() ==> #[trigger] r@[i]@ == combos(cards@, k as nat)[i],
{
    cards.iter().copied().combinations(k).collect()
}

/// Every selection has `k` cards, each one of `s`.
pub proof fn lemma_combos_elements(s: Seq<Card>, k: nat)
    ensures
        forall|i: int|
            0 <= i < combos(s, k).len() ==> (#[trigger] combos(s, k)[i]).len() == k && forall|j: int|
                0 <= j < k ==> s.contains(combos(s, k)[i][j]),
    decreases s.len(),
{
    if k == 0 {
    } else if s.len() == 0 {
    } else {
        let rest = s.drop_first();
        lemma_combos_elements(rest, (k - 1) as nat);
        lemma_combos_elements(rest, k);
        let left = combos(rest, (k - 1) as nat).map_values(|c: Seq<Card>| seq![s[0]] + c);
        assert forall|i: int| 0 <= i < combos(s, k).len() implies (#[trigger] combos(s, k)[i]).len()
            == k && forall|j: int| 0 <= j < k ==> s.contains(combos(s, k)[i][j]) by {
            if i < left.len() {
                let c = combos(rest, (k - 1) as nat)[i];
                assert(combos(s, k)[i] == seq![s[0]] + c);
                assert forall|j: int| 0 <= j < k implies s.contains(combos(s, k)[i][j]) by {
                    if j == 0 {
                        assert(s[0] == combos(s, k)[i][j]);
                    } else {
                        assert(rest.contains(c[j - 1]));
                        let t = choose|t: int| 0 <= t < rest.len() && rest[t] == c[j - 1];
                        assert(s[t + 1] == c[j - 1]);
                    }
                }
            } else {
                let c = combos(rest, k)[i - left.len()];
                assert(combos(s, k)[i] == c);
                assert forall|j: int| 0 <= j < k implies s.contains(combos(s, k)[i][j]) by {
                    assert(rest.contains(c[j]));
                    let t = choose|t: int| 0 <= t < rest.len() && rest[t] == c[j];
                    assert(s[t + 1] == c[j]);
                }
            }
        }
    }
}

/// `n` to the power `k`.
pub open spec fn power(n: nat, k: nat) -> nat
    decreases k,
{
    if k == 0 {
        1
    } else {
        n * power(n, (k - 1) as nat)
    }
}

pub proof fn lemma_power_monotone(n: nat, m: nat, k: nat)
    requires
        n <= m,
    ensures
        power(n, k) <= power(m, k),
    decreases k,
{
    if k > 0 {
        lemma_power_monotone(n, m, (k - 1) as nat);
        let a = power(n, (k - 1) as nat);
        let b = power(m, (k - 1) as nat);
        assert(n * a <= m * b) by (nonlinear_arith)
            requires
                n <= m,
                a <= b,
        ;
    }
}

/// There are at most `n` to the power `k` selections of `k` out of `n`.
pub proof fn lemma_combos_len(s: Seq<Card>, k: nat)
    ensures
        combos(s, k).len() <= power(s.len(), k),
    decreases s.len(),
{
    if k == 0 {
    } else if s.len() == 0 {
    } else {
        let rest = s.drop_first();
        let n = s.len();
        lemma_combos_len(rest, (k - 1) as nat);
        lemma_combos_len(rest, k);
        lemma_power_monotone((n - 1) as nat, n, (k - 1) as nat);
        let a = power((n - 1) as nat, (k - 1) as nat);
        let b = power(n, (k - 1) as nat);
        assert(power((n - 1) as nat, k) == (n - 1) * a);
        assert(a + (n - 1) * a <= n * b) by (nonlinear_arith)
            requires
                a <= b,
                n >= 1,
        ;
    }
}

/// Selections of at most three cards out of at most 52 number at most
/// 52 * 52 * 52.
pub proof fn lemma_combos_len_deck(s: Seq<Card>, k: nat)
    requires
        s.len() <= 52,
        k <= 3,
    ensures
        combos(s, k).len() <= 140608,
        k <= 2 ==> combos(s, k).len() <= 2704,
{
    lemma_combos_len(s, k);
    lemma_power_monotone(s.len(), 52, k);
    reveal_with_fuel(power, 4);
    assert(power(52, 3) == 140608);
    assert(power(52, 2) == 2704);
}

} // verus!
