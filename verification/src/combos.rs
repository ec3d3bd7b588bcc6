//! Combinatorial generators: all size-`n` combinations of a sequence
//! (without repetition, ascending position order) and all size-`n`
//! combinations with replacement (non-decreasing position order), both in
//! canonical lexicographic order by element position. The enumeration order
//! is an observable contract of the library, so the spec functions here pin
//! the full output sequences, not just the sets.

use itertools::Itertools;
use vstd::prelude::*;

verus! {

/// All size-`n` combinations of the elements of `s`, without repetition.
/// Each combination lists its elements in ascending position order; the
/// combinations appear in lexicographic order by element position: first
/// every combination containing `s[0]`, then those from the rest. One empty
/// combination when `n == 0`; none when `n` exceeds `s.len()`.
pub open spec fn spec_combinations(s: Seq<usize>, n: nat) -> Seq<Seq<usize>>
    decreases s.len(), n,
{
    if n == 0 {
        seq![Seq::empty()]
    } else if s.len() == 0 {
        Seq::empty()
    } else {
        spec_combinations(s.drop_first(), (n - 1) as nat).map_values(
            |c: Seq<usize>| seq![s[0]] + c,
        ) + spec_combinations(s.drop_first(), n)
    }
}

/// All size-`n` combinations with replacement of the elements of `s`. Each
/// combination lists its elements in non-decreasing position order; the
/// combinations appear in lexicographic order by element position: first
/// every combination beginning with `s[0]`, then those drawn from the rest.
/// One empty combination when `n == 0`; none when `s` is empty and `n > 0`.
pub open spec fn spec_combinations_with_replacement(s: Seq<usize>, n: nat) -> Seq<Seq<usize>>
    decreases s.len(), n,
{
    if n == 0 {
        seq![Seq::empty()]
    } else if s.len() == 0 {
        Seq::empty()
    } else {
        spec_combinations_with_replacement(s, (n - 1) as nat).map_values(
            |c: Seq<usize>| seq![s[0]] + c,
        ) + spec_combinations_with_replacement(s.drop_first(), n)
    }
}

/// The binomial coefficient: the number of size-`n` subsets of a size-`k`
/// set, by Pascal's recurrence.
pub open spec fn binom(k: nat, n: nat) -> nat
    decreases k, n,
{
    if n == 0 {
        1
    } else if k == 0 {
        0
    } else {
        binom((k - 1) as nat, (n - 1) as nat) + binom((k - 1) as nat, n)
    }
}

/// Choosing more than there is to choose from leaves nothing.
pub proof fn lemma_binom_small(k: nat, n: nat)
    requires
        k < n,
    ensures
        binom(k, n) == 0,
    decreases k,
{
    if k > 0 {
        lemma_binom_small((k - 1) as nat, (n - 1) as nat);
        lemma_binom_small((k - 1) as nat, n);
    }
}

/// There are C(s.len(), n) combinations.
pub proof fn lemma_combinations_count(s: Seq<usize>, n: nat)
    ensures
        spec_combinations(s, n).len() == binom(s.len(), n),
    decreases s.len(), n,
{
    if n != 0 && s.len() != 0 {
        lemma_combinations_count(s.drop_first(), (n - 1) as nat);
        lemma_combinations_count(s.drop_first(), n);
    }
}

/// There are C(s.len() + n - 1, n) combinations with replacement.
pub proof fn lemma_combinations_with_replacement_count(s: Seq<usize>, n: nat)
    requires
        s.len() + n >= 1,
    ensures
        spec_combinations_with_replacement(s, n).len() == binom((s.len() + n - 1) as nat, n),
    decreases s.len(), n,
{
    if n == 0 {
    } else if s.len() == 0 {
        lemma_binom_small((n - 1) as nat, n);
    } else {
        lemma_combinations_with_replacement_count(s, (n - 1) as nat);
        lemma_combinations_with_replacement_count(s.drop_first(), n);
    }
}

/// Every combination has length `n`, and every element of a combination is
/// an element of `s`.
pub proof fn lemma_combinations_elems(s: Seq<usize>, n: nat)
    ensures
        forall|i: int|
            0 <= i < spec_combinations(s, n).len() ==> (#[trigger] spec_combinations(s, n)[i]).len()
                == n,
        forall|i: int, j: int|
            0 <= i < spec_combinations(s, n).len() && 0 <= j < spec_combinations(s, n)[i].len()
                ==> s.contains(#[trigger] spec_combinations(s, n)[i][j]),
    decreases s.len(), n,
{
    if n != 0 && s.len() != 0 {
        lemma_combinations_elems(s.drop_first(), (n - 1) as nat);
        lemma_combinations_elems(s.drop_first(), n);
        assert forall|i: int, j: int|
            0 <= i < spec_combinations(s, n).len() && 0 <= j < spec_combinations(s, n)[i].len()
            implies s.contains(#[trigger] spec_combinations(s, n)[i][j]) by {
            let withfirst = spec_combinations(s.drop_first(), (n - 1) as nat).map_values(
                |c: Seq<usize>| seq![s[0]] + c,
            );
            let rest = spec_combinations(s.drop_first(), n);
            let x = spec_combinations(s, n)[i][j];
            if i < withfirst.len() {
                let c = spec_combinations(s.drop_first(), (n - 1) as nat)[i];
                assert(spec_combinations(s, n)[i] == seq![s[0]] + c);
                if j == 0 {
                    assert(x == s[0]);
                    assert(s.contains(x)) by { assert(s[0] == x) }
                } else {
                    assert(x == c[j - 1]);
                    assert(s.drop_first().contains(x));
                    let w = choose|w: int|
                        0 <= w < s.drop_first().len() && s.drop_first()[w] == x;
                    assert(s[w + 1] == x);
                }
            } else {
                let x2 = rest[i - withfirst.len()][j];
                assert(x == x2);
                assert(s.drop_first().contains(x));
                let w = choose|w: int| 0 <= w < s.drop_first().len() && s.drop_first()[w] == x;
                assert(s[w + 1] == x);
            }
        }
    }
}

/// Every combination with replacement has length `n`, and every element of
/// one is an element of `s`.
pub proof fn lemma_combinations_with_replacement_elems(s: Seq<usize>, n: nat)
    ensures
        forall|i: int|
            0 <= i < spec_combinations_with_replacement(s, n).len() ==> (
            #[trigger] spec_combinations_with_replacement(s, n)[i]).len() == n,
        forall|i: int, j: int|
            0 <= i < spec_combinations_with_replacement(s, n).len() && 0 <= j
                < spec_combinations_with_replacement(s, n)[i].len() ==> s.contains(
                #[trigger] spec_combinations_with_replacement(s, n)[i][j],
            ),
    decreases s.len(), n,
{
    if n != 0 && s.len() != 0 {
        lemma_combinations_with_replacement_elems(s, (n - 1) as nat);
        lemma_combinations_with_replacement_elems(s.drop_first(), n);
        assert forall|i: int|
            0 <= i < spec_combinations_with_replacement(s, n).len() implies (
        #[trigger] spec_combinations_with_replacement(s, n)[i]).len() == n by {
            let withfirst = spec_combinations_with_replacement(s, (n - 1) as nat).map_values(
                |c: Seq<usize>| seq![s[0]] + c,
            );
            if i < withfirst.len() {
                let c = spec_combinations_with_replacement(s, (n - 1) as nat)[i];
                assert(spec_combinations_with_replacement(s, n)[i] == seq![s[0]] + c);
            } else {
                assert(spec_combinations_with_replacement(s, n)[i]
                    == spec_combinations_with_replacement(s.drop_first(), n)[i - withfirst.len()]);
            }
        }
        assert forall|i: int, j: int|
            0 <= i < spec_combinations_with_replacement(s, n).len() && 0 <= j
                < spec_combinations_with_replacement(s, n)[i].len() implies s.contains(
            #[trigger] spec_combinations_with_replacement(s, n)[i][j],
        ) by {
            let withfirst = spec_combinations_with_replacement(s, (n - 1) as nat).map_values(
                |c: Seq<usize>| seq![s[0]] + c,
            );
            let rest = spec_combinations_with_replacement(s.drop_first(), n);
            let x = spec_combinations_with_replacement(s, n)[i][j];
            if i < withfirst.len() {
                let c = spec_combinations_with_replacement(s, (n - 1) as nat)[i];
                assert(spec_combinations_with_replacement(s, n)[i] == seq![s[0]] + c);
                if j == 0 {
                    assert(x == s[0]);
                    assert(s.contains(x)) by { assert(s[0] == x) }
                } else {
                    assert(x == c[j - 1]);
                    assert(s.contains(x));
                }
            } else {
                let x2 = rest[i - withfirst.len()][j];
                assert(x == x2);
                assert(s.drop_first().contains(x));
                let w = choose|w: int| 0 <= w < s.drop_first().len() && s.drop_first()[w] == x;
                assert(s[w + 1] == x);
            }
        }
    }
}

/// Relies on itertools' `Itertools::combinations`: it emits every
/// size-`n` combination of the input elements, chosen by position, in
/// lexicographic order of positions; one empty combination for `n == 0`,
/// none when `n` exceeds the input length.
#[verifier::external_body]
pub(crate) fn combinations_exec(items: &Vec<usize>, n: usize) -> (r: Vec<Vec<usize>>)
    ensures
        r@.map_values(|c: Vec<usize>| c@) == spec_combinations(items@, n as nat),
{
    items.iter().cloned().combinations(n).collect()
}

/// Relies on itertools' `Itertools::combinations_with_replacement`: it
/// emits every size-`n` combination with replacement of the input elements,
/// chosen by position, as non-decreasing position tuples in lexicographic
/// order; one empty combination for `n == 0`, none when the input is empty
/// and `n > 0`.
#[verifier::external_body]
pub(crate) fn combinations_with_replacement_exec(items: &Vec<usize>, n: usize) -> (r: Vec<
    Vec<usize>,
>)
    ensures
        r@.map_values(|c: Vec<usize>| c@) == spec_combinations_with_replacement(items@, n as nat),
{
    items.iter().cloned().combinations_with_replacement(n).collect()
}

} // verus!
