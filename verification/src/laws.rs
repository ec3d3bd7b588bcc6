//! The library's general laws: output counts, output grouping order, the
//! shape and connecting bond of every output, the agreement of the two
//! enumerators at `n == 1`, and the `n == 0` boundary. Each is stated over
//! the spec functions that the executable contracts are pinned to, and
//! proved once for all inputs.

use vstd::prelude::*;

use crate::combos::{
    binom, lemma_combinations_count, lemma_combinations_with_replacement_count, spec_combinations,
    spec_combinations_with_replacement,
};
use crate::enumerate::{
    idx_seq, multi_row, row_1, spec_substitute, spec_substitute_1, spec_substitute_rows,
};
use crate::merge::{
    chosen, spec_attach, spec_attach_all, spec_substituted, spec_substituted_multi,
    SINGLE_BOND_ORDER,
};
use crate::records::{Bond, FragmentModel, OutputModel, SkeletonModel};
use crate::sites::spec_eligible_sites;

verus! {

/// Single substitution yields one output per (substituent, site) pair,
/// grouped substituent-major then site-minor: with `L` eligible sites,
/// output `i·L + j` merges substituent `i` at the `j`-th eligible site.
pub proof fn lemma_substitute_1_count_and_order(s: SkeletonModel, fs: Seq<FragmentModel>)
    ensures
        spec_substitute_1(s, fs).len() == fs.len() * spec_eligible_sites(s).len(),
        forall|i: int, j: int|
            0 <= i < fs.len() && 0 <= j < spec_eligible_sites(s).len() ==> spec_substitute_1(
                s,
                fs,
            )[i * spec_eligible_sites(s).len() + j] == spec_substituted(
                s,
                fs[i],
                spec_eligible_sites(s)[j],
            ),
    decreases fs.len(),
{
    let lsize = spec_eligible_sites(s).len() as int;
    if fs.len() == 0 {
    } else {
        lemma_substitute_1_count_and_order(s, fs.drop_last());
        let prev = spec_substitute_1(s, fs.drop_last());
        let row = row_1(s, fs.last());
        assert(prev.len() == (fs.len() - 1) * lsize);
        assert(row.len() == lsize);
        assert((fs.len() - 1) * lsize + lsize == fs.len() * lsize) by (nonlinear_arith);
        assert forall|i: int, j: int|
            0 <= i < fs.len() && 0 <= j < lsize implies spec_substitute_1(s, fs)[i * lsize + j]
            == spec_substituted(s, fs[i], spec_eligible_sites(s)[j]) by {
            assert(0 <= i * lsize) by (nonlinear_arith)
                requires 0 <= i && 0 <= lsize;
            if i < fs.len() - 1 {
                assert(i * lsize + lsize <= (fs.len() - 1) * lsize) by (nonlinear_arith)
                    requires i + 1 <= fs.len() - 1 && 0 <= lsize;
                assert(spec_substitute_1(s, fs)[i * lsize + j] == prev[i * lsize + j]);
                assert(fs.drop_last()[i] == fs[i]);
            } else {
                assert(i == fs.len() - 1);
                assert(i * lsize == (fs.len() - 1) * lsize);
                assert(spec_substitute_1(s, fs)[i * lsize + j] == row[j]);
                assert(row[j] == spec_substituted(s, fs.last(), spec_eligible_sites(s)[j]));
                assert(fs.last() == fs[i]);
            }
        }
    }
}

/// For any skeleton and a single substituent, single substitution yields
/// exactly one output per eligible site, and each output has the
/// skeleton's and the substituent's atom counts combined, and one bond
/// more than the two bond lists combined.
pub proof fn lemma_single_substituent_shape(s: SkeletonModel, f: FragmentModel)
    ensures
        spec_substitute_1(s, seq![f]).len() == spec_eligible_sites(s).len(),
        forall|j: int|
            0 <= j < spec_eligible_sites(s).len() ==> (#[trigger] spec_substitute_1(
                s,
                seq![f],
            )[j]).atoms.len() == s.atoms.len() + f.atoms.len(),
        forall|j: int|
            0 <= j < spec_eligible_sites(s).len() ==> (#[trigger] spec_substitute_1(
                s,
                seq![f],
            )[j]).bonds.len() == s.bonds.len() + f.bonds.len() + 1,
{
    lemma_substitute_1_count_and_order(s, seq![f]);
    let lsize = spec_eligible_sites(s).len() as int;
    assert(seq![f].len() == 1);
    assert(seq![f].len() * spec_eligible_sites(s).len() == spec_eligible_sites(s).len())
        by (nonlinear_arith)
        requires seq![f].len() == 1;
    assert forall|j: int|
        0 <= j < lsize implies (#[trigger] spec_substitute_1(s, seq![f])[j]).atoms.len()
        == s.atoms.len() + f.atoms.len() && spec_substitute_1(s, seq![f])[j].bonds.len()
        == s.bonds.len() + f.bonds.len() + 1 by {
        assert(0 * lsize + j == j);
        assert(spec_substitute_1(s, seq![f])[j] == spec_substituted(
            s,
            seq![f][0],
            spec_eligible_sites(s)[j],
        ));
    }
}

/// Every single-substitution output carries, as its last bond, the new
/// connecting bond: a single bond from the chosen eligible site to the
/// substituent's attachment atom, which sits at position `s.atoms.len()`
/// of the merged graph.
pub proof fn lemma_connecting_bond(s: SkeletonModel, fs: Seq<FragmentModel>)
    ensures
        forall|i: int, j: int|
            0 <= i < fs.len() && 0 <= j < spec_eligible_sites(s).len()
                ==> (#[trigger] spec_substituted(s, fs[i], spec_eligible_sites(s)[j])).bonds.last()
                == (Bond {
                atom1_idx: spec_eligible_sites(s)[j] as u16,
                atom2_idx: s.atoms.len() as u16,
                order: SINGLE_BOND_ORDER,
            }) && spec_substitute_1(s, fs)[i * spec_eligible_sites(s).len() + j]
                == spec_substituted(s, fs[i], spec_eligible_sites(s)[j]),
{
    lemma_substitute_1_count_and_order(s, fs);
    let lsize = spec_eligible_sites(s).len() as int;
    assert forall|i: int, j: int|
        0 <= i < fs.len() && 0 <= j < lsize implies (#[trigger] spec_substituted(
        s,
        fs[i],
        spec_eligible_sites(s)[j],
    )).bonds.last() == (Bond {
        atom1_idx: spec_eligible_sites(s)[j] as u16,
        atom2_idx: s.atoms.len() as u16,
        order: SINGLE_BOND_ORDER,
    }) && spec_substitute_1(s, fs)[i * lsize + j] == spec_substituted(
        s,
        fs[i],
        spec_eligible_sites(s)[j],
    ) by {
        let o = spec_substituted(s, fs[i], spec_eligible_sites(s)[j]);
        assert(spec_substitute_1(s, fs)[i * lsize + j] == o);
        assert(o.bonds.last() == (Bond {
            atom1_idx: spec_eligible_sites(s)[j] as u16,
            atom2_idx: s.atoms.len() as u16,
            order: SINGLE_BOND_ORDER,
        }));
    }
}

/// The cross enumeration yields one output per (site-subset, combination)
/// pair, grouped site-subset-major then combination-minor.
pub proof fn lemma_substitute_rows_index(
    s: SkeletonModel,
    fs: Seq<FragmentModel>,
    scs: Seq<Seq<usize>>,
    ccs: Seq<Seq<usize>>,
)
    ensures
        spec_substitute_rows(s, fs, scs, ccs).len() == scs.len() * ccs.len(),
        forall|i: int, j: int|
            0 <= i < scs.len() && 0 <= j < ccs.len() ==> spec_substitute_rows(s, fs, scs, ccs)[i
                * ccs.len() + j] == spec_substituted_multi(s, chosen(fs, ccs[j]), scs[i]),
    decreases scs.len(),
{
    let csize = ccs.len() as int;
    if scs.len() == 0 {
    } else {
        lemma_substitute_rows_index(s, fs, scs.drop_last(), ccs);
        let prev = spec_substitute_rows(s, fs, scs.drop_last(), ccs);
        let row = multi_row(s, fs, scs.last(), ccs);
        assert(prev.len() == (scs.len() - 1) * csize);
        assert(row.len() == csize);
        assert((scs.len() - 1) * csize + csize == scs.len() * csize) by (nonlinear_arith);
        assert forall|i: int, j: int|
            0 <= i < scs.len() && 0 <= j < csize implies spec_substitute_rows(s, fs, scs, ccs)[i
            * csize + j] == spec_substituted_multi(s, chosen(fs, ccs[j]), scs[i]) by {
            assert(0 <= i * csize) by (nonlinear_arith)
                requires 0 <= i && 0 <= csize;
            if i < scs.len() - 1 {
                assert(i * csize + csize <= (scs.len() - 1) * csize) by (nonlinear_arith)
                    requires i + 1 <= scs.len() - 1 && 0 <= csize;
                assert(spec_substitute_rows(s, fs, scs, ccs)[i * csize + j] == prev[i * csize + j]);
                assert(scs.drop_last()[i] == scs[i]);
            } else {
                assert(i == scs.len() - 1);
                assert(i * csize == (scs.len() - 1) * csize);
                assert(spec_substitute_rows(s, fs, scs, ccs)[i * csize + j] == row[j]);
                assert(row[j] == spec_substituted_multi(s, chosen(fs, ccs[j]), scs.last()));
                assert(scs.last() == scs[i]);
            }
        }
    }
}

/// The multi-substitution output count: `C(|eligible sites|, n)` site
/// subsets times `C(|substituents| + n − 1, n)` combinations with
/// replacement. When `n` exceeds the site count, or the substituent list
/// is empty while `n > 0`, the first or second factor is zero and the
/// output is empty.
pub proof fn lemma_substitute_count(s: SkeletonModel, fs: Seq<FragmentModel>, n: nat)
    requires
        fs.len() + n >= 1,
    ensures
        spec_substitute(s, fs, n).len() == binom(spec_eligible_sites(s).len(), n) * binom(
            (fs.len() + n - 1) as nat,
            n,
        ),
{
    let scs = spec_combinations(spec_eligible_sites(s), n);
    let ccs = spec_combinations_with_replacement(idx_seq(fs.len()), n);
    lemma_substitute_rows_index(s, fs, scs, ccs);
    lemma_combinations_count(spec_eligible_sites(s), n);
    assert(idx_seq(fs.len()).len() == fs.len());
    lemma_combinations_with_replacement_count(idx_seq(fs.len()), n);
}

/// A one-fragment merge list merges exactly as a single-substituent merge.
pub proof fn lemma_substituted_multi_single(s: SkeletonModel, f: FragmentModel, site: usize)
    ensures
        spec_substituted_multi(s, seq![f], seq![site]) == spec_substituted(s, f, site),
{
    assert(seq![f].drop_first() =~= Seq::<FragmentModel>::empty());
    assert(seq![site].drop_first() =~= Seq::<usize>::empty());
    let stepped = spec_attach(s.atoms, s.bonds, f, site);
    assert(seq![f][0] == f && seq![site][0] == site);
    assert(spec_attach_all(s.atoms, s.bonds, seq![f], seq![site]) == spec_attach_all(
        stepped.0,
        stepped.1,
        Seq::<FragmentModel>::empty(),
        Seq::<usize>::empty(),
    ));
    assert(spec_attach_all(
        stepped.0,
        stepped.1,
        Seq::<FragmentModel>::empty(),
        Seq::<usize>::empty(),
    ) == (stepped.0, stepped.1));
}

/// Size-one combinations are the elements themselves, in order, each as a
/// one-element combination.
pub proof fn lemma_combinations_one(sq: Seq<usize>)
    ensures
        spec_combinations(sq, 1) =~~= sq.map_values(|x: usize| seq![x]),
    decreases sq.len(),
{
    if sq.len() == 0 {
        assert(spec_combinations(sq, 1) =~~= sq.map_values(|x: usize| seq![x]));
    } else {
        lemma_combinations_one(sq.drop_first());
        assert(spec_combinations(sq.drop_first(), 0) == seq![Seq::<usize>::empty()]);
        assert(spec_combinations(sq, 1) == seq![Seq::<usize>::empty()].map_values(
            |c: Seq<usize>| seq![sq[0]] + c,
        ) + spec_combinations(sq.drop_first(), 1));
        assert(seq![sq[0]] + Seq::<usize>::empty() =~= seq![sq[0]]);
        assert(spec_combinations(sq, 1) =~~= sq.map_values(|x: usize| seq![x]));
    }
}

/// Size-one combinations with replacement are the elements themselves, in
/// order, each as a one-element combination.
pub proof fn lemma_combinations_with_replacement_one(sq: Seq<usize>)
    ensures
        spec_combinations_with_replacement(sq, 1) =~~= sq.map_values(|x: usize| seq![x]),
    decreases sq.len(),
{
    if sq.len() == 0 {
        assert(spec_combinations_with_replacement(sq, 1) =~~= sq.map_values(
            |x: usize| seq![x],
        ));
    } else {
        lemma_combinations_with_replacement_one(sq.drop_first());
        assert(spec_combinations_with_replacement(sq, 0) == seq![Seq::<usize>::empty()]);
        assert(spec_combinations_with_replacement(sq, 1) == seq![Seq::<usize>::empty()].map_values(
            |c: Seq<usize>| seq![sq[0]] + c,
        ) + spec_combinations_with_replacement(sq.drop_first(), 1));
        assert(seq![sq[0]] + Seq::<usize>::empty() =~= seq![sq[0]]);
        assert(spec_combinations_with_replacement(sq, 1) =~~= sq.map_values(|x: usize| seq![x]));
    }
}

/// At `n == 1` the two enumerators agree up to transposition: `substitute`
/// is site-major and substituent-minor, `substitute_1` substituent-major
/// and site-minor, and the (site `j`, substituent `i`) output of the one
/// equals the (substituent `i`, site `j`) output of the other.
pub proof fn lemma_substitute_one_transposes(s: SkeletonModel, fs: Seq<FragmentModel>)
    requires
        fs.len() <= usize::MAX,
    ensures
        spec_substitute(s, fs, 1).len() == spec_substitute_1(s, fs).len(),
        forall|i: int, j: int|
            0 <= i < fs.len() && 0 <= j < spec_eligible_sites(s).len() ==> spec_substitute(
                s,
                fs,
                1,
            )[j * fs.len() + i] == (#[trigger] spec_substituted(
                s,
                fs[i],
                spec_eligible_sites(s)[j],
            )) && spec_substitute_1(s, fs)[i * spec_eligible_sites(s).len() + j]
                == spec_substituted(s, fs[i], spec_eligible_sites(s)[j]),
{
    let sq = spec_eligible_sites(s);
    let scs = spec_combinations(sq, 1);
    let ccs = spec_combinations_with_replacement(idx_seq(fs.len()), 1);
    lemma_combinations_one(sq);
    lemma_combinations_with_replacement_one(idx_seq(fs.len()));
    lemma_substitute_rows_index(s, fs, scs, ccs);
    lemma_substitute_1_count_and_order(s, fs);
    assert(scs.len() == sq.len());
    assert(ccs.len() == fs.len());
    assert(spec_substitute(s, fs, 1).len() == scs.len() * ccs.len());
    assert(scs.len() * ccs.len() == fs.len() * sq.len()) by (nonlinear_arith)
        requires scs.len() == sq.len() && ccs.len() == fs.len();
    assert forall|i: int, j: int|
        0 <= i < fs.len() && 0 <= j < sq.len() implies spec_substitute(s, fs, 1)[j * fs.len() + i]
        == (#[trigger] spec_substituted(s, fs[i], sq[j])) && spec_substitute_1(s, fs)[i * sq.len()
        + j] == spec_substituted(s, fs[i], sq[j]) by {
        assert(scs[j] == sq.map_values(|x: usize| seq![x])[j]);
        assert(scs[j] == seq![sq[j]]);
        assert(ccs[i] == idx_seq(fs.len()).map_values(|x: usize| seq![x])[i]);
        assert(ccs[i] == seq![idx_seq(fs.len())[i]]);
        assert(idx_seq(fs.len())[i] == i as usize);
        assert(chosen(fs, ccs[i]).len() == 1);
        assert(chosen(fs, ccs[i])[0] == fs[(i as usize) as int]);
        assert((i as usize) as int == i);
        assert(chosen(fs, ccs[i]) =~= seq![fs[i]]);
        lemma_substituted_multi_single(s, fs[i], sq[j]);
        assert(spec_substitute(s, fs, 1)[j * ccs.len() + i] == spec_substituted_multi(
            s,
            chosen(fs, ccs[i]),
            scs[j],
        ));
        assert(j * ccs.len() == j * fs.len()) by (nonlinear_arith)
            requires ccs.len() == fs.len();
        assert(spec_substitute_1(s, fs)[i * sq.len() + j] == spec_substituted(s, fs[i], sq[j]));
    }
}

/// At `n == 0` there is exactly one empty site subset and one empty
/// substituent combination, so the single output is the unmodified
/// skeleton.
pub proof fn lemma_substitute_zero(s: SkeletonModel, fs: Seq<FragmentModel>)
    ensures
        spec_substitute(s, fs, 0).len() == 1,
        spec_substitute(s, fs, 0)[0] == (OutputModel { atoms: s.atoms, bonds: s.bonds, arom: s.arom }),
{
    let scs = spec_combinations(spec_eligible_sites(s), 0);
    let ccs = spec_combinations_with_replacement(idx_seq(fs.len()), 0);
    lemma_substitute_rows_index(s, fs, scs, ccs);
    assert(scs.len() == 1 && ccs.len() == 1);
    assert(spec_substitute(s, fs, 0) == spec_substitute_rows(s, fs, scs, ccs));
    assert(spec_substitute_rows(s, fs, scs, ccs).len() == scs.len() * ccs.len());
    assert(scs.len() * ccs.len() == 1) by (nonlinear_arith)
        requires scs.len() == 1 && ccs.len() == 1;
    assert(scs[0] == Seq::<usize>::empty());
    assert(ccs[0] == Seq::<usize>::empty());
    assert(chosen(fs, ccs[0]) =~= Seq::<FragmentModel>::empty());
    assert(spec_substitute(s, fs, 0)[0] == spec_substituted_multi(
        s,
        chosen(fs, ccs[0]),
        scs[0],
    ));
}

} // verus!
