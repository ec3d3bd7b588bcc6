//! The two enumeration strategies. `substitute_1` merges every substituent
//! at every eligible site, one site per output. `substitute` picks every
//! size-`n` subset of the eligible sites and every size-`n` combination
//! with replacement of the substituents and merges each pairing into one
//! output. Both orders are observable contracts: substituent-major,
//! site-minor for `substitute_1`; site-subset-major,
//! substituent-combination-minor for `substitute`.

use vstd::prelude::*;

use crate::combos::{
    combinations_exec, combinations_with_replacement_exec, lemma_binom_small,
    lemma_combinations_count, lemma_combinations_elems, lemma_combinations_with_replacement_elems,
    spec_combinations, spec_combinations_with_replacement,
};
use crate::merge::{
    chosen, spec_substituted, spec_substituted_multi, substitute_at_index, substitute_at_indices,
    sum_atoms,
};
use crate::records::{
    frags_of, outs_of, FragmentModel, Molecule, OutputModel, SkeletonModel, SubstitutedMolecule,
    Substituent,
};
use crate::sites::{find_sites, lemma_eligible_sites_bounds, spec_eligible_sites};

verus! {

/// The outputs for one substituent under single substitution: one merge
/// per eligible site, in skeleton atom order.
pub open spec fn row_1(s: SkeletonModel, f: FragmentModel) -> Seq<OutputModel> {
    spec_eligible_sites(s).map_values(|site: usize| spec_substituted(s, f, site))
}

/// The full single-substitution output sequence: substituent-major,
/// site-minor.
pub open spec fn spec_substitute_1(s: SkeletonModel, fs: Seq<FragmentModel>) -> Seq<OutputModel>
    decreases fs.len(),
{
    if fs.len() == 0 {
        Seq::empty()
    } else {
        spec_substitute_1(s, fs.drop_last()) + row_1(s, fs.last())
    }
}

/// The largest atom count among the fragments.
pub open spec fn max_atoms(fs: Seq<FragmentModel>) -> nat
    decreases fs.len(),
{
    if fs.len() == 0 {
        0
    } else if fs[0].atoms.len() >= max_atoms(fs.drop_first()) {
        fs[0].atoms.len()
    } else {
        max_atoms(fs.drop_first())
    }
}

/// No fragment is larger than the largest.
pub proof fn lemma_max_atoms_bound(fs: Seq<FragmentModel>, k: int)
    requires
        0 <= k < fs.len(),
    ensures
        fs[k].atoms.len() <= max_atoms(fs),
    decreases fs.len(),
{
    if k > 0 {
        lemma_max_atoms_bound(fs.drop_first(), k - 1);
        assert(fs.drop_first()[k - 1] == fs[k]);
    }
}

/// A choice of `c.len()` fragments holds at most `c.len()` times the
/// largest fragment's atoms.
pub proof fn lemma_sum_atoms_chosen_bound(fs: Seq<FragmentModel>, c: Seq<usize>)
    requires
        forall|j: int| 0 <= j < c.len() ==> (#[trigger] c[j]) < fs.len(),
    ensures
        sum_atoms(chosen(fs, c)) <= c.len() * max_atoms(fs),
    decreases c.len(),
{
    if c.len() > 0 {
        lemma_sum_atoms_chosen_bound(fs, c.drop_first());
        assert(chosen(fs, c).drop_first() =~= chosen(fs, c.drop_first()));
        assert(chosen(fs, c)[0] == fs[c[0] as int]);
        lemma_max_atoms_bound(fs, c[0] as int);
        assert(c.len() * max_atoms(fs) == max_atoms(fs) + (c.len() - 1) * max_atoms(fs))
            by (nonlinear_arith);
    }
}

/// Indices `0, 1, …, k - 1` as a sequence.
pub open spec fn idx_seq(k: nat) -> Seq<usize> {
    Seq::new(k, |i: int| i as usize)
}

/// Every element of `idx_seq(k)` is below `k`.
pub proof fn lemma_idx_seq_elems(k: nat)
    requires
        k <= usize::MAX,
    ensures
        forall|x: usize| idx_seq(k).contains(x) ==> x < k,
{
    assert forall|x: usize| idx_seq(k).contains(x) implies x < k by {
        let w = choose|w: int| 0 <= w < idx_seq(k).len() && idx_seq(k)[w] == x;
        assert(idx_seq(k)[w] == w as usize);
    }
}

/// The outputs for one site-subset: one merged output per substituent
/// combination, in canonical combination order. `ccs` lists the
/// combinations, each a sequence of indices into `fs`.
pub open spec fn multi_row(
    s: SkeletonModel,
    fs: Seq<FragmentModel>,
    sc: Seq<usize>,
    ccs: Seq<Seq<usize>>,
) -> Seq<OutputModel> {
    ccs.map_values(|cc: Seq<usize>| spec_substituted_multi(s, chosen(fs, cc), sc))
}

/// Site-subset-major, substituent-combination-minor enumeration over the
/// given site subsets and substituent combinations.
pub open spec fn spec_substitute_rows(
    s: SkeletonModel,
    fs: Seq<FragmentModel>,
    scs: Seq<Seq<usize>>,
    ccs: Seq<Seq<usize>>,
) -> Seq<OutputModel>
    decreases scs.len(),
{
    if scs.len() == 0 {
        Seq::empty()
    } else {
        spec_substitute_rows(s, fs, scs.drop_last(), ccs) + multi_row(s, fs, scs.last(), ccs)
    }
}

/// The full multi-substitution output sequence: every size-`n` subset of
/// the eligible sites (ascending canonical order) crossed with every
/// size-`n` combination with replacement of the substituents (canonical
/// order), one merged output per pair. With `n == 0` there is one empty
/// subset and one empty combination, so the single output is the
/// unmodified skeleton.
pub open spec fn spec_substitute(s: SkeletonModel, fs: Seq<FragmentModel>, n: nat) -> Seq<
    OutputModel,
> {
    spec_substitute_rows(
        s,
        fs,
        spec_combinations(spec_eligible_sites(s), n),
        spec_combinations_with_replacement(idx_seq(fs.len()), n),
    )
}

/// For each substituent (in input order), for each eligible site of the
/// skeleton (in skeleton atom order), produce one output molecule merging
/// that substituent at that site, the skeleton's aromatic-bond list copied
/// unchanged. An empty substituent list, or a skeleton without eligible
/// sites, yields an empty collection.
pub fn substitute_1(skeleton: &Molecule, substituents: &Vec<Substituent>) -> (r: Vec<
    SubstitutedMolecule,
>)
    requires
        skeleton@.wf(),
        forall|i: int| 0 <= i < substituents@.len() ==> (#[trigger] substituents@[i])@.wf(),
        spec_eligible_sites(skeleton@).len() > 0 ==> forall|i: int|
            0 <= i < substituents@.len() ==> skeleton@.atoms.len() + (
            #[trigger] substituents@[i])@.atoms.len() <= 65536,
    ensures
        outs_of(r@) == spec_substitute_1(skeleton@, frags_of(substituents@)),
{
    let ghost fs = frags_of(substituents@);
    let sites = find_sites(skeleton);
    let mut out: Vec<SubstitutedMolecule> = Vec::new();
    proof {
        assert(fs.take(0) =~= Seq::<FragmentModel>::empty());
        assert(outs_of(out@) =~= Seq::<OutputModel>::empty());
    }
    let mut i: usize = 0;
    while i < substituents.len()
        invariant
            i <= substituents@.len(),
            skeleton@.wf(),
            forall|k: int| 0 <= k < substituents@.len() ==> (#[trigger] substituents@[k])@.wf(),
            spec_eligible_sites(skeleton@).len() > 0 ==> forall|k: int|
                0 <= k < substituents@.len() ==> skeleton@.atoms.len() + (
                #[trigger] substituents@[k])@.atoms.len() <= 65536,
            sites@ == spec_eligible_sites(skeleton@),
            fs == frags_of(substituents@),
            outs_of(out@) == spec_substitute_1(skeleton@, fs.take(i as int)),
        decreases substituents@.len() - i,
    {
        let substituent = &substituents[i];
        let mut j: usize = 0;
        while j < sites.len()
            invariant
                j <= sites@.len(),
                i < substituents@.len(),
                skeleton@.wf(),
                forall|k: int| 0 <= k < substituents@.len() ==> (#[trigger] substituents@[k])@.wf(),
                spec_eligible_sites(skeleton@).len() > 0 ==> forall|k: int|
                    0 <= k < substituents@.len() ==> skeleton@.atoms.len() + (
                    #[trigger] substituents@[k])@.atoms.len() <= 65536,
                sites@ == spec_eligible_sites(skeleton@),
                fs == frags_of(substituents@),
                substituent@ == fs[i as int],
                outs_of(out@) == spec_substitute_1(skeleton@, fs.take(i as int)) + sites@.take(
                    j as int,
                ).map_values(|site: usize| spec_substituted(skeleton@, fs[i as int], site)),
            decreases sites@.len() - j,
        {
            proof {
                lemma_eligible_sites_bounds(skeleton@);
            }
            let m = substitute_at_index(skeleton, substituent, sites[j]);
            let ghost pre = out@;
            out.push(m);
            proof {
                let f = |site: usize| spec_substituted(skeleton@, fs[i as int], site);
                assert(outs_of(out@) =~= outs_of(pre).push(m@));
                assert(sites@.take(j + 1 as int) =~= sites@.take(j as int).push(
                    sites@[j as int],
                ));
                assert(sites@.take(j + 1 as int).map_values(f) =~= sites@.take(j as int).map_values(
                    f,
                ).push(f(sites@[j as int])));
                assert(outs_of(out@) =~= spec_substitute_1(skeleton@, fs.take(i as int))
                    + sites@.take(j + 1 as int).map_values(f));
            }
            j = j + 1;
        }
        proof {
            let f = |site: usize| spec_substituted(skeleton@, fs[i as int], site);
            assert(sites@.take(sites@.len() as int) =~= sites@);
            assert(sites@.map_values(f) == row_1(skeleton@, fs[i as int]));
            assert(fs.take(i + 1 as int).drop_last() =~= fs.take(i as int));
            assert(fs.take(i + 1 as int).last() == fs[i as int]);
            assert(spec_substitute_1(skeleton@, fs.take(i + 1 as int)) == spec_substitute_1(
                skeleton@,
                fs.take(i as int),
            ) + row_1(skeleton@, fs[i as int]));
        }
        i = i + 1;
    }
    proof {
        assert(fs.take(fs.len() as int) =~= fs);
    }
    out
}

/// Enumerate all simultaneous `n`-site substitutions: every size-`n`
/// subset of the eligible sites, in ascending canonical order, crossed
/// with every size-`n` combination with replacement of the substituents,
/// in canonical non-decreasing order; the i-th site of a subset binds the
/// i-th substituent of a combination, merged sequentially into one output.
/// If `n` exceeds the number of eligible sites, or the substituent list is
/// empty while `n > 0`, the result is empty. With `n == 0` the result is
/// one output equal to the unmodified skeleton.
pub fn substitute(skeleton: &Molecule, substituents: &Vec<Substituent>, n: usize) -> (r: Vec<
    SubstitutedMolecule,
>)
    requires
        skeleton@.wf(),
        forall|i: int| 0 <= i < substituents@.len() ==> (#[trigger] substituents@[i])@.wf(),
        (n <= spec_eligible_sites(skeleton@).len() && substituents@.len() > 0)
            ==> skeleton@.atoms.len() + n * max_atoms(frags_of(substituents@)) <= 65536,
    ensures
        outs_of(r@) == spec_substitute(skeleton@, frags_of(substituents@), n as nat),
{
    let ghost fs = frags_of(substituents@);
    let ghost site_seq = spec_eligible_sites(skeleton@);
    let ghost scs = spec_combinations(site_seq, n as nat);
    let ghost ccs = spec_combinations_with_replacement(idx_seq(fs.len()), n as nat);
    let sites = find_sites(skeleton);
    let sitecombos = combinations_exec(&sites, n);
    let mut idxs: Vec<usize> = Vec::new();
    let mut t: usize = 0;
    proof {
        assert(idx_seq(0) =~= Seq::<usize>::empty());
    }
    while t < substituents.len()
        invariant
            t <= substituents@.len(),
            idxs@ == idx_seq(t as nat),
        decreases substituents@.len() - t,
    {
        idxs.push(t);
        proof {
            assert(idx_seq((t + 1) as nat) =~= idx_seq(t as nat).push(t as usize));
        }
        t = t + 1;
    }
    let subcombos = combinations_with_replacement_exec(&idxs, n);
    let sublen = substituents.len();
    proof {
        assert(fs.len() == sublen as nat);
    }
    let mut out: Vec<SubstitutedMolecule> = Vec::new();
    proof {
        assert(scs.take(0) =~= Seq::<Seq<usize>>::empty());
        assert(outs_of(out@) =~= Seq::<OutputModel>::empty());
    }
    let mut i: usize = 0;
    while i < sitecombos.len()
        invariant
            i <= sitecombos@.len(),
            skeleton@.wf(),
            forall|k: int| 0 <= k < substituents@.len() ==> (#[trigger] substituents@[k])@.wf(),
            (n <= spec_eligible_sites(skeleton@).len() && substituents@.len() > 0)
                ==> skeleton@.atoms.len() + n * max_atoms(frags_of(substituents@)) <= 65536,
            fs == frags_of(substituents@),
            fs.len() <= usize::MAX,
            site_seq == spec_eligible_sites(skeleton@),
            scs == spec_combinations(site_seq, n as nat),
            ccs == spec_combinations_with_replacement(idx_seq(fs.len()), n as nat),
            sitecombos@.map_values(|c: Vec<usize>| c@) == scs,
            subcombos@.map_values(|c: Vec<usize>| c@) == ccs,
            outs_of(out@) == spec_substitute_rows(skeleton@, fs, scs.take(i as int), ccs),
        decreases sitecombos@.len() - i,
    {
        let sc = &sitecombos[i];
        proof {
            assert(sc@ == scs[i as int]);
        }
        let mut j: usize = 0;
        proof {
            assert(ccs.take(0) =~= Seq::<Seq<usize>>::empty());
            assert(multi_row(skeleton@, fs, scs[i as int], ccs.take(0)) =~= Seq::<
                OutputModel,
            >::empty());
        }
        while j < subcombos.len()
            invariant
                j <= subcombos@.len(),
                i < sitecombos@.len(),
                skeleton@.wf(),
                forall|k: int| 0 <= k < substituents@.len() ==> (#[trigger] substituents@[k])@.wf(),
                (n <= spec_eligible_sites(skeleton@).len() && substituents@.len() > 0)
                    ==> skeleton@.atoms.len() + n * max_atoms(frags_of(substituents@)) <= 65536,
                fs == frags_of(substituents@),
                fs.len() <= usize::MAX,
                site_seq == spec_eligible_sites(skeleton@),
                scs == spec_combinations(site_seq, n as nat),
                ccs == spec_combinations_with_replacement(idx_seq(fs.len()), n as nat),
                sitecombos@.map_values(|c: Vec<usize>| c@) == scs,
                subcombos@.map_values(|c: Vec<usize>| c@) == ccs,
                sc@ == scs[i as int],
                outs_of(out@) == spec_substitute_rows(skeleton@, fs, scs.take(i as int), ccs)
                    + multi_row(skeleton@, fs, scs[i as int], ccs.take(j as int)),
            decreases subcombos@.len() - j,
        {
            let cc = &subcombos[j];
            proof {
                assert(cc@ == ccs[j as int]);
                lemma_eligible_sites_bounds(skeleton@);
                lemma_combinations_elems(site_seq, n as nat);
                lemma_combinations_with_replacement_elems(idx_seq(fs.len()), n as nat);
                lemma_idx_seq_elems(fs.len());
                assert forall|w: int| 0 <= w < sc@.len() implies (#[trigger] sc@[w])
                    < skeleton@.atoms.len() by {
                    assert(site_seq.contains(sc@[w]));
                    let u = choose|u: int| 0 <= u < site_seq.len() && site_seq[u] == sc@[w];
                }
                assert forall|w: int| 0 <= w < cc@.len() implies (#[trigger] cc@[w])
                    < substituents@.len() by {
                    assert(idx_seq(fs.len()).contains(cc@[w]));
                }
                // The merged output fits the index width: when this row is
                // reached there is at least one site subset, so n is at most
                // the site count, and at least one combination, so for n > 0
                // the substituent list is non-empty.
                lemma_combinations_count(site_seq, n as nat);
                if site_seq.len() < n {
                    lemma_binom_small(site_seq.len(), n as nat);
                    assert(scs.len() == 0);
                    assert(false);
                }
                lemma_sum_atoms_chosen_bound(fs, cc@);
                if n == 0 {
                    assert(cc@.len() == 0);
                    assert(chosen(fs, cc@) =~= Seq::<FragmentModel>::empty());
                    assert(sum_atoms(chosen(fs, cc@)) == 0);
                } else {
                    assert(cc@.len() == n);
                    assert(cc@[0] < substituents@.len());
                    assert(substituents@.len() > 0);
                    assert(cc@.len() * max_atoms(fs) == n * max_atoms(fs));
                }
                assert(skeleton@.atoms.len() + sum_atoms(chosen(fs, cc@)) <= 65536);
            }
            let m = substitute_at_indices(skeleton, substituents, cc, sc);
            let ghost pre = out@;
            out.push(m);
            proof {
                let f = |c: Seq<usize>| spec_substituted_multi(
                    skeleton@,
                    chosen(fs, c),
                    scs[i as int],
                );
                assert(m@ == f(ccs[j as int]));
                assert(outs_of(out@) =~= outs_of(pre).push(m@));
                assert(ccs.take(j + 1 as int) =~= ccs.take(j as int).push(ccs[j as int]));
                assert(ccs.take(j + 1 as int).map_values(f) =~= ccs.take(j as int).map_values(
                    f,
                ).push(f(ccs[j as int])));
                assert(outs_of(out@) =~= spec_substitute_rows(skeleton@, fs, scs.take(i as int), ccs)
                    + multi_row(skeleton@, fs, scs[i as int], ccs.take(j + 1 as int)));
            }
            j = j + 1;
        }
        proof {
            assert(ccs.take(ccs.len() as int) =~= ccs);
            assert(scs.take(i + 1 as int).drop_last() =~= scs.take(i as int));
            assert(scs.take(i + 1 as int).last() == scs[i as int]);
            assert(spec_substitute_rows(skeleton@, fs, scs.take(i + 1 as int), ccs)
                == spec_substitute_rows(skeleton@, fs, scs.take(i as int), ccs) + multi_row(
                skeleton@,
                fs,
                scs[i as int],
                ccs,
            ));
        }
        i = i + 1;
    }
    proof {
        assert(scs.take(scs.len() as int) =~= scs);
    }
    out
}

} // verus!
