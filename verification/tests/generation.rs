//! End-to-end tests of site selection, graph merging and the two
//! enumerators, on concrete molecules.

use jucombinator::{
    find_sites, substitute, substitute_1, AromaticBond, Bond, Molecule, Substituent,
};

fn ethane_skeleton(hs: Vec<u8>) -> Molecule {
    Molecule::new(vec![6, 6], hs, vec![Bond::new(0, 1, 1)], vec![])
}

fn oxygen() -> Substituent {
    Substituent::new(vec![8], vec![])
}

fn fluorine() -> Substituent {
    Substituent::new(vec![9], vec![])
}

#[test]
fn find_sites_selects_carbons_with_hydrogens() {
    let m = Molecule::new(vec![6, 6, 8], vec![2, 0, 1], vec![], vec![]);
    let sites = find_sites(&m);
    assert_eq!(sites, vec![0]);
}

#[test]
fn find_sites_preserves_atom_order() {
    let m = Molecule::new(vec![8, 6, 7, 6], vec![1, 3, 2, 1], vec![], vec![]);
    let sites = find_sites(&m);
    assert_eq!(sites, vec![1, 3]);
}

#[test]
fn find_sites_is_idempotent() {
    let m = Molecule::new(vec![6, 7, 6], vec![1, 1, 2], vec![], vec![]);
    let first = find_sites(&m);
    let second = find_sites(&m);
    assert_eq!(first, second);
}

#[test]
fn single_substitution_skips_ineligible_site() {
    let skeleton = ethane_skeleton(vec![2, 0]);
    let outputs = substitute_1(&skeleton, &vec![oxygen()]);
    assert_eq!(outputs.len(), 1);
    assert_eq!(outputs[0].atomic_numbers, vec![6, 6, 8]);
    assert_eq!(outputs[0].bonds, vec![Bond::new(0, 1, 1), Bond::new(0, 2, 1)]);
    assert_eq!(outputs[0].aromatic_bonds, vec![]);
}

#[test]
fn single_substitution_counts_and_order() {
    let skeleton = ethane_skeleton(vec![2, 1]);
    let outputs = substitute_1(&skeleton, &vec![oxygen(), fluorine()]);
    // substituent-major, site-minor: O at 0, O at 1, F at 0, F at 1.
    assert_eq!(outputs.len(), 4);
    assert_eq!(outputs[0].atomic_numbers, vec![6, 6, 8]);
    assert_eq!(outputs[1].atomic_numbers, vec![6, 6, 8]);
    assert_eq!(outputs[2].atomic_numbers, vec![6, 6, 9]);
    assert_eq!(outputs[3].atomic_numbers, vec![6, 6, 9]);
    for out in &outputs {
        assert_eq!(out.atomic_numbers.len(), 3);
        assert_eq!(out.bonds.len(), 2);
    }
    // the connecting bond is last: order 1, endpoints (site, skeleton atom count)
    assert_eq!(outputs[0].bonds[1], Bond::new(0, 2, 1));
    assert_eq!(outputs[1].bonds[1], Bond::new(1, 2, 1));
    assert_eq!(outputs[2].bonds[1], Bond::new(0, 2, 1));
    assert_eq!(outputs[3].bonds[1], Bond::new(1, 2, 1));
}

#[test]
fn substituent_bonds_are_shifted() {
    let skeleton = Molecule::new(vec![6], vec![1], vec![], vec![]);
    let hydroxymethyl = Substituent::new(vec![8, 6], vec![Bond::new(0, 1, 1)]);
    let outputs = substitute_1(&skeleton, &vec![hydroxymethyl]);
    assert_eq!(outputs.len(), 1);
    assert_eq!(outputs[0].atomic_numbers, vec![6, 8, 6]);
    // the fragment bond (0,1) shifts by the skeleton atom count 1, then the
    // connecting bond joins site 0 to the attachment atom at position 1
    assert_eq!(outputs[0].bonds, vec![Bond::new(1, 2, 1), Bond::new(0, 1, 1)]);
}

#[test]
fn aromatic_bonds_copied_unchanged() {
    let skeleton = Molecule::new(
        vec![6, 6],
        vec![1, 1],
        vec![],
        vec![AromaticBond::new(0, 1)],
    );
    let outputs = substitute_1(&skeleton, &vec![oxygen()]);
    assert_eq!(outputs.len(), 2);
    for out in &outputs {
        assert_eq!(out.aromatic_bonds, vec![AromaticBond::new(0, 1)]);
    }
}

#[test]
fn multi_substitution_both_sites() {
    let skeleton = ethane_skeleton(vec![2, 2]);
    let outputs = substitute(&skeleton, &vec![oxygen(), fluorine()], 2);
    // one site subset {0,1}; three combinations with replacement, in
    // canonical order: {O,O}, {O,F}, {F,F}
    assert_eq!(outputs.len(), 3);
    assert_eq!(outputs[0].atomic_numbers, vec![6, 6, 8, 8]);
    assert_eq!(outputs[1].atomic_numbers, vec![6, 6, 8, 9]);
    assert_eq!(outputs[2].atomic_numbers, vec![6, 6, 9, 9]);
    for out in &outputs {
        assert_eq!(out.atomic_numbers.len(), 4);
        assert_eq!(out.bonds.len(), 3);
        assert_eq!(
            out.bonds,
            vec![Bond::new(0, 1, 1), Bond::new(0, 2, 1), Bond::new(1, 3, 1)]
        );
    }
}

#[test]
fn multi_substitution_count() {
    // three eligible sites, two substituents, pairs: C(3,2) * C(3,2) = 9
    let skeleton = Molecule::new(vec![6, 6, 6], vec![1, 1, 1], vec![], vec![]);
    let outputs = substitute(&skeleton, &vec![oxygen(), fluorine()], 2);
    assert_eq!(outputs.len(), 9);
    // site subsets in ascending order: {0,1}, {0,2}, {1,2}; within each, the
    // combinations {O,O}, {O,F}, {F,F}
    assert_eq!(outputs[0].bonds, vec![Bond::new(0, 3, 1), Bond::new(1, 4, 1)]);
    assert_eq!(outputs[3].bonds, vec![Bond::new(0, 3, 1), Bond::new(2, 4, 1)]);
    assert_eq!(outputs[6].bonds, vec![Bond::new(1, 3, 1), Bond::new(2, 4, 1)]);
    assert_eq!(outputs[1].atomic_numbers, vec![6, 6, 6, 8, 9]);
    assert_eq!(outputs[8].atomic_numbers, vec![6, 6, 6, 9, 9]);
}

#[test]
fn multi_with_one_site_transposes_single() {
    let skeleton = ethane_skeleton(vec![2, 1]);
    let single = substitute_1(&skeleton, &vec![oxygen(), fluorine()]);
    let multi = substitute(&skeleton, &vec![oxygen(), fluorine()], 1);
    let n_subs = 2;
    let n_sites = 2;
    assert_eq!(single.len(), multi.len());
    for i in 0..n_subs {
        for j in 0..n_sites {
            let a = &single[i * n_sites + j];
            let b = &multi[j * n_subs + i];
            assert_eq!(a.atomic_numbers, b.atomic_numbers);
            assert_eq!(a.bonds, b.bonds);
            assert_eq!(a.aromatic_bonds, b.aromatic_bonds);
        }
    }
}

#[test]
fn zero_sites_substituted_returns_bare_skeleton() {
    // one empty site subset and one empty combination: the single output is
    // the unmodified skeleton
    let skeleton = ethane_skeleton(vec![2, 0]);
    let outputs = substitute(&skeleton, &vec![oxygen()], 0);
    assert_eq!(outputs.len(), 1);
    assert_eq!(outputs[0].atomic_numbers, vec![6, 6]);
    assert_eq!(outputs[0].bonds, vec![Bond::new(0, 1, 1)]);
    assert_eq!(outputs[0].aromatic_bonds, vec![]);
}

#[test]
fn empty_results_are_not_errors() {
    let skeleton = ethane_skeleton(vec![2, 2]);
    // more sites asked for than exist
    assert_eq!(substitute(&skeleton, &vec![oxygen()], 3).len(), 0);
    // no substituents while n > 0
    assert_eq!(substitute(&skeleton, &vec![], 1).len(), 0);
    // no substituents at all
    assert_eq!(substitute_1(&skeleton, &vec![]).len(), 0);
    // no eligible sites
    let bare = Molecule::new(vec![8, 7], vec![1, 1], vec![], vec![]);
    assert_eq!(substitute_1(&bare, &vec![oxygen()]).len(), 0);
}

#[test]
fn outputs_are_independent_of_inputs_and_each_other() {
    let skeleton = ethane_skeleton(vec![2, 0]);
    let subs = vec![oxygen()];
    let mut first = substitute_1(&skeleton, &subs);
    let second = substitute_1(&skeleton, &subs);
    // mutating one output collection leaves the other and the inputs alone
    first[0].atomic_numbers.push(99);
    first[0].bonds.clear();
    assert_eq!(second[0].atomic_numbers, vec![6, 6, 8]);
    assert_eq!(second[0].bonds, vec![Bond::new(0, 1, 1), Bond::new(0, 2, 1)]);
    assert_eq!(skeleton.atomic_numbers, vec![6, 6]);
    assert_eq!(subs[0].atomic_numbers, vec![8]);
    // and the same inputs still produce the same outputs afterwards
    let third = substitute_1(&skeleton, &subs);
    assert_eq!(third.len(), 1);
    assert_eq!(third[0].atomic_numbers, vec![6, 6, 8]);
}

#[test]
fn record_constructors_keep_fields() {
    let b = Bond::new(3, 7, 2);
    assert_eq!(b.atom1_idx, 3);
    assert_eq!(b.atom2_idx, 7);
    assert_eq!(b.order, 2);
    let a = AromaticBond::new(4, 5);
    assert_eq!(a.atom1_idx, 4);
    assert_eq!(a.atom2_idx, 5);
    let m = Molecule::new(vec![6], vec![1], vec![], vec![AromaticBond::new(0, 0)]);
    assert_eq!(m.atomic_numbers, vec![6]);
    assert_eq!(m.num_implicit_hs, vec![1]);
    assert_eq!(m.bonds, vec![]);
    assert_eq!(m.aromatic_bonds, vec![AromaticBond::new(0, 0)]);
    let t = Substituent::new(vec![8, 1], vec![Bond::new(0, 1, 1)]);
    assert_eq!(t.atomic_numbers, vec![8, 1]);
    assert_eq!(t.bonds, vec![Bond::new(0, 1, 1)]);
}
