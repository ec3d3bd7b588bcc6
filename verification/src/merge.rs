//! The graph merger: appends a substituent fragment's atoms and bonds to a
//! growing base graph and adds the one new connecting bond. Fragment atom
//! indices shift by the base atom count; the connecting bond runs from the
//! chosen skeleton site to the fragment's attachment atom (fragment-local
//! index 0, now at position `offset`).

use vstd::prelude::*;

use crate::records::{
    AromaticBond, Bond, FragmentModel, Molecule, OutputModel, SkeletonModel, SubstitutedMolecule,
    Substituent,
};

verus! {

/// The canonical order value of the new connecting bond: a single bond.
pub const SINGLE_BOND_ORDER: u8 = 1;

/// A fragment bond with both endpoints shifted by `off`.
pub open spec fn spec_shift_bond(b: Bond, off: nat) -> Bond {
    Bond {
        atom1_idx: (b.atom1_idx + off) as u16,
        atom2_idx: (b.atom2_idx + off) as u16,
        order: b.order,
    }
}

/// One merge step. The merged atoms are the base atoms followed by the
/// fragment atoms; the merged bonds are the base bonds, then each fragment
/// bond shifted by the base atom count, then exactly one new single bond
/// from `site` to the fragment's attachment atom.
pub open spec fn spec_attach(
    atoms: Seq<u8>,
    bonds: Seq<Bond>,
    f: FragmentModel,
    site: usize,
) -> (Seq<u8>, Seq<Bond>) {
    let off = atoms.len();
    (
        atoms + f.atoms,
        bonds + f.bonds.map_values(|b: Bond| spec_shift_bond(b, off)) + seq![
            Bond {
                atom1_idx: site as u16,
                atom2_idx: off as u16,
                order: SINGLE_BOND_ORDER,
            },
        ],
    )
}

/// Sequential multi-fragment merge: each fragment in turn is appended
/// against the current accumulated atom count, paired with its site.
/// Fragments and sites are consumed in step; by construction the two
/// sequences always have equal length.
pub open spec fn spec_attach_all(
    atoms: Seq<u8>,
    bonds: Seq<Bond>,
    fs: Seq<FragmentModel>,
    sites: Seq<usize>,
) -> (Seq<u8>, Seq<Bond>)
    decreases fs.len(),
{
    if fs.len() == 0 || sites.len() == 0 {
        (atoms, bonds)
    } else {
        let stepped = spec_attach(atoms, bonds, fs[0], sites[0]);
        spec_attach_all(stepped.0, stepped.1, fs.drop_first(), sites.drop_first())
    }
}

/// The output of merging one substituent into the skeleton at `site`. The
/// skeleton's aromatic-bond list is copied unchanged; substituents carry no
/// aromatic bonds.
pub open spec fn spec_substituted(s: SkeletonModel, f: FragmentModel, site: usize) -> OutputModel {
    let merged = spec_attach(s.atoms, s.bonds, f, site);
    OutputModel { atoms: merged.0, bonds: merged.1, arom: s.arom }
}

/// The output of merging a sequence of substituents into the skeleton at
/// the paired sites, in order.
pub open spec fn spec_substituted_multi(
    s: SkeletonModel,
    fs: Seq<FragmentModel>,
    sites: Seq<usize>,
) -> OutputModel {
    let merged = spec_attach_all(s.atoms, s.bonds, fs, sites);
    OutputModel { atoms: merged.0, bonds: merged.1, arom: s.arom }
}

/// The fragments named by a sequence of indices into `fs`.
pub open spec fn chosen(fs: Seq<FragmentModel>, c: Seq<usize>) -> Seq<FragmentModel> {
    c.map_values(|k: usize| fs[k as int])
}

/// The total atom count of a sequence of fragments.
pub open spec fn sum_atoms(fs: Seq<FragmentModel>) -> nat
    decreases fs.len(),
{
    if fs.len() == 0 {
        0
    } else {
        fs[0].atoms.len() + sum_atoms(fs.drop_first())
    }
}

/// Peeling one fragment off the front of a suffix.
pub proof fn lemma_sum_atoms_skip(fs: Seq<FragmentModel>, i: int)
    requires
        0 <= i < fs.len(),
    ensures
        sum_atoms(fs.skip(i)) == fs[i].atoms.len() + sum_atoms(fs.skip(i + 1)),
{
    assert(fs.skip(i).drop_first() =~= fs.skip(i + 1));
    assert(fs.skip(i)[0] == fs[i]);
}

/// Append a copy of every element of `src` to `dst`.
fn extend_copied<T: Copy>(dst: &mut Vec<T>, src: &Vec<T>)
    ensures
        final(dst)@ == old(dst)@ + src@,
{
    let mut i: usize = 0;
    while i < src.len()
        invariant
            i <= src@.len(),
            dst@ == old(dst)@ + src@.take(i as int),
        decreases src@.len() - i,
    {
        dst.push(src[i]);
        proof {
            assert(src@.take(i + 1 as int) =~= src@.take(i as int).push(src@[i as int]));
        }
        i = i + 1;
    }
    proof {
        assert(src@.take(src@.len() as int) =~= src@);
    }
}

/// Append one fragment to a growing merged graph: its atoms, its bonds
/// shifted by the current atom count, and the new connecting bond from
/// `site` to the fragment's attachment atom.
fn append_fragment(atoms: &mut Vec<u8>, bonds: &mut Vec<Bond>, fragment: &Substituent, site: usize)
    requires
        fragment@.wf(),
        site < old(atoms)@.len(),
        old(atoms)@.len() + fragment@.atoms.len() <= 65536,
    ensures
        final(atoms)@ == spec_attach(old(atoms)@, old(bonds)@, fragment@, site).0,
        final(bonds)@ == spec_attach(old(atoms)@, old(bonds)@, fragment@, site).1,
{
    let offset = atoms.len();
    let offset16 = offset as u16;
    extend_copied(atoms, &fragment.atomic_numbers);
    let ghost shifted = fragment@.bonds.map_values(|b: Bond| spec_shift_bond(b, offset as nat));
    let mut i: usize = 0;
    while i < fragment.bonds.len()
        invariant
            i <= fragment@.bonds.len(),
            bonds@ == old(bonds)@ + shifted.take(i as int),
            offset16 == offset as u16,
            offset + fragment@.atoms.len() <= 65536,
            fragment@.wf(),
            shifted == fragment@.bonds.map_values(|b: Bond| spec_shift_bond(b, offset as nat)),
        decreases fragment@.bonds.len() - i,
    {
        let b = fragment.bonds[i];
        assert(b.atom1_idx < fragment@.atoms.len() && b.atom2_idx < fragment@.atoms.len());
        bonds.push(
            Bond {
                atom1_idx: b.atom1_idx + offset16,
                atom2_idx: b.atom2_idx + offset16,
                order: b.order,
            },
        );
        proof {
            assert(shifted[i as int] == spec_shift_bond(fragment@.bonds[i as int], offset as nat));
            assert(shifted.take(i + 1 as int) =~= shifted.take(i as int).push(shifted[i as int]));
        }
        i = i + 1;
    }
    proof {
        assert(shifted.take(shifted.len() as int) =~= shifted);
    }
    bonds.push(Bond { atom1_idx: site as u16, atom2_idx: offset16, order: SINGLE_BOND_ORDER });
    proof {
        assert(final(bonds)@ =~= spec_attach(old(atoms)@, old(bonds)@, fragment@, site).1);
    }
}

/// Merge the skeleton and one substituent at attachment site `id`: a fully
/// independent output graph whose atoms are the skeleton's followed by the
/// substituent's, whose bonds are the skeleton's, then the substituent's
/// shifted, then the new connecting single bond, and whose aromatic-bond
/// list is the skeleton's, copied unchanged.
pub fn substitute_at_index(skeleton: &Molecule, substituent: &Substituent, id: usize) -> (r:
    SubstitutedMolecule)
    requires
        skeleton@.wf(),
        substituent@.wf(),
        id < skeleton@.atoms.len(),
        skeleton@.atoms.len() + substituent@.atoms.len() <= 65536,
    ensures
        r@ == spec_substituted(skeleton@, substituent@, id),
{
    let mut atomic_numbers: Vec<u8> = Vec::new();
    extend_copied(&mut atomic_numbers, &skeleton.atomic_numbers);
    let mut bonds: Vec<Bond> = Vec::new();
    extend_copied(&mut bonds, &skeleton.bonds);
    proof {
        assert(atomic_numbers@ =~= skeleton@.atoms);
        assert(bonds@ =~= skeleton@.bonds);
    }
    append_fragment(&mut atomic_numbers, &mut bonds, substituent, id);
    let mut aromatic_bonds: Vec<AromaticBond> = Vec::new();
    extend_copied(&mut aromatic_bonds, &skeleton.aromatic_bonds);
    proof {
        assert(aromatic_bonds@ =~= skeleton@.arom);
    }
    SubstitutedMolecule { atomic_numbers, bonds, aromatic_bonds }
}

/// Merge the skeleton and a chosen list of substituents, one per site, in
/// order: `sub_idxs[i]` names (by position in `substituents`) the
/// substituent bound to site `site_idxs[i]`. Each fragment is appended
/// against the current accumulated atom count, while each connecting bond's
/// skeleton-side endpoint is the original site index, valid because
/// skeleton atoms are never reordered or removed.
pub fn substitute_at_indices(
    skeleton: &Molecule,
    substituents: &Vec<Substituent>,
    sub_idxs: &Vec<usize>,
    site_idxs: &Vec<usize>,
) -> (r: SubstitutedMolecule)
    requires
        skeleton@.wf(),
        sub_idxs@.len() == site_idxs@.len(),
        forall|i: int| 0 <= i < substituents@.len() ==> (#[trigger] substituents@[i])@.wf(),
        forall|i: int|
            0 <= i < sub_idxs@.len() ==> (#[trigger] sub_idxs@[i]) < substituents@.len(),
        forall|i: int|
            0 <= i < site_idxs@.len() ==> (#[trigger] site_idxs@[i]) < skeleton@.atoms.len(),
        skeleton@.atoms.len() + sum_atoms(
            chosen(crate::records::frags_of(substituents@), sub_idxs@),
        ) <= 65536,
    ensures
        r@ == spec_substituted_multi(
            skeleton@,
            chosen(crate::records::frags_of(substituents@), sub_idxs@),
            site_idxs@,
        ),
{
    let ghost fs = chosen(crate::records::frags_of(substituents@), sub_idxs@);
    let mut atomic_numbers: Vec<u8> = Vec::new();
    extend_copied(&mut atomic_numbers, &skeleton.atomic_numbers);
    let mut bonds: Vec<Bond> = Vec::new();
    extend_copied(&mut bonds, &skeleton.bonds);
    proof {
        assert(atomic_numbers@ =~= skeleton@.atoms);
        assert(bonds@ =~= skeleton@.bonds);
        assert(fs.skip(0) =~= fs);
        assert(site_idxs@.skip(0) =~= site_idxs@);
    }
    let n = sub_idxs.len();
    let mut i: usize = 0;
    while i < n
        invariant
            i <= n,
            n == sub_idxs@.len(),
            skeleton@.wf(),
            sub_idxs@.len() == site_idxs@.len(),
            forall|k: int| 0 <= k < substituents@.len() ==> (#[trigger] substituents@[k])@.wf(),
            forall|k: int|
                0 <= k < sub_idxs@.len() ==> (#[trigger] sub_idxs@[k]) < substituents@.len(),
            forall|k: int|
                0 <= k < site_idxs@.len() ==> (#[trigger] site_idxs@[k]) < skeleton@.atoms.len(),
            fs == chosen(crate::records::frags_of(substituents@), sub_idxs@),
            skeleton@.atoms.len() + sum_atoms(fs) <= 65536,
            atomic_numbers@.len() >= skeleton@.atoms.len(),
            atomic_numbers@.len() + sum_atoms(fs.skip(i as int)) == skeleton@.atoms.len()
                + sum_atoms(fs),
            spec_attach_all(atomic_numbers@, bonds@, fs.skip(i as int), site_idxs@.skip(i as int))
                == spec_attach_all(skeleton@.atoms, skeleton@.bonds, fs, site_idxs@),
        decreases n - i,
    {
        let k = sub_idxs[i];
        let substituent = &substituents[k];
        proof {
            lemma_sum_atoms_skip(fs, i as int);
            assert(fs[i as int] == substituent@);
        }
        let ghost pre_atoms = atomic_numbers@;
        let ghost pre_bonds = bonds@;
        append_fragment(&mut atomic_numbers, &mut bonds, substituent, site_idxs[i]);
        proof {
            assert(fs.skip(i as int).drop_first() =~= fs.skip(i as int + 1));
            assert(site_idxs@.skip(i as int).drop_first() =~= site_idxs@.skip(i as int + 1));
            assert(fs.skip(i as int)[0] == fs[i as int]);
            assert(site_idxs@.skip(i as int)[0] == site_idxs@[i as int]);
            assert(spec_attach_all(
                pre_atoms,
                pre_bonds,
                fs.skip(i as int),
                site_idxs@.skip(i as int),
            ) == spec_attach_all(
                atomic_numbers@,
                bonds@,
                fs.skip(i as int + 1),
                site_idxs@.skip(i as int + 1),
            ));
        }
        i = i + 1;
    }
    proof {
        assert(fs.skip(n as int) =~= Seq::<FragmentModel>::empty());
        assert(spec_attach_all(
            atomic_numbers@,
            bonds@,
            fs.skip(n as int),
            site_idxs@.skip(n as int),
        ) == (atomic_numbers@, bonds@));
    }
    let mut aromatic_bonds: Vec<AromaticBond> = Vec::new();
    extend_copied(&mut aromatic_bonds, &skeleton.aromatic_bonds);
    proof {
        assert(aromatic_bonds@ =~= skeleton@.arom);
    }
    SubstitutedMolecule { atomic_numbers, bonds, aromatic_bonds }
}

} // verus!
