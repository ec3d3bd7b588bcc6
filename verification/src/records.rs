//! The molecular graph records: plain value types with no behaviour beyond
//! construction, together with their mathematical views.

use vstd::prelude::*;

verus! {

/// A bond between two atoms, each named by its position in the owning
/// molecule's atom sequence. `order` is the integer bond order (single = 1);
/// aromatic bonds are kept in a separate `AromaticBond` list and carry no
/// order value.
#[derive(Clone, Copy, Debug, PartialEq, Eq, Structural)]
pub struct Bond {
    pub atom1_idx: u16,
    pub atom2_idx: u16,
    pub order: u8,
}

impl Bond {
    pub fn new(atom1_idx: u16, atom2_idx: u16, order: u8) -> (r: Bond)
        ensures
            r == (Bond { atom1_idx, atom2_idx, order }),
    {
        Bond { atom1_idx, atom2_idx, order }
    }
}

/// A bond participating in an aromatic ring system; no order value.
#[derive(Clone, Copy, Debug, PartialEq, Eq, Structural)]
pub struct AromaticBond {
    pub atom1_idx: u16,
    pub atom2_idx: u16,
}

impl AromaticBond {
    pub fn new(atom1_idx: u16, atom2_idx: u16) -> (r: AromaticBond)
        ensures
            r == (AromaticBond { atom1_idx, atom2_idx }),
    {
        AromaticBond { atom1_idx, atom2_idx }
    }
}

/// Mathematical view of a skeleton molecule.
#[verifier::ext_equal]
pub ghost struct SkeletonModel {
    pub atoms: Seq<u8>,
    pub hs: Seq<u8>,
    pub bonds: Seq<Bond>,
    pub arom: Seq<AromaticBond>,
}

impl SkeletonModel {
    /// Well-formed: the parallel atom arrays agree in length, the atom count
    /// fits the 16-bit index width, and every bond endpoint names an
    /// existing atom.
    pub open spec fn wf(self) -> bool {
        &&& self.atoms.len() == self.hs.len()
        &&& self.atoms.len() <= 65536
        &&& forall|i: int|
            0 <= i < self.bonds.len() ==> (#[trigger] self.bonds[i]).atom1_idx < self.atoms.len()
                && self.bonds[i].atom2_idx < self.atoms.len()
        &&& forall|i: int|
            0 <= i < self.arom.len() ==> (#[trigger] self.arom[i]).atom1_idx < self.atoms.len()
                && self.arom[i].atom2_idx < self.atoms.len()
    }
}

/// Mathematical view of a substituent fragment.
#[verifier::ext_equal]
pub ghost struct FragmentModel {
    pub atoms: Seq<u8>,
    pub bonds: Seq<Bond>,
}

impl FragmentModel {
    /// Well-formed: the fragment has at least one atom (its atom at position
    /// 0 is, by convention, the attachment atom that receives the new bond
    /// to the skeleton) and every bond endpoint names an existing atom.
    pub open spec fn wf(self) -> bool {
        &&& self.atoms.len() >= 1
        &&& forall|i: int|
            0 <= i < self.bonds.len() ==> (#[trigger] self.bonds[i]).atom1_idx < self.atoms.len()
                && self.bonds[i].atom2_idx < self.atoms.len()
    }
}

/// Mathematical view of an output molecule.
#[verifier::ext_equal]
pub ghost struct OutputModel {
    pub atoms: Seq<u8>,
    pub bonds: Seq<Bond>,
    pub arom: Seq<AromaticBond>,
}

/// The skeleton: the base molecular graph that substituents attach to.
/// Atoms are stored as parallel arrays (`atomic_numbers[i]`,
/// `num_implicit_hs[i]` describe atom `i`). Read-only input to every
/// generation call.
pub struct Molecule {
    pub atomic_numbers: Vec<u8>,
    pub num_implicit_hs: Vec<u8>,
    pub bonds: Vec<Bond>,
    pub aromatic_bonds: Vec<AromaticBond>,
}

impl View for Molecule {
    type V = SkeletonModel;

    open spec fn view(&self) -> SkeletonModel {
        SkeletonModel {
            atoms: self.atomic_numbers@,
            hs: self.num_implicit_hs@,
            bonds: self.bonds@,
            arom: self.aromatic_bonds@,
        }
    }
}

impl Molecule {
    pub fn new(
        atomic_numbers: Vec<u8>,
        num_implicit_hs: Vec<u8>,
        bonds: Vec<Bond>,
        aromatic_bonds: Vec<AromaticBond>,
    ) -> (r: Molecule)
        ensures
            r@ == (SkeletonModel {
                atoms: atomic_numbers@,
                hs: num_implicit_hs@,
                bonds: bonds@,
                arom: aromatic_bonds@,
            }),
    {
        Molecule { atomic_numbers, num_implicit_hs, bonds, aromatic_bonds }
    }
}

/// A substituent fragment. Its atom at sequence position 0 is the
/// attachment atom: the atom that receives the new bond to the skeleton.
pub struct Substituent {
    pub atomic_numbers: Vec<u8>,
    pub bonds: Vec<Bond>,
}

impl View for Substituent {
    type V = FragmentModel;

    open spec fn view(&self) -> FragmentModel {
        FragmentModel { atoms: self.atomic_numbers@, bonds: self.bonds@ }
    }
}

impl Substituent {
    pub fn new(atomic_numbers: Vec<u8>, bonds: Vec<Bond>) -> (r: Substituent)
        ensures
            r@ == (FragmentModel { atoms: atomic_numbers@, bonds: bonds@ }),
    {
        Substituent { atomic_numbers, bonds }
    }
}

/// One output molecule: a fully independent merged copy. It borrows nothing
/// from the skeleton or substituents it was built from and is never mutated
/// after return.
pub struct SubstitutedMolecule {
    pub atomic_numbers: Vec<u8>,
    pub bonds: Vec<Bond>,
    pub aromatic_bonds: Vec<AromaticBond>,
}

impl View for SubstitutedMolecule {
    type V = OutputModel;

    open spec fn view(&self) -> OutputModel {
        OutputModel {
            atoms: self.atomic_numbers@,
            bonds: self.bonds@,
            arom: self.aromatic_bonds@,
        }
    }
}

/// The views of a sequence of substituents.
pub open spec fn frags_of(subs: Seq<Substituent>) -> Seq<FragmentModel> {
    subs.map_values(|t: Substituent| t@)
}

/// The views of a sequence of output molecules.
pub open spec fn outs_of(outs: Seq<SubstitutedMolecule>) -> Seq<OutputModel> {
    outs.map_values(|m: SubstitutedMolecule| m@)
}

} // verus!
