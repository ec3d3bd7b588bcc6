//! The site selector: scans a skeleton's atoms in order and reports the
//! eligible attachment points. A site is eligible iff its atom is a carbon
//! (atomic number 6) with at least one implicit hydrogen. Eligibility is
//! always evaluated against the original skeleton, never against
//! partially-built outputs.

use vstd::prelude::*;

use crate::records::{Molecule, SkeletonModel};

verus! {

/// The atomic number of carbon, the one element whose atoms accept
/// substituents.
pub const CARBON: u8 = 6;

/// The eligible sites among the first `k` atoms of the skeleton, in atom
/// order: each index `i < k` with `atoms[i] == CARBON` and `hs[i] > 0`.
pub open spec fn sites_upto(s: SkeletonModel, k: nat) -> Seq<usize>
    decreases k,
{
    if k == 0 {
        Seq::empty()
    } else {
        let prev = sites_upto(s, (k - 1) as nat);
        if s.atoms[k - 1] == CARBON && s.hs[k - 1] > 0 {
            prev.push((k - 1) as usize)
        } else {
            prev
        }
    }
}

/// The ordered sequence of eligible attachment sites of a skeleton.
pub open spec fn spec_eligible_sites(s: SkeletonModel) -> Seq<usize> {
    sites_upto(s, s.atoms.len())
}

/// Every reported site is an index below `k` (so below the atom count), and
/// there are at most `k` of them.
pub proof fn lemma_sites_upto_bounds(s: SkeletonModel, k: nat)
    requires
        k <= usize::MAX,
    ensures
        sites_upto(s, k).len() <= k,
        forall|i: int| 0 <= i < sites_upto(s, k).len() ==> (#[trigger] sites_upto(s, k)[i]) < k,
    decreases k,
{
    if k > 0 {
        lemma_sites_upto_bounds(s, (k - 1) as nat);
    }
}

/// Every eligible site names an existing skeleton atom.
pub proof fn lemma_eligible_sites_bounds(s: SkeletonModel)
    requires
        s.atoms.len() <= usize::MAX,
    ensures
        spec_eligible_sites(s).len() <= s.atoms.len(),
        forall|i: int|
            0 <= i < spec_eligible_sites(s).len() ==> (#[trigger] spec_eligible_sites(s)[i])
                < s.atoms.len(),
{
    lemma_sites_upto_bounds(s, s.atoms.len());
}

/// Scan the skeleton's atoms in order and collect the eligible attachment
/// sites. Deterministic: the result is pinned to `spec_eligible_sites`, so
/// two calls on the same skeleton return identical sequences.
pub fn find_sites(molecule: &Molecule) -> (r: Vec<usize>)
    requires
        molecule@.atoms.len() == molecule@.hs.len(),
    ensures
        r@ == spec_eligible_sites(molecule@),
{
    let mut sites: Vec<usize> = Vec::new();
    let n = molecule.atomic_numbers.len();
    let mut i: usize = 0;
    while i < n
        invariant
            i <= n,
            n == molecule@.atoms.len(),
            molecule@.atoms.len() == molecule@.hs.len(),
            sites@ == sites_upto(molecule@, i as nat),
        decreases n - i,
    {
        if molecule.atomic_numbers[i] == CARBON && molecule.num_implicit_hs[i] > 0 {
            sites.push(i);
        }
        i = i + 1;
    }
    sites
}

} // verus!
