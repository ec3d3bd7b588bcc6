//! Enumeration of molecular structures obtained by attaching substituent
//! fragments to a fixed skeleton at its eligible attachment sites.
//!
//! A skeleton is a molecular graph: atoms as parallel arrays of atomic
//! numbers and implicit-hydrogen counts, plus bond lists. A site is eligible
//! when its atom is a carbon with at least one implicit hydrogen. The two
//! entry points, `substitute_1` and `substitute`, build every merged graph
//! obtained by attaching one substituent at one site, or `n` substituents
//! (chosen with replacement) at an `n`-subset of the sites.

pub mod combos;
pub mod enumerate;
pub mod laws;
pub mod merge;
pub mod records;
pub mod sites;

pub use enumerate::{substitute, substitute_1};
pub use merge::{substitute_at_index, substitute_at_indices};
pub use records::{AromaticBond, Bond, Molecule, SubstitutedMolecule, Substituent};
pub use sites::find_sites;
