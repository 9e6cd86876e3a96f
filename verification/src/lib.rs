//! Occupancy core of a hexagonal-close-packed voxel lattice.
//!
//! A lattice is a flat array of voxels, each holding at most one occupant
//! tagged by the identifier of its species, together with one index entry
//! per species that either tracks every particle with its coordinate or
//! merely counts the occupants.

pub mod consistency;
pub mod lattice;
pub mod laws;
pub mod model;
pub mod species;
pub mod types;

pub use lattice::HCPLatticeSpace;
pub use species::SpeciesCache;
pub use species::TrackingType;
pub use types::Coordinate;
pub use types::Error;
pub use types::HCPLatticeSize;
pub use types::ParticleID;
pub use types::Species;
pub use types::SpeciesID;
