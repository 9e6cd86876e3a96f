//! Plain value types shared by the species index and the lattice store.

use vstd::prelude::*;

verus! {

/// Identity of one particle: a compound key of two unsigned numbers. The
/// lattice only stores and compares identities; it never mints them.
#[derive(Clone, Copy, PartialEq, Eq, Debug, Structural)]
pub struct ParticleID(pub u64, pub u64);

/// A named category of occupant.
#[derive(PartialEq, Eq, Hash, Debug)]
pub struct Species(pub String);

impl Clone for Species {
    fn clone(&self) -> (r: Species)
        ensures
            r@ == self@,
    {
        Species(self.0.clone())
    }
}

impl View for Species {
    type V = Seq<char>;

    open spec fn view(&self) -> Seq<char> {
        self.0@
    }
}

/// Linear index of a voxel in the flattened lattice.
#[derive(Clone, Copy, PartialEq, Eq, Debug, Structural)]
pub struct Coordinate(pub usize);

/// Dense index of a species entry, handed out when the species is registered.
#[derive(Clone, Copy, PartialEq, Eq, Debug, Structural)]
pub struct SpeciesID(pub usize);

/// Why an operation on the lattice was refused. A refused operation leaves
/// the lattice as it was.
#[derive(Clone, Copy, PartialEq, Eq, Debug, Structural)]
pub enum Error {
    /// The coordinate lies outside the voxel array.
    OutOfRange(Coordinate),
    /// The voxel at the coordinate holds no particle.
    ParticleNotFound(Coordinate),
    /// The occupant of the second coordinate is not the substrate that the
    /// species at the first coordinate requires.
    InvalidLocation(Coordinate, Coordinate),
}

/// Extents of a lattice in rows, columns and layers. All three are positive
/// and their product, the number of voxels, fits in `usize`.
#[derive(Debug)]
pub struct HCPLatticeSize {
    row: usize,
    col: usize,
    layer: usize,
}

impl HCPLatticeSize {
    #[verifier::type_invariant]
    pub closed spec fn wf(self) -> bool {
        &&& self.row > 0
        &&& self.col > 0
        &&& self.layer > 0
        &&& self.row * self.col * self.layer <= usize::MAX
    }

    /// Number of rows.
    pub closed spec fn rows(self) -> nat {
        self.row as nat
    }

    /// Number of columns.
    pub closed spec fn cols(self) -> nat {
        self.col as nat
    }

    /// Number of layers.
    pub closed spec fn layers(self) -> nat {
        self.layer as nat
    }

    /// Number of voxels of a lattice with these extents.
    pub open spec fn volume(self) -> nat {
        self.rows() * self.cols() * self.layers()
    }

    /// The extents of a size are positive and its voxel count fits in
    /// `usize`.
    pub proof fn lemma_extents(self)
        requires
            self.wf(),
        ensures
            Self::admissible(self.rows() as usize, self.cols() as usize, self.layers() as usize),
            self.volume() <= usize::MAX,
    {
    }

    /// Whether three extents describe a lattice: each is positive and the
    /// voxel count fits in `usize`.
    pub open spec fn admissible(row: usize, col: usize, layer: usize) -> bool {
        &&& row > 0
        &&& col > 0
        &&& layer > 0
        &&& row * col * layer <= usize::MAX
    }

    /// The size with the given extents, or `None` where they are not
    /// admissible.
    pub fn new(row: usize, col: usize, layer: usize) -> (r: Option<HCPLatticeSize>)
        ensures
            r is Some <==> Self::admissible(row, col, layer),
            r matches Some(s) ==> s.wf() && s.rows() == row && s.cols() == col && s.layers()
                == layer,
    {
        if row == 0 || col == 0 || layer == 0 {
            return None;
        }
        match row.checked_mul(col) {
            None => {
                assert(row * col * layer >= row * col) by (nonlinear_arith)
                    requires
                        layer >= 1,
                        row * col >= 0,
                ;
                None
            },
            Some(plane) => match plane.checked_mul(layer) {
                None => None,
                Some(_) => Some(HCPLatticeSize { row, col, layer }),
            },
        }
    }

    /// Number of rows.
    pub fn row(&self) -> (r: usize)
        ensures
            r == self.rows(),
    {
        self.row
    }

    /// Number of columns.
    pub fn col(&self) -> (r: usize)
        ensures
            r == self.cols(),
    {
        self.col
    }

    /// Number of layers.
    pub fn layer(&self) -> (r: usize)
        ensures
            r == self.layers(),
    {
        self.layer
    }

    /// Number of voxels.
    pub fn num_voxels(&self) -> (r: usize)
        ensures
            r == self.volume(),
    {
        proof {
            use_type_invariant(self);
            assert(self.row * self.col <= self.row * self.col * self.layer) by (nonlinear_arith)
                requires
                    self.layer >= 1,
            ;
        }
        self.row * self.col * self.layer
    }
}

} // verus!
