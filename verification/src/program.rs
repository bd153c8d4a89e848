//! The programs that run the jobs, as far as the queue needs to know
//! them: what goes into a job's input file, and which files a job leaves.

use vstd::prelude::*;

pub mod molpro;

verus! {

/// What a job is to compute.
#[derive(Clone, Copy, Debug, PartialEq, Eq, Structural)]
pub enum Procedure {
    /// A geometry optimisation.
    Opt,
    /// Harmonic frequencies.
    Freq,
    /// A single-point energy.
    SinglePt,
}

/// The part of an input file that is the same for every job of a batch.
#[derive(Debug)]
pub struct Template {
    pub header: String,
}

/// The geometry of a molecule, as the text that stands for it in an
/// input file.
#[derive(Debug)]
pub enum Geom {
    /// Cartesian coordinates, one atom to a line.
    Xyz(String),
    /// A Z-matrix, followed by the values of its parameters, each on a
    /// line of the form `name = value`.
    Zmat(String),
}

impl Geom {
    /// The text of the geometry.
    pub open spec fn text(&self) -> Seq<char> {
        match self {
            Geom::Xyz(t) => t@,
            Geom::Zmat(t) => t@,
        }
    }
}

} // verus!
