//! The ways in which decoding, building and inference can fail.

use vstd::prelude::*;

verus! {

/// What went wrong, by kind.
#[derive(Clone, Copy, Debug, PartialEq, Eq, Structural)]
pub enum Error {
    /// The stream is too short for its header, or its tag is not the one
    /// that marks a container of raster samples.
    MalformedContainer,
    /// The header declares more samples than the payload holds.
    TruncatedSample,
    /// The header declares a raster that is not 28 by 28.
    UnsupportedDimensions,
    /// The layer sizes do not form a usable network.
    InvalidTopology,
    /// The sample does not have one entry per input neuron.
    DimensionMismatch,
}

} // verus!
