//! The verdict a codec gives when asked whether a file could be in its format.

use vstd::prelude::*;

use crate::guess_format::SplatFormats;
use crate::uber_splat::SplatError;

verus! {

/// One codec's answer to "could this file be yours?".
///
/// A `Maybe` carries an optional confidence in thousandths of a unit (the
/// detector's stand-in for a confidence in [0, 1]); `None` ranks below every
/// stated confidence. A `No` carries a diagnostic reason.
#[derive(Clone, Debug, PartialEq)]
pub enum FormatResult {
    No(String),
    Maybe(Option<u32>),
    Yes,
}

impl FormatResult {
    /// How a result ranks during detection: `Yes` above every `Maybe`, a
    /// `Maybe` above every `No`, and among `Maybe`s a higher confidence above
    /// a lower one, with a missing confidence lowest.
    pub open spec fn rank(&self) -> int {
        match self {
            FormatResult::Yes => 0x1_0000_0000,
            FormatResult::Maybe(Some(c)) => *c as int,
            FormatResult::Maybe(None) => -1,
            FormatResult::No(_) => -2,
        }
    }

    /// Detection keeps a candidate only when its result is `Yes` or `Maybe`.
    pub open spec fn is_candidate(&self) -> bool {
        !(self is No)
    }
}

/// The dispatcher's routing decision for loading: failed detection is a typed
/// failure, and the half-precision codec stores a derived covariance from
/// which rotation and scale cannot be recovered, so it has no load direction.
pub fn route_load(detected: Option<SplatFormats>) -> (r: Result<SplatFormats, SplatError>)
    ensures
        detected == Some(SplatFormats::SplatA) ==> r == Ok::<SplatFormats, SplatError>(
            SplatFormats::SplatA,
        ),
        detected == Some(SplatFormats::SplatB) ==> r == Ok::<SplatFormats, SplatError>(
            SplatFormats::SplatB,
        ),
        detected == Some(SplatFormats::SplatC) ==> r == Err::<SplatFormats, SplatError>(
            SplatError::UnsupportedDirection,
        ),
        detected is None ==> r == Err::<SplatFormats, SplatError>(SplatError::UnrecognizedFormat),
{
    match detected {
        Some(SplatFormats::SplatA) => Ok(SplatFormats::SplatA),
        Some(SplatFormats::SplatB) => Ok(SplatFormats::SplatB),
        Some(SplatFormats::SplatC) => Err(SplatError::UnsupportedDirection),
        None => Err(SplatError::UnrecognizedFormat),
    }
}

/// The dispatcher's routing decision for saving: the container format is
/// consumed read-only, so it has no save direction.
pub fn route_save(format: SplatFormats) -> (r: Result<SplatFormats, SplatError>)
    ensures
        format == SplatFormats::SplatA ==> r == Err::<SplatFormats, SplatError>(
            SplatError::UnsupportedDirection,
        ),
        format == SplatFormats::SplatB ==> r == Ok::<SplatFormats, SplatError>(
            SplatFormats::SplatB,
        ),
        format == SplatFormats::SplatC ==> r == Ok::<SplatFormats, SplatError>(
            SplatFormats::SplatC,
        ),
{
    match format {
        SplatFormats::SplatA => Err(SplatError::UnsupportedDirection),
        SplatFormats::SplatB => Ok(SplatFormats::SplatB),
        SplatFormats::SplatC => Ok(SplatFormats::SplatC),
    }
}

} // verus!
