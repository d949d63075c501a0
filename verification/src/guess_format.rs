//! The format registry and detector: given what a probe of a file shows (its
//! extension, whether it exists, its size, and for the container format its
//! parsed header), score each codec's applicability and pick the best match.

use vstd::prelude::*;

use crate::splat_a::{lemma_same_header_verdict, same_header_obs, spec_splat_a_verdict, PlyHeader, SplatA};
use crate::splat_b::SplatB;
use crate::splat_c::SplatC;
use crate::splat_format::FormatResult;
use crate::uber_splat::SplatError;

verus! {

/// The formats this library knows.
#[derive(Clone, Copy, Debug, PartialEq, Eq, Structural)]
pub enum SplatFormats {
    SplatA,
    SplatB,
    SplatC,
}

impl SplatFormats {
    /// A one-line account of the format.
    pub fn description(&self) -> (r: &'static str)
        ensures
            *self == SplatFormats::SplatA ==> r@ == (
            "The original `.ply` based splat format as defined by - <https://repo-sam.inria.fr/fungraph/3d-gaussian-splatting/> - with optional normals and spherical harmonics. XXX bytes pers splat."
            )@,
            *self == SplatFormats::SplatB ==> r@ == (
            "`.splat` format as used by antimatter15's splat viewer: <https://github.com/antimatter15/splat>. 32 bytes per splat."
            )@,
            *self == SplatFormats::SplatC ==> r@ == (
            "`.splatc` half float format as defined by Sean Cier's MetalSplatter <https://github.com/scier/MetalSplatter> project. 26 bytes per splat."
            )@,
    {
        match self {
            SplatFormats::SplatA => "The original `.ply` based splat format as defined by - <https://repo-sam.inria.fr/fungraph/3d-gaussian-splatting/> - with optional normals and spherical harmonics. XXX bytes pers splat.",
            SplatFormats::SplatB => "`.splat` format as used by antimatter15's splat viewer: <https://github.com/antimatter15/splat>. 32 bytes per splat.",
            SplatFormats::SplatC => "`.splatc` half float format as defined by Sean Cier's MetalSplatter <https://github.com/scier/MetalSplatter> project. 26 bytes per splat.",
        }
    }
}

/// What detection reads of a file: the extension, whether the file exists,
/// its size in bytes, and — when the extension is the container format's —
/// its parsed header.
#[derive(Clone, Debug, PartialEq)]
pub struct FileProbe {
    pub extension: String,
    pub exists: bool,
    pub size: u64,
    pub ply_header: Option<PlyHeader>,
}

/// The candidate picked from three ranked verdicts, in the fixed candidate
/// order: a verdict counts only when it is `Yes` or `Maybe` (rank at least
/// -1), a higher rank wins, and an earlier candidate wins ties.
pub open spec fn spec_pick(ra: int, rb: int, rc: int) -> Option<SplatFormats> {
    if ra >= -1 && ra >= rb && ra >= rc {
        Some(SplatFormats::SplatA)
    } else if rb >= -1 && rb >= rc {
        Some(SplatFormats::SplatB)
    } else if rc >= -1 {
        Some(SplatFormats::SplatC)
    } else {
        None
    }
}

/// The rank of the container codec's verdict on a probe.
pub open spec fn spec_rank_a(p: FileProbe) -> int {
    if p.extension@ != "ply"@ {
        -2
    } else {
        match p.ply_header {
            Some(h) => if spec_splat_a_verdict(h) == Some(true) {
                0x1_0000_0000
            } else {
                -2
            },
            None => -2,
        }
    }
}

/// Whether the container codec's schema check hits its fatal case on a probe.
pub open spec fn spec_a_fatal(p: FileProbe) -> bool {
    p.extension@ == "ply"@ && match p.ply_header {
        Some(h) => spec_splat_a_verdict(h) is None,
        None => false,
    }
}

/// The rank of the 32-byte codec's verdict on a probe.
pub open spec fn spec_rank_b(p: FileProbe) -> int {
    if p.extension@ != "splat"@ {
        -2
    } else if !p.exists {
        333
    } else if p.size % 32 == 0 {
        666
    } else {
        -2
    }
}

/// The rank of the 26-byte codec's verdict on a probe.
pub open spec fn spec_rank_c(p: FileProbe) -> int {
    if p.extension@ != "splatc"@ {
        -2
    } else if !p.exists {
        333
    } else if p.size % 26 == 0 {
        666
    } else {
        -2
    }
}

/// What detection returns on a probe: the fatal schema case aside, the best
/// candidate, or `None` when every codec said `No`.
pub open spec fn spec_guess_format(p: FileProbe) -> Result<Option<SplatFormats>, SplatError> {
    if spec_a_fatal(p) {
        Err(SplatError::MalformedLayout)
    } else {
        Ok(spec_pick(spec_rank_a(p), spec_rank_b(p), spec_rank_c(p)))
    }
}

/// Computes the rank a verdict holds in the detection order.
fn format_rank(r: &FormatResult) -> (k: i64)
    ensures
        k == r.rank(),
{
    match r {
        FormatResult::Yes => 0x1_0000_0000i64,
        FormatResult::Maybe(Some(c)) => *c as i64,
        FormatResult::Maybe(None) => -1,
        FormatResult::No(_) => -2,
    }
}

/// Picks the best of the three codecs' verdicts, in the fixed candidate
/// order.
pub fn pick_format(a: &FormatResult, b: &FormatResult, c: &FormatResult) -> (r: Option<
    SplatFormats,
>)
    ensures
        r == spec_pick(a.rank(), b.rank(), c.rank()),
{
    let ra = format_rank(a);
    let rb = format_rank(b);
    let rc = format_rank(c);
    if ra >= -1 && ra >= rb && ra >= rc {
        Some(SplatFormats::SplatA)
    } else if rb >= -1 && rb >= rc {
        Some(SplatFormats::SplatB)
    } else if rc >= -1 {
        Some(SplatFormats::SplatC)
    } else {
        None
    }
}

/// Detects the format of the probed file: each codec gives its verdict, and
/// the best candidate wins. The container codec's fatal schema case is an
/// error, not a mismatch; when every codec says `No`, detection yields
/// nothing.
pub fn guess_format(probe: &FileProbe) -> (r: Result<Option<SplatFormats>, SplatError>)
    requires
        probe.extension@ == "ply"@ ==> probe.ply_header is Some,
    ensures
        r == spec_guess_format(*probe),
{
    let a = match SplatA::is_format(probe.extension.as_str(), probe.ply_header.as_ref()) {
        Ok(f) => f,
        Err(e) => {
            return Err(e);
        },
    };
    let b = SplatB::is_format(probe.extension.as_str(), probe.exists, probe.size);
    let c = SplatC::is_format(probe.extension.as_str(), probe.exists, probe.size);
    assert(a.rank() == spec_rank_a(*probe));
    assert(b.rank() == spec_rank_b(*probe));
    assert(c.rank() == spec_rank_c(*probe));
    Ok(pick_format(&a, &b, &c))
}

/// A certain candidate always beats a tentative one: whenever some codec
/// answers `Yes`, detection picks the first codec that answered `Yes`, and
/// never one that answered `Maybe` or `No`.
pub proof fn lemma_yes_beats_maybe(a: FormatResult, b: FormatResult, c: FormatResult)
    ensures
        a is Yes ==> spec_pick(a.rank(), b.rank(), c.rank()) == Some(SplatFormats::SplatA),
        !(a is Yes) && b is Yes ==> spec_pick(a.rank(), b.rank(), c.rank()) == Some(
            SplatFormats::SplatB,
        ),
        !(a is Yes) && !(b is Yes) && c is Yes ==> spec_pick(a.rank(), b.rank(), c.rank()) == Some(
            SplatFormats::SplatC,
        ),
{
}

/// Whether two probes show the same file: same extension text, existence and
/// size, and headers that read the same.
pub open spec fn same_probe_obs(p1: FileProbe, p2: FileProbe) -> bool {
    &&& p1.extension@ == p2.extension@
    &&& p1.exists == p2.exists
    &&& p1.size == p2.size
    &&& match (p1.ply_header, p2.ply_header) {
        (Some(h1), Some(h2)) => same_header_obs(h1, h2),
        (None, None) => true,
        _ => false,
    }
}

/// Detection is deterministic: it reads nothing of a file but its bytes and
/// extension, so two probes that show the same file get the same verdict.
pub proof fn lemma_detection_deterministic(p1: FileProbe, p2: FileProbe)
    requires
        same_probe_obs(p1, p2),
    ensures
        spec_guess_format(p1) == spec_guess_format(p2),
{
    match (p1.ply_header, p2.ply_header) {
        (Some(h1), Some(h2)) => lemma_same_header_verdict(h1, h2),
        _ => {},
    }
}

/// Detection never picks a codec that said `No`: the picked candidate's
/// verdict is always `Yes` or `Maybe`.
pub proof fn lemma_pick_is_candidate(a: FormatResult, b: FormatResult, c: FormatResult)
    ensures
        spec_pick(a.rank(), b.rank(), c.rank()) matches Some(f) ==> match f {
            SplatFormats::SplatA => a.is_candidate(),
            SplatFormats::SplatB => b.is_candidate(),
            SplatFormats::SplatC => c.is_candidate(),
        },
        spec_pick(a.rank(), b.rank(), c.rank()) is None ==> !a.is_candidate() && !b.is_candidate()
            && !c.is_candidate(),
{
}

} // verus!
