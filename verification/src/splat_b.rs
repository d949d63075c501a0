//! The fixed 32-byte packed splat format: position and scale as binary32
//! triples, color as four bytes (RGBA), rotation as four quantized quaternion
//! bytes stored real-first.

use vstd::prelude::*;

use crate::bytes::{
    le32, lemma_le32_of_bytes, lemma_u32_bytes_of_le, push_u32_le, read_u32_le, u32_le_bytes,
};
use crate::splat_format::FormatResult;
use crate::text::str_eq;
use crate::uber_splat::{Color, Opacity, Quat, Rgb, Scale, UberSplat, Vec3};

verus! {

/// The record width of this format, in bytes.
pub const SPLAT_B_SIZE: usize = 32;

/// Four color bytes: a linear-encoded RGB triple and an alpha byte.
#[derive(Clone, Copy, Debug, PartialEq, Eq, Structural)]
pub struct Rgba {
    pub r: u8,
    pub g: u8,
    pub b: u8,
    pub a: u8,
}

/// Four quantized quaternion bytes, the scalar part first.
#[derive(Clone, Copy, Debug, PartialEq, Eq, Structural)]
pub struct QuatBytes {
    pub w: u8,
    pub x: u8,
    pub y: u8,
    pub z: u8,
}

/// One record of the 32-byte packed format.
#[derive(Clone, Copy, Debug, PartialEq, Eq, Structural)]
pub struct SplatB {
    pub position: Vec3,
    pub scale: Vec3,
    pub color: Rgba,
    pub rotation: QuatBytes,
}

/// The record stored in a 32-byte chunk: position at bytes 0..12, scale at
/// 12..24, color at 24..28, rotation at 28..32, scalars little-endian.
pub open spec fn spec_decode_b(b: Seq<u8>) -> SplatB
    recommends
        b.len() == 32,
{
    SplatB {
        position: Vec3 {
            x: le32(b[0], b[1], b[2], b[3]),
            y: le32(b[4], b[5], b[6], b[7]),
            z: le32(b[8], b[9], b[10], b[11]),
        },
        scale: Vec3 {
            x: le32(b[12], b[13], b[14], b[15]),
            y: le32(b[16], b[17], b[18], b[19]),
            z: le32(b[20], b[21], b[22], b[23]),
        },
        color: Rgba { r: b[24], g: b[25], b: b[26], a: b[27] },
        rotation: QuatBytes { w: b[28], x: b[29], y: b[30], z: b[31] },
    }
}

/// The 32 bytes that store a record.
pub open spec fn spec_encode_b(s: SplatB) -> Seq<u8> {
    u32_le_bytes(s.position.x) + u32_le_bytes(s.position.y) + u32_le_bytes(s.position.z)
        + u32_le_bytes(s.scale.x) + u32_le_bytes(s.scale.y) + u32_le_bytes(s.scale.z)
        + seq![s.color.r, s.color.g, s.color.b, s.color.a]
        + seq![s.rotation.w, s.rotation.x, s.rotation.y, s.rotation.z]
}

/// The records stored in a byte stream: one per full 32-byte chunk, a
/// trailing partial chunk dropped.
pub open spec fn spec_load_b(d: Seq<u8>) -> Seq<SplatB> {
    Seq::new((d.len() / 32) as nat, |i: int| spec_decode_b(d.subrange(32 * i, 32 * i + 32)))
}

/// The byte stream that stores a sequence of records.
pub open spec fn spec_save_b(ss: Seq<SplatB>) -> Seq<u8>
    decreases ss.len(),
{
    if ss.len() == 0 {
        Seq::empty()
    } else {
        spec_save_b(ss.drop_last()) + spec_encode_b(ss.last())
    }
}

/// A saved stream is exactly 32 bytes per record.
pub proof fn lemma_save_b_len(ss: Seq<SplatB>)
    ensures
        spec_save_b(ss).len() == 32 * ss.len(),
    decreases ss.len(),
{
    if ss.len() > 0 {
        lemma_save_b_len(ss.drop_last());
    }
}

/// Chunk `i` of a saved stream is the encoding of record `i`.
pub proof fn lemma_save_b_chunk(ss: Seq<SplatB>, i: int)
    requires
        0 <= i < ss.len(),
    ensures
        spec_save_b(ss).subrange(32 * i, 32 * i + 32) == spec_encode_b(ss[i]),
    decreases ss.len(),
{
    lemma_save_b_len(ss.drop_last());
    if i == ss.len() - 1 {
        assert(spec_save_b(ss).subrange(32 * i, 32 * i + 32) =~= spec_encode_b(ss.last()));
    } else {
        lemma_save_b_chunk(ss.drop_last(), i);
        assert(spec_save_b(ss).subrange(32 * i, 32 * i + 32) =~= spec_save_b(
            ss.drop_last(),
        ).subrange(32 * i, 32 * i + 32));
    }
}

/// Decoding an encoded record yields the record: the fixed-width layout
/// round-trips every field exactly.
pub proof fn lemma_b_round_trip(s: SplatB)
    ensures
        spec_decode_b(spec_encode_b(s)) == s,
{
    lemma_le32_of_bytes(s.position.x);
    lemma_le32_of_bytes(s.position.y);
    lemma_le32_of_bytes(s.position.z);
    lemma_le32_of_bytes(s.scale.x);
    lemma_le32_of_bytes(s.scale.y);
    lemma_le32_of_bytes(s.scale.z);
}

/// Encoding a decoded 32-byte chunk yields the chunk: no stored byte is lost.
pub proof fn lemma_b_bytes_round_trip(b: Seq<u8>)
    requires
        b.len() == 32,
    ensures
        spec_encode_b(spec_decode_b(b)) == b,
{
    lemma_u32_bytes_of_le(b[0], b[1], b[2], b[3]);
    lemma_u32_bytes_of_le(b[4], b[5], b[6], b[7]);
    lemma_u32_bytes_of_le(b[8], b[9], b[10], b[11]);
    lemma_u32_bytes_of_le(b[12], b[13], b[14], b[15]);
    lemma_u32_bytes_of_le(b[16], b[17], b[18], b[19]);
    lemma_u32_bytes_of_le(b[20], b[21], b[22], b[23]);
    assert(spec_encode_b(spec_decode_b(b)) =~= b);
}

impl SplatB {
    /// Builds a record from its parts.
    pub fn new(position: Vec3, scale: Vec3, color: Rgba, rotation: QuatBytes) -> (s: SplatB)
        ensures
            s == (SplatB { position, scale, color, rotation }),
    {
        SplatB { position, scale, color, rotation }
    }

    /// This codec's detection verdict for a file of the given extension,
    /// existence and size. A raw record stream proves nothing about itself,
    /// so an existing file whose size fits the 32-byte grid earns only a
    /// confident `Maybe`; a missing file with the right extension is a
    /// plausible write target.
    pub fn is_format(extension: &str, exists: bool, size: u64) -> (r: FormatResult)
        ensures
            extension@ != "splat"@ ==> (r matches FormatResult::No(m) && m@
                == "Extension is not splat"@),
            extension@ == "splat"@ && !exists ==> r == FormatResult::Maybe(Some(333u32)),
            extension@ == "splat"@ && exists && size % 32 == 0 ==> r == FormatResult::Maybe(
                Some(666u32),
            ),
            extension@ == "splat"@ && exists && size % 32 != 0 ==> (r matches FormatResult::No(m)
                && m@ == "Size is not a multiple of 32"@),
    {
        if !str_eq(extension, "splat") {
            return FormatResult::No(String::from_str("Extension is not splat"));
        }
        if !exists {
            return FormatResult::Maybe(Some(333));
        }
        if size % 32 == 0 {
            FormatResult::Maybe(Some(666))
        } else {
            FormatResult::No(String::from_str("Size is not a multiple of 32"))
        }
    }

    /// Decodes the record at byte offset `off`.
    pub fn decode_at(data: &[u8], off: usize) -> (s: SplatB)
        requires
            off + 32 <= data@.len(),
        ensures
            s == spec_decode_b(data@.subrange(off as int, off + 32)),
    {
        let n = data.len();
        assert(off + 32 <= n);
        let s = SplatB {
            position: Vec3 {
                x: read_u32_le(data, off),
                y: read_u32_le(data, off + 4),
                z: read_u32_le(data, off + 8),
            },
            scale: Vec3 {
                x: read_u32_le(data, off + 12),
                y: read_u32_le(data, off + 16),
                z: read_u32_le(data, off + 20),
            },
            color: Rgba {
                r: data[off + 24],
                g: data[off + 25],
                b: data[off + 26],
                a: data[off + 27],
            },
            rotation: QuatBytes {
                w: data[off + 28],
                x: data[off + 29],
                y: data[off + 30],
                z: data[off + 31],
            },
        };
        proof {
            let c = data@.subrange(off as int, off + 32);
            assert forall|j: int| 0 <= j < 32 implies c[j] == data@[off + j] by {}
            assert(s == spec_decode_b(c));
        }
        s
    }

    /// Decodes one full record chunk.
    pub fn decode(chunk: &[u8]) -> (s: SplatB)
        requires
            chunk@.len() == 32,
        ensures
            s == spec_decode_b(chunk@),
    {
        let s = Self::decode_at(chunk, 0);
        proof {
            assert(chunk@.subrange(0, 32) =~= chunk@);
        }
        s
    }

    /// Encodes the record into its 32 bytes.
    pub fn encode(&self) -> (r: Vec<u8>)
        ensures
            r@ == spec_encode_b(*self),
            r@.len() == 32,
    {
        let mut out: Vec<u8> = Vec::new();
        push_u32_le(&mut out, self.position.x);
        push_u32_le(&mut out, self.position.y);
        push_u32_le(&mut out, self.position.z);
        push_u32_le(&mut out, self.scale.x);
        push_u32_le(&mut out, self.scale.y);
        push_u32_le(&mut out, self.scale.z);
        out.push(self.color.r);
        out.push(self.color.g);
        out.push(self.color.b);
        out.push(self.color.a);
        out.push(self.rotation.w);
        out.push(self.rotation.x);
        out.push(self.rotation.y);
        out.push(self.rotation.z);
        assert(out@ =~= spec_encode_b(*self));
        out
    }
}

/// Loads every full 32-byte record of a byte stream, dropping a trailing
/// partial chunk.
pub fn load_b(data: &[u8]) -> (r: Vec<SplatB>)
    ensures
        r@ == spec_load_b(data@),
        r@.len() == data@.len() as int / 32,
{
    let n = data.len() / 32;
    let mut out: Vec<SplatB> = Vec::new();
    for k in 0..n
        invariant
            n == data@.len() as int / 32,
            data@.len() <= usize::MAX,
            out@.len() == k,
            forall|j: int|
                0 <= j < k ==> out@[j] == spec_decode_b(data@.subrange(32 * j, 32 * j + 32)),
    {
        assert(32 * (k + 1) <= 32 * n <= data@.len());
        out.push(SplatB::decode_at(data, 32 * k));
    }
    assert(out@ =~= spec_load_b(data@));
    out
}

/// Saves records as consecutive 32-byte chunks. The output length is exactly
/// 32 bytes per record, so it is always a multiple of 32.
pub fn save_b(splats: &[SplatB]) -> (r: Vec<u8>)
    ensures
        r@ == spec_save_b(splats@),
        r@.len() == 32 * splats@.len(),
        r@.len() % 32 == 0,
{
    let mut out: Vec<u8> = Vec::new();
    let n = splats.len();
    for k in 0..n
        invariant
            n == splats@.len(),
            out@ == spec_save_b(splats@.take(k as int)),
            out@.len() == 32 * k,
    {
        let mut chunk = splats[k].encode();
        out.append(&mut chunk);
        proof {
            let t = splats@.take(k + 1);
            assert(t.drop_last() =~= splats@.take(k as int));
            assert(t.last() == splats@[k as int]);
            lemma_save_b_len(t);
        }
    }
    proof {
        assert(splats@.take(splats@.len() as int) =~= splats@);
    }
    out
}

/// What `reduce` leaves of a stream: its first `limit` records (all of them
/// when fewer), re-saved.
pub open spec fn spec_reduce_b(d: Seq<u8>, limit: int) -> Seq<u8> {
    spec_save_b(spec_load_b(d).take(if limit <= d.len() as int / 32 {
        limit
    } else {
        d.len() as int / 32
    }))
}

/// Loads a stream, keeps at most `limit` records, and saves them again.
pub fn reduce_b(data: &[u8], limit: usize) -> (r: Vec<u8>)
    ensures
        r@ == spec_reduce_b(data@, limit as int),
{
    let mut splats = load_b(data);
    splats.truncate(limit);
    proof {
        if limit <= data@.len() as int / 32 {
            assert(splats@ =~= spec_load_b(data@).take(limit as int));
        } else {
            assert(splats@ =~= spec_load_b(data@).take(data@.len() as int / 32));
        }
    }
    save_b(splats.as_slice())
}

/// Loading a saved stream yields the saved records.
pub proof fn lemma_load_of_save_b(ss: Seq<SplatB>)
    ensures
        spec_load_b(spec_save_b(ss)) == ss,
{
    lemma_save_b_len(ss);
    let d = spec_save_b(ss);
    assert forall|i: int| 0 <= i < ss.len() implies spec_load_b(d)[i] == ss[i] by {
        lemma_save_b_chunk(ss, i);
        lemma_b_round_trip(ss[i]);
    }
    assert(spec_load_b(d) =~= ss);
}

/// Reducing is idempotent: reducing a reduced stream with the same limit
/// changes nothing, whatever the limit.
pub proof fn lemma_reduce_b_idempotent(d: Seq<u8>, limit: int)
    requires
        0 <= limit,
    ensures
        spec_reduce_b(spec_reduce_b(d, limit), limit) == spec_reduce_b(d, limit),
{
    let n = d.len() as int / 32;
    let m = if limit <= n {
        limit
    } else {
        n
    };
    let ss = spec_load_b(d).take(m);
    lemma_save_b_len(ss);
    let r1 = spec_save_b(ss);
    lemma_load_of_save_b(ss);
    assert(r1.len() as int / 32 == ss.len());
    assert(spec_load_b(r1).take(ss.len() as int) =~= ss);
}

impl UberSplat {
    /// The canonical record a 32-byte-format record loads to: the position
    /// and scale bits verbatim (scale as world units), the color as a linear
    /// byte triple (`linear_rgb`, the de-gamma-corrected RGB bytes computed
    /// by the caller), the alpha byte as linear byte opacity, and the
    /// dequantized quaternion (`rotation`, computed by the caller from the
    /// four rotation bytes, real part first), without normals.
    pub fn from_splat_b(s: &SplatB, linear_rgb: Rgb, rotation: Quat) -> (u: UberSplat)
        ensures
            u.position == s.position,
            u.normal is None,
            u.color == Color::LinearU8(linear_rgb),
            u.opacity == Opacity::LinearU8(s.color.a),
            u.scale == Scale::LinearFloat(s.scale),
            u.rotation == rotation,
    {
        UberSplat {
            position: s.position,
            normal: None,
            color: Color::LinearU8(linear_rgb),
            opacity: Opacity::LinearU8(s.color.a),
            scale: Scale::LinearFloat(s.scale),
            rotation,
        }
    }
}

} // verus!
