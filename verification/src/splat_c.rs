//! The fixed 26-byte packed half-precision splat format: position and a
//! precomputed covariance as binary16 triples, color as a binary16 RGBA
//! quadruple. Storing a covariance instead of rotation and scale makes this a
//! derived, playback-oriented representation.

use vstd::prelude::*;

use crate::bytes::{
    le16, lemma_le16_of_bytes, lemma_u16_bytes_of_le, push_u16_le, read_u16_le, u16_le_bytes,
};
use crate::splat_format::FormatResult;
use crate::text::str_eq;

verus! {

/// The record width of this format, in bytes.
pub const SPLAT_C_SIZE: usize = 26;

/// Three binary16 bit patterns (x, y, z).
#[derive(Clone, Copy, Debug, PartialEq, Eq, Structural)]
pub struct HVec3 {
    pub x: u16,
    pub y: u16,
    pub z: u16,
}

/// Four binary16 bit patterns (x, y, z, w).
#[derive(Clone, Copy, Debug, PartialEq, Eq, Structural)]
pub struct HVec4 {
    pub x: u16,
    pub y: u16,
    pub z: u16,
    pub w: u16,
}

/// One record of the 26-byte packed half-precision format. `cov_a` holds the
/// first row of the upper triangle of the covariance (xx, xy, xz), `cov_b`
/// the rest (yy, yz, zz).
#[derive(Clone, Copy, Debug, PartialEq, Eq, Structural)]
pub struct SplatC {
    pub position: HVec3,
    pub color: HVec4,
    pub cov_a: HVec3,
    pub cov_b: HVec3,
}

/// The record stored in a 26-byte chunk: position at bytes 0..6, color at
/// 6..14, cov_a at 14..20, cov_b at 20..26, scalars little-endian.
pub open spec fn spec_decode_c(b: Seq<u8>) -> SplatC
    recommends
        b.len() == 26,
{
    SplatC {
        position: HVec3 { x: le16(b[0], b[1]), y: le16(b[2], b[3]), z: le16(b[4], b[5]) },
        color: HVec4 {
            x: le16(b[6], b[7]),
            y: le16(b[8], b[9]),
            z: le16(b[10], b[11]),
            w: le16(b[12], b[13]),
        },
        cov_a: HVec3 { x: le16(b[14], b[15]), y: le16(b[16], b[17]), z: le16(b[18], b[19]) },
        cov_b: HVec3 { x: le16(b[20], b[21]), y: le16(b[22], b[23]), z: le16(b[24], b[25]) },
    }
}

/// The 26 bytes that store a record.
pub open spec fn spec_encode_c(s: SplatC) -> Seq<u8> {
    u16_le_bytes(s.position.x) + u16_le_bytes(s.position.y) + u16_le_bytes(s.position.z)
        + u16_le_bytes(s.color.x) + u16_le_bytes(s.color.y) + u16_le_bytes(s.color.z)
        + u16_le_bytes(s.color.w) + u16_le_bytes(s.cov_a.x) + u16_le_bytes(s.cov_a.y)
        + u16_le_bytes(s.cov_a.z) + u16_le_bytes(s.cov_b.x) + u16_le_bytes(s.cov_b.y)
        + u16_le_bytes(s.cov_b.z)
}

/// The records stored in a byte stream: one per full 26-byte chunk, a
/// trailing partial chunk dropped.
pub open spec fn spec_load_c(d: Seq<u8>) -> Seq<SplatC> {
    Seq::new((d.len() / 26) as nat, |i: int| spec_decode_c(d.subrange(26 * i, 26 * i + 26)))
}

/// The byte stream that stores a sequence of records.
pub open spec fn spec_save_c(ss: Seq<SplatC>) -> Seq<u8>
    decreases ss.len(),
{
    if ss.len() == 0 {
        Seq::empty()
    } else {
        spec_save_c(ss.drop_last()) + spec_encode_c(ss.last())
    }
}

/// A saved stream is exactly 26 bytes per record.
pub proof fn lemma_save_c_len(ss: Seq<SplatC>)
    ensures
        spec_save_c(ss).len() == 26 * ss.len(),
    decreases ss.len(),
{
    if ss.len() > 0 {
        lemma_save_c_len(ss.drop_last());
    }
}

/// Chunk `i` of a saved stream is the encoding of record `i`.
pub proof fn lemma_save_c_chunk(ss: Seq<SplatC>, i: int)
    requires
        0 <= i < ss.len(),
    ensures
        spec_save_c(ss).subrange(26 * i, 26 * i + 26) == spec_encode_c(ss[i]),
    decreases ss.len(),
{
    lemma_save_c_len(ss.drop_last());
    if i == ss.len() - 1 {
        assert(spec_save_c(ss).subrange(26 * i, 26 * i + 26) =~= spec_encode_c(ss.last()));
    } else {
        lemma_save_c_chunk(ss.drop_last(), i);
        assert(spec_save_c(ss).subrange(26 * i, 26 * i + 26) =~= spec_save_c(
            ss.drop_last(),
        ).subrange(26 * i, 26 * i + 26));
    }
}

/// Decoding an encoded record yields the record: the fixed-width layout
/// round-trips every field exactly.
pub proof fn lemma_c_round_trip(s: SplatC)
    ensures
        spec_decode_c(spec_encode_c(s)) == s,
{
    lemma_le16_of_bytes(s.position.x);
    lemma_le16_of_bytes(s.position.y);
    lemma_le16_of_bytes(s.position.z);
    lemma_le16_of_bytes(s.color.x);
    lemma_le16_of_bytes(s.color.y);
    lemma_le16_of_bytes(s.color.z);
    lemma_le16_of_bytes(s.color.w);
    lemma_le16_of_bytes(s.cov_a.x);
    lemma_le16_of_bytes(s.cov_a.y);
    lemma_le16_of_bytes(s.cov_a.z);
    lemma_le16_of_bytes(s.cov_b.x);
    lemma_le16_of_bytes(s.cov_b.y);
    lemma_le16_of_bytes(s.cov_b.z);
}

/// Encoding a decoded 26-byte chunk yields the chunk: no stored byte is lost.
pub proof fn lemma_c_bytes_round_trip(b: Seq<u8>)
    requires
        b.len() == 26,
    ensures
        spec_encode_c(spec_decode_c(b)) == b,
{
    lemma_u16_bytes_of_le(b[0], b[1]);
    lemma_u16_bytes_of_le(b[2], b[3]);
    lemma_u16_bytes_of_le(b[4], b[5]);
    lemma_u16_bytes_of_le(b[6], b[7]);
    lemma_u16_bytes_of_le(b[8], b[9]);
    lemma_u16_bytes_of_le(b[10], b[11]);
    lemma_u16_bytes_of_le(b[12], b[13]);
    lemma_u16_bytes_of_le(b[14], b[15]);
    lemma_u16_bytes_of_le(b[16], b[17]);
    lemma_u16_bytes_of_le(b[18], b[19]);
    lemma_u16_bytes_of_le(b[20], b[21]);
    lemma_u16_bytes_of_le(b[22], b[23]);
    lemma_u16_bytes_of_le(b[24], b[25]);
    assert(spec_encode_c(spec_decode_c(b)) =~= b);
}

/// The storage shape of one declared record property.
#[derive(Clone, Copy, Debug, PartialEq, Eq, Structural)]
pub enum Storage {
    /// Three binary16 scalars.
    Half3,
    /// Four binary16 scalars.
    Half4,
}

impl Storage {
    /// How many bytes the shape takes.
    pub open spec fn spec_size(self) -> int {
        match self {
            Storage::Half3 => 6,
            Storage::Half4 => 8,
        }
    }

    /// How many bytes the shape takes.
    pub fn size(&self) -> (r: usize)
        ensures
            r == self.spec_size(),
    {
        match self {
            Storage::Half3 => 6,
            Storage::Half4 => 8,
        }
    }
}

/// One declared property of a record layout.
#[derive(Clone, Debug, PartialEq)]
pub struct Property {
    pub name: String,
    pub optional: bool,
    pub storage: Storage,
}

impl Property {
    /// Builds a property declaration.
    pub fn new(name: String, optional: bool, storage: Storage) -> (p: Property)
        ensures
            p == (Property { name, optional, storage }),
    {
        Property { name, optional, storage }
    }
}

/// A record layout: the declared properties in storage order.
#[derive(Clone, Debug, PartialEq)]
pub struct SplatDefinition {
    pub properties: Vec<Property>,
}

/// The byte size of a record under a layout: the sum of its shapes' sizes.
pub open spec fn spec_definition_size(props: Seq<Property>) -> int
    decreases props.len(),
{
    if props.len() == 0 {
        0
    } else {
        spec_definition_size(props.drop_last()) + props.last().storage.spec_size()
    }
}

/// Every prefix of a layout is at most as large as the whole layout.
proof fn lemma_definition_size_prefix(props: Seq<Property>, j: int)
    requires
        0 <= j <= props.len(),
    ensures
        spec_definition_size(props.take(j)) <= spec_definition_size(props),
    decreases props.len() - j,
{
    if j == props.len() {
        assert(props.take(j) =~= props);
    } else {
        lemma_definition_size_prefix(props, j + 1);
        assert(props.take(j + 1).drop_last() =~= props.take(j));
        assert(props.take(j + 1).last() == props[j]);
    }
}

impl SplatDefinition {
    /// Builds a layout from its properties.
    pub fn new(properties: Vec<Property>) -> (d: SplatDefinition)
        ensures
            d.properties == properties,
    {
        SplatDefinition { properties }
    }

    /// The byte size of one record under this layout.
    pub fn size(&self) -> (r: usize)
        requires
            spec_definition_size(self.properties@) <= usize::MAX,
        ensures
            r == spec_definition_size(self.properties@),
    {
        let mut acc: usize = 0;
        let n = self.properties.len();
        for j in 0..n
            invariant
                n == self.properties@.len(),
                spec_definition_size(self.properties@) <= usize::MAX,
                acc == spec_definition_size(self.properties@.take(j as int)),
        {
            proof {
                lemma_definition_size_prefix(self.properties@, j + 1);
                assert(self.properties@.take(j + 1).drop_last() =~= self.properties@.take(
                    j as int,
                ));
                assert(self.properties@.take(j + 1).last() == self.properties@[j as int]);
            }
            acc = acc + self.properties[j].storage.size();
        }
        proof {
            assert(self.properties@.take(n as int) =~= self.properties@);
        }
        acc
    }
}

impl SplatC {
    /// Builds a record from its parts.
    pub fn new(position: HVec3, color: HVec4, cov_a: HVec3, cov_b: HVec3) -> (s: SplatC)
        ensures
            s == (SplatC { position, color, cov_a, cov_b }),
    {
        SplatC { position, color, cov_a, cov_b }
    }

    /// The declared layout of this format's records: position, color and the
    /// two covariance triples, 26 bytes in all.
    pub fn definition() -> (d: SplatDefinition)
        ensures
            d.properties@.len() == 4,
            d.properties@[0].name@ == "position"@ && d.properties@[0].storage == Storage::Half3,
            d.properties@[1].name@ == "color"@ && d.properties@[1].storage == Storage::Half4,
            d.properties@[2].name@ == "cov_a"@ && d.properties@[2].storage == Storage::Half3,
            d.properties@[3].name@ == "cov_b"@ && d.properties@[3].storage == Storage::Half3,
            forall|j: int| 0 <= j < 4 ==> !(#[trigger] d.properties@[j].optional),
            spec_definition_size(d.properties@) == 26,
    {
        let mut properties: Vec<Property> = Vec::new();
        properties.push(Property::new(String::from_str("position"), false, Storage::Half3));
        properties.push(Property::new(String::from_str("color"), false, Storage::Half4));
        properties.push(Property::new(String::from_str("cov_a"), false, Storage::Half3));
        properties.push(Property::new(String::from_str("cov_b"), false, Storage::Half3));
        let d = SplatDefinition::new(properties);
        proof {
            let p = d.properties@;
            assert(p.drop_last() =~= p.take(3));
            assert(p.take(3).drop_last() =~= p.take(2));
            assert(p.take(2).drop_last() =~= p.take(1));
            assert(p.take(1).drop_last() =~= p.take(0));
            assert(p.take(0) =~= Seq::<Property>::empty());
            assert(spec_definition_size(p.take(0)) == 0);
            assert(spec_definition_size(p.take(1)) == 6);
            assert(spec_definition_size(p.take(2)) == 14);
            assert(spec_definition_size(p.take(3)) == 20);
            assert(spec_definition_size(p) == 26);
        }
        d
    }

    /// This codec's detection verdict, the same extension-and-size heuristic
    /// its 32-byte sibling uses, with 26 as the modulus.
    pub fn is_format(extension: &str, exists: bool, size: u64) -> (r: FormatResult)
        ensures
            extension@ != "splatc"@ ==> (r matches FormatResult::No(m) && m@
                == "Extension is not splatc"@),
            extension@ == "splatc"@ && !exists ==> r == FormatResult::Maybe(Some(333u32)),
            extension@ == "splatc"@ && exists && size % 26 == 0 ==> r == FormatResult::Maybe(
                Some(666u32),
            ),
            extension@ == "splatc"@ && exists && size % 26 != 0 ==> (r matches FormatResult::No(m)
                && m@ == "Size is not a multiple of 26"@),
    {
        if !str_eq(extension, "splatc") {
            return FormatResult::No(String::from_str("Extension is not splatc"));
        }
        if !exists {
            return FormatResult::Maybe(Some(333));
        }
        if size % 26 == 0 {
            FormatResult::Maybe(Some(666))
        } else {
            FormatResult::No(String::from_str("Size is not a multiple of 26"))
        }
    }

    /// Decodes the record at byte offset `off`.
    pub fn decode_at(data: &[u8], off: usize) -> (s: SplatC)
        requires
            off + 26 <= data@.len(),
        ensures
            s == spec_decode_c(data@.subrange(off as int, off + 26)),
    {
        let n = data.len();
        assert(off + 26 <= n);
        let s = SplatC {
            position: HVec3 {
                x: read_u16_le(data, off),
                y: read_u16_le(data, off + 2),
                z: read_u16_le(data, off + 4),
            },
            color: HVec4 {
                x: read_u16_le(data, off + 6),
                y: read_u16_le(data, off + 8),
                z: read_u16_le(data, off + 10),
                w: read_u16_le(data, off + 12),
            },
            cov_a: HVec3 {
                x: read_u16_le(data, off + 14),
                y: read_u16_le(data, off + 16),
                z: read_u16_le(data, off + 18),
            },
            cov_b: HVec3 {
                x: read_u16_le(data, off + 20),
                y: read_u16_le(data, off + 22),
                z: read_u16_le(data, off + 24),
            },
        };
        proof {
            let c = data@.subrange(off as int, off + 26);
            assert forall|j: int| 0 <= j < 26 implies c[j] == data@[off + j] by {}
            assert(s == spec_decode_c(c));
        }
        s
    }

    /// Decodes one full record chunk.
    pub fn decode(chunk: &[u8]) -> (s: SplatC)
        requires
            chunk@.len() == 26,
        ensures
            s == spec_decode_c(chunk@),
    {
        let s = Self::decode_at(chunk, 0);
        proof {
            assert(chunk@.subrange(0, 26) =~= chunk@);
        }
        s
    }

    /// Encodes the record into its 26 bytes.
    pub fn encode(&self) -> (r: Vec<u8>)
        ensures
            r@ == spec_encode_c(*self),
            r@.len() == 26,
    {
        let mut out: Vec<u8> = Vec::new();
        push_u16_le(&mut out, self.position.x);
        push_u16_le(&mut out, self.position.y);
        push_u16_le(&mut out, self.position.z);
        push_u16_le(&mut out, self.color.x);
        push_u16_le(&mut out, self.color.y);
        push_u16_le(&mut out, self.color.z);
        push_u16_le(&mut out, self.color.w);
        push_u16_le(&mut out, self.cov_a.x);
        push_u16_le(&mut out, self.cov_a.y);
        push_u16_le(&mut out, self.cov_a.z);
        push_u16_le(&mut out, self.cov_b.x);
        push_u16_le(&mut out, self.cov_b.y);
        push_u16_le(&mut out, self.cov_b.z);
        assert(out@ =~= spec_encode_c(*self));
        out
    }
}

/// Loads every full 26-byte record of a byte stream, dropping a trailing
/// partial chunk.
pub fn load_c(data: &[u8]) -> (r: Vec<SplatC>)
    ensures
        r@ == spec_load_c(data@),
        r@.len() == data@.len() as int / 26,
{
    let n = data.len() / 26;
    let mut out: Vec<SplatC> = Vec::new();
    for k in 0..n
        invariant
            n == data@.len() as int / 26,
            data@.len() <= usize::MAX,
            out@.len() == k,
            forall|j: int|
                0 <= j < k ==> out@[j] == spec_decode_c(data@.subrange(26 * j, 26 * j + 26)),
    {
        assert(26 * (k + 1) <= 26 * n <= data@.len());
        out.push(SplatC::decode_at(data, 26 * k));
    }
    assert(out@ =~= spec_load_c(data@));
    out
}

/// Saves records as consecutive 26-byte chunks. The output length is exactly
/// 26 bytes per record, so it is always a multiple of 26.
pub fn save_c(splats: &[SplatC]) -> (r: Vec<u8>)
    ensures
        r@ == spec_save_c(splats@),
        r@.len() == 26 * splats@.len(),
        r@.len() % 26 == 0,
{
    let mut out: Vec<u8> = Vec::new();
    let n = splats.len();
    for k in 0..n
        invariant
            n == splats@.len(),
            out@ == spec_save_c(splats@.take(k as int)),
            out@.len() == 26 * k,
    {
        let mut chunk = splats[k].encode();
        out.append(&mut chunk);
        proof {
            let t = splats@.take(k + 1);
            assert(t.drop_last() =~= splats@.take(k as int));
            assert(t.last() == splats@[k as int]);
            lemma_save_c_len(t);
        }
    }
    proof {
        assert(splats@.take(splats@.len() as int) =~= splats@);
    }
    out
}

/// What `reduce` leaves of a stream: its first `limit` records (all of them
/// when fewer), re-saved.
pub open spec fn spec_reduce_c(d: Seq<u8>, limit: int) -> Seq<u8> {
    spec_save_c(spec_load_c(d).take(if limit <= d.len() as int / 26 {
        limit
    } else {
        d.len() as int / 26
    }))
}

/// Loads a stream, keeps at most `limit` records, and saves them again.
pub fn reduce_c(data: &[u8], limit: usize) -> (r: Vec<u8>)
    ensures
        r@ == spec_reduce_c(data@, limit as int),
{
    let mut splats = load_c(data);
    splats.truncate(limit);
    proof {
        if limit <= data@.len() as int / 26 {
            assert(splats@ =~= spec_load_c(data@).take(limit as int));
        } else {
            assert(splats@ =~= spec_load_c(data@).take(data@.len() as int / 26));
        }
    }
    save_c(splats.as_slice())
}

/// Loading a saved stream yields the saved records.
pub proof fn lemma_load_of_save_c(ss: Seq<SplatC>)
    ensures
        spec_load_c(spec_save_c(ss)) == ss,
{
    lemma_save_c_len(ss);
    let d = spec_save_c(ss);
    assert forall|i: int| 0 <= i < ss.len() implies spec_load_c(d)[i] == ss[i] by {
        lemma_save_c_chunk(ss, i);
        lemma_c_round_trip(ss[i]);
    }
    assert(spec_load_c(d) =~= ss);
}

/// Reducing is idempotent: reducing a reduced stream with the same limit
/// changes nothing, whatever the limit.
pub proof fn lemma_reduce_c_idempotent(d: Seq<u8>, limit: int)
    requires
        0 <= limit,
    ensures
        spec_reduce_c(spec_reduce_c(d, limit), limit) == spec_reduce_c(d, limit),
{
    let n = d.len() as int / 26;
    let m = if limit <= n {
        limit
    } else {
        n
    };
    let ss = spec_load_c(d).take(m);
    lemma_save_c_len(ss);
    let r1 = spec_save_c(ss);
    lemma_load_of_save_c(ss);
    assert(r1.len() as int / 26 == ss.len());
    assert(spec_load_c(r1).take(ss.len() as int) =~= ss);
}

} // verus!
