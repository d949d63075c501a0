//! The tag-based container format: a schema check over a parsed header and
//! the per-record field routing used while streaming the payload in.
//!
//! The header model holds what the schema check reads of a parsed header:
//! each element's name and, for each of its properties, the name and whether
//! its declared type is the scalar binary32 type. The unverified shell parses
//! the container and hands the model over.

use vstd::prelude::*;

use crate::splat_format::FormatResult;
use crate::text::str_eq;
use crate::uber_splat::{Color, Opacity, Quat, Scale, SplatError, UberSplat, Vec3, Vec4};

verus! {

/// One property declaration of a header element.
#[derive(Clone, Debug, PartialEq)]
pub struct PlyProperty {
    pub name: String,
    /// Whether the declared type is the scalar binary32 type.
    pub is_float_scalar: bool,
}

/// One element collection declaration of a header.
#[derive(Clone, Debug, PartialEq)]
pub struct PlyElement {
    pub name: String,
    pub properties: Vec<PlyProperty>,
}

/// What the schema check reads of a parsed container header.
#[derive(Clone, Debug, PartialEq)]
pub struct PlyHeader {
    pub elements: Vec<PlyElement>,
}

/// Whether the element declares a property of this name with the scalar
/// binary32 type.
pub open spec fn spec_has_prop_float(e: PlyElement, name: Seq<char>) -> bool {
    exists|j: int|
        0 <= j < e.properties@.len() && (#[trigger] e.properties@[j]).name@ == name
            && e.properties@[j].is_float_scalar
}

/// Whether `c` is a decimal digit.
pub open spec fn spec_is_digit(c: char) -> bool {
    48 <= c as u32 <= 57
}

/// The value of a sequence of decimal digits, most significant first.
pub open spec fn spec_digits_val(s: Seq<char>) -> int
    decreases s.len(),
{
    if s.len() == 0 {
        0
    } else {
        10 * spec_digits_val(s.drop_last()) + (s.last() as u32 - 48)
    }
}

/// Whether every character of `s` is a decimal digit.
pub open spec fn spec_all_digits(s: Seq<char>) -> bool {
    forall|i: int| 0 <= i < s.len() ==> spec_is_digit(#[trigger] s[i])
}

/// Whether `s` is a higher-order coefficient name: the fixed prefix followed
/// by at least one decimal digit.
pub open spec fn spec_is_f_rest_name(s: Seq<char>) -> bool {
    s.len() > 7 && s.subrange(0, 7) == "f_rest_"@ && spec_all_digits(s.skip(7))
}

/// The index a higher-order coefficient name denotes.
pub open spec fn spec_f_rest_value(s: Seq<char>) -> int {
    spec_digits_val(s.skip(7))
}

/// The coefficient index of a name, accepting leading zeros (the payload
/// router parses indices numerically): the index when the name is a
/// coefficient name denoting an index within the 45-entry block.
pub open spec fn spec_f_rest_index(s: Seq<char>) -> Option<usize> {
    if spec_is_f_rest_name(s) && spec_f_rest_value(s) < 45 {
        Some(spec_f_rest_value(s) as usize)
    } else {
        None
    }
}

/// The coefficient index of a name in canonical decimal form (no leading
/// zero), as the schema declares the block's names.
pub open spec fn spec_f_rest_canonical(s: Seq<char>) -> Option<usize> {
    if spec_is_f_rest_name(s) && (s[7] != '0' || s.len() == 8) && spec_f_rest_value(s) < 45 {
        Some(spec_f_rest_value(s) as usize)
    } else {
        None
    }
}

/// A digit sequence never denotes a negative value.
proof fn lemma_digits_val_nonneg(s: Seq<char>)
    requires
        spec_all_digits(s),
    ensures
        spec_digits_val(s) >= 0,
    decreases s.len(),
{
    if s.len() > 0 {
        assert(spec_all_digits(s.drop_last())) by {
            assert(forall|i: int| 0 <= i < s.len() - 1 ==> s.drop_last()[i] == s[i]);
        }
        lemma_digits_val_nonneg(s.drop_last());
    }
}

/// Whether the element declares a higher-order coefficient property of index
/// `i` (canonical name, scalar binary32 type).
pub open spec fn spec_has_f_rest(e: PlyElement, i: int) -> bool {
    exists|j: int|
        0 <= j < e.properties@.len() && spec_f_rest_canonical(
            (#[trigger] e.properties@[j]).name@,
        ) == Some(i as usize) && e.properties@[j].is_float_scalar && 0 <= i < 45
}

/// Looks a property up by name and checks its type, as the schema check asks.
pub fn has_prop_float(e: &PlyElement, name: &str) -> (r: bool)
    ensures
        r == spec_has_prop_float(*e, name@),
{
    let n = e.properties.len();
    for j in 0..n
        invariant
            n == e.properties@.len(),
            forall|k: int|
                0 <= k < j ==> !((#[trigger] e.properties@[k]).name@ == name@
                    && e.properties@[k].is_float_scalar),
    {
        if str_eq(e.properties[j].name.as_str(), name) && e.properties[j].is_float_scalar {
            return true;
        }
    }
    false
}

/// Parses a property name as a higher-order coefficient name, accepting
/// leading zeros; yields the index when it lies inside the 45-entry block.
pub fn f_rest_index(name: &str) -> (r: Option<usize>)
    ensures
        r == spec_f_rest_index(name@),
{
    let len = name.unicode_len();
    if len < 8 {
        return None;
    }
    let prefix = name.substring_char(0, 7);
    if !str_eq(prefix, "f_rest_") {
        return None;
    }
    let mut acc: u32 = 0;
    let mut i: usize = 7;
    while i < len
        invariant
            7 <= i <= len,
            len == name@.len(),
            spec_all_digits(name@.subrange(7, i as int)),
            acc <= 45,
            acc < 45 ==> acc == spec_digits_val(name@.subrange(7, i as int)),
            acc == 45 ==> spec_digits_val(name@.subrange(7, i as int)) >= 45,
        decreases len - i,
    {
        let c = name.get_char(i);
        let d = c as u32;
        if d < 48 || d > 57 {
            proof {
                assert(name@.skip(7)[i - 7] == name@[i as int]);
                assert(!spec_all_digits(name@.skip(7)));
            }
            return None;
        }
        proof {
            let p = name@.subrange(7, i as int);
            let q = name@.subrange(7, i + 1);
            assert(q.drop_last() =~= p);
            assert(q.last() == name@[i as int]);
            assert(spec_digits_val(q) == 10 * spec_digits_val(p) + (c as u32 - 48));
            lemma_digits_val_nonneg(p);
        }
        let step: u32 = acc * 10 + (d - 48);
        if step >= 45 || acc == 45 {
            acc = 45;
        } else {
            acc = step;
        }
        proof {
            let p = name@.subrange(7, i as int);
            let q = name@.subrange(7, i + 1);
            assert forall|k: int| 0 <= k < q.len() implies spec_is_digit(q[k]) by {
                if k < i - 7 {
                    assert(q[k] == p[k]);
                } else {
                    assert(q[k] == name@[i as int]);
                }
            }
        }
        i = i + 1;
    }
    proof {
        assert(name@.subrange(7, len as int) =~= name@.skip(7));
        assert(name@.subrange(0, 7) == prefix@);
    }
    if acc < 45 {
        Some(acc as usize)
    } else {
        None
    }
}

/// Parses a property name as a canonical (no leading zero) higher-order
/// coefficient name; yields the index when it lies inside the 45-entry block.
pub fn f_rest_canonical_index(name: &str) -> (r: Option<usize>)
    ensures
        r == spec_f_rest_canonical(name@),
{
    let r = f_rest_index(name);
    if r.is_some() {
        let len = name.unicode_len();
        let c = name.get_char(7);
        if c == '0' && len > 8 {
            return None;
        }
        r
    } else {
        None
    }
}

/// Whether the element declares the full required property set: position,
/// first-order color, opacity, scale and rotation, each a scalar binary32.
pub open spec fn spec_minimal_schema(e: PlyElement) -> bool {
    &&& spec_has_prop_float(e, "x"@)
    &&& spec_has_prop_float(e, "y"@)
    &&& spec_has_prop_float(e, "z"@)
    &&& spec_has_prop_float(e, "f_dc_0"@)
    &&& spec_has_prop_float(e, "f_dc_1"@)
    &&& spec_has_prop_float(e, "f_dc_2"@)
    &&& spec_has_prop_float(e, "opacity"@)
    &&& spec_has_prop_float(e, "scale_0"@)
    &&& spec_has_prop_float(e, "scale_1"@)
    &&& spec_has_prop_float(e, "scale_2"@)
    &&& spec_has_prop_float(e, "rot_0"@)
    &&& spec_has_prop_float(e, "rot_1"@)
    &&& spec_has_prop_float(e, "rot_2"@)
    &&& spec_has_prop_float(e, "rot_3"@)
}

/// Whether the element declares the whole 45-entry higher-order block.
pub open spec fn spec_sh_complete(e: PlyElement) -> bool {
    forall|i: int| 0 <= i < 45 ==> spec_has_f_rest(e, i)
}

/// Whether the element declares none of the 45-entry higher-order block.
pub open spec fn spec_sh_absent(e: PlyElement) -> bool {
    forall|i: int| 0 <= i < 45 ==> !spec_has_f_rest(e, i)
}

/// The schema verdict on a header: `Some(true)` when it is this format's
/// schema, `Some(false)` when it is not, `None` when the higher-order block
/// is only partially present — a fatal condition, not a mere mismatch.
pub open spec fn spec_splat_a_verdict(h: PlyHeader) -> Option<bool> {
    if h.elements@.len() != 1 {
        Some(false)
    } else if h.elements@[0].name@ != "vertex"@ {
        Some(false)
    } else if !spec_minimal_schema(h.elements@[0]) {
        Some(false)
    } else if spec_sh_complete(h.elements@[0]) || spec_sh_absent(h.elements@[0]) {
        Some(true)
    } else {
        None
    }
}

/// Whether properties `0 .. upto` of the element include the higher-order
/// coefficient of index `i`.
pub open spec fn spec_has_f_rest_upto(e: PlyElement, i: int, upto: int) -> bool {
    exists|j: int|
        0 <= j < upto && j < e.properties@.len() && spec_f_rest_canonical(
            (#[trigger] e.properties@[j]).name@,
        ) == Some(i as usize) && e.properties@[j].is_float_scalar && 0 <= i < 45
}

/// One record of the tag-based container, with every scalar held as its
/// binary32 bit pattern.
#[derive(Clone, Debug, PartialEq)]
pub struct SplatA {
    pub position: Vec3,
    pub normal: Option<Vec3>,
    pub f_dc: Vec3,
    pub f_rest: Option<Vec<u32>>,
    pub opacity: u32,
    pub scale: Vec3,
    pub rot: Vec4,
}

/// The mathematical value of a record: the coefficient block as a sequence.
pub struct SplatAView {
    pub position: Vec3,
    pub normal: Option<Vec3>,
    pub f_dc: Vec3,
    pub f_rest: Option<Seq<u32>>,
    pub opacity: u32,
    pub scale: Vec3,
    pub rot: Vec4,
}

impl View for SplatA {
    type V = SplatAView;

    open spec fn view(&self) -> SplatAView {
        SplatAView {
            position: self.position,
            normal: self.normal,
            f_dc: self.f_dc,
            f_rest: match self.f_rest {
                Some(v) => Some(v@),
                None => None,
            },
            opacity: self.opacity,
            scale: self.scale,
            rot: self.rot,
        }
    }
}

/// The given axis of `n` set to `v`, starting from a zero triple when the
/// optional triple is still absent.
pub open spec fn spec_normal_set(n: Option<Vec3>, axis: int, v: u32) -> Vec3 {
    let base = match n {
        Some(w) => w,
        None => Vec3 { x: 0, y: 0, z: 0 },
    };
    if axis == 0 {
        Vec3 { x: v, ..base }
    } else if axis == 1 {
        Vec3 { y: v, ..base }
    } else {
        Vec3 { z: v, ..base }
    }
}

/// The coefficient block with `v` appended, starting from an empty block
/// when it is still absent.
pub open spec fn spec_f_rest_push(f: Option<Seq<u32>>, v: u32) -> Seq<u32> {
    match f {
        Some(s) => s.push(v),
        None => seq![v],
    }
}

/// How one named scalar of the container routes into a record being
/// streamed in, or `None` for a name the schema does not know (a coefficient
/// name out of the 45-entry block included).
pub open spec fn spec_set_property(s: SplatAView, key: Seq<char>, v: u32) -> Option<SplatAView> {
    if key == "x"@ {
        Some(SplatAView { position: Vec3 { x: v, ..s.position }, ..s })
    } else if key == "y"@ {
        Some(SplatAView { position: Vec3 { y: v, ..s.position }, ..s })
    } else if key == "z"@ {
        Some(SplatAView { position: Vec3 { z: v, ..s.position }, ..s })
    } else if key == "f_dc_0"@ {
        Some(SplatAView { f_dc: Vec3 { x: v, ..s.f_dc }, ..s })
    } else if key == "f_dc_1"@ {
        Some(SplatAView { f_dc: Vec3 { y: v, ..s.f_dc }, ..s })
    } else if key == "f_dc_2"@ {
        Some(SplatAView { f_dc: Vec3 { z: v, ..s.f_dc }, ..s })
    } else if key == "opacity"@ {
        Some(SplatAView { opacity: v, ..s })
    } else if key == "scale_0"@ {
        Some(SplatAView { scale: Vec3 { x: v, ..s.scale }, ..s })
    } else if key == "scale_1"@ {
        Some(SplatAView { scale: Vec3 { y: v, ..s.scale }, ..s })
    } else if key == "scale_2"@ {
        Some(SplatAView { scale: Vec3 { z: v, ..s.scale }, ..s })
    } else if key == "rot_0"@ {
        Some(SplatAView { rot: Vec4 { x: v, ..s.rot }, ..s })
    } else if key == "rot_1"@ {
        Some(SplatAView { rot: Vec4 { y: v, ..s.rot }, ..s })
    } else if key == "rot_2"@ {
        Some(SplatAView { rot: Vec4 { z: v, ..s.rot }, ..s })
    } else if key == "rot_3"@ {
        Some(SplatAView { rot: Vec4 { w: v, ..s.rot }, ..s })
    } else if key == "nx"@ {
        Some(SplatAView { normal: Some(spec_normal_set(s.normal, 0, v)), ..s })
    } else if key == "ny"@ {
        Some(SplatAView { normal: Some(spec_normal_set(s.normal, 1, v)), ..s })
    } else if key == "nz"@ {
        Some(SplatAView { normal: Some(spec_normal_set(s.normal, 2, v)), ..s })
    } else if spec_f_rest_index(key) is Some {
        Some(SplatAView { f_rest: Some(spec_f_rest_push(s.f_rest, v)), ..s })
    } else {
        None
    }
}

impl Default for SplatA {
    /// The record a streaming pass starts from: every scalar zero, the
    /// optional parts absent.
    fn default() -> (s: SplatA)
        ensures
            s@ == (SplatAView {
                position: Vec3 { x: 0, y: 0, z: 0 },
                normal: None,
                f_dc: Vec3 { x: 0, y: 0, z: 0 },
                f_rest: None,
                opacity: 0,
                scale: Vec3 { x: 0, y: 0, z: 0 },
                rot: Vec4 { x: 0, y: 0, z: 0, w: 0 },
            }),
    {
        SplatA {
            position: Vec3 { x: 0, y: 0, z: 0 },
            normal: None,
            f_dc: Vec3 { x: 0, y: 0, z: 0 },
            f_rest: None,
            opacity: 0,
            scale: Vec3 { x: 0, y: 0, z: 0 },
            rot: Vec4 { x: 0, y: 0, z: 0, w: 0 },
        }
    }
}

impl SplatA {
    /// Builds a record from its parts.
    pub fn new(
        position: Vec3,
        normal: Option<Vec3>,
        f_dc: Vec3,
        f_rest: Option<Vec<u32>>,
        opacity: u32,
        scale: Vec3,
        rot: Vec4,
    ) -> (s: SplatA)
        ensures
            s == (SplatA { position, normal, f_dc, f_rest, opacity, scale, rot }),
    {
        SplatA { position, normal, f_dc, f_rest, opacity, scale, rot }
    }

    /// Routes one named binary32 scalar of a record being streamed in into
    /// its field: the position, color, opacity, scale and rotation scalars by
    /// name; the optional normal axes, starting from a zero triple; a
    /// higher-order coefficient name appends to the coefficient block. A name
    /// the schema does not know is an error and leaves the record unchanged.
    pub fn set_property(&mut self, key: &str, value: u32) -> (r: Result<(), SplatError>)
        ensures
            match spec_set_property(old(self)@, key@, value) {
                Some(n) => r is Ok && final(self)@ == n,
                None => r == Err::<(), SplatError>(SplatError::MalformedLayout) && final(self)@
                    == old(self)@,
            },
    {
        if str_eq(key, "x") {
            self.position.x = value;
            return Ok(());
        }
        if str_eq(key, "y") {
            self.position.y = value;
            return Ok(());
        }
        if str_eq(key, "z") {
            self.position.z = value;
            return Ok(());
        }
        if str_eq(key, "f_dc_0") {
            self.f_dc.x = value;
            return Ok(());
        }
        if str_eq(key, "f_dc_1") {
            self.f_dc.y = value;
            return Ok(());
        }
        if str_eq(key, "f_dc_2") {
            self.f_dc.z = value;
            return Ok(());
        }
        if str_eq(key, "opacity") {
            self.opacity = value;
            return Ok(());
        }
        if str_eq(key, "scale_0") {
            self.scale.x = value;
            return Ok(());
        }
        if str_eq(key, "scale_1") {
            self.scale.y = value;
            return Ok(());
        }
        if str_eq(key, "scale_2") {
            self.scale.z = value;
            return Ok(());
        }
        if str_eq(key, "rot_0") {
            self.rot.x = value;
            return Ok(());
        }
        if str_eq(key, "rot_1") {
            self.rot.y = value;
            return Ok(());
        }
        if str_eq(key, "rot_2") {
            self.rot.z = value;
            return Ok(());
        }
        if str_eq(key, "rot_3") {
            self.rot.w = value;
            return Ok(());
        }
        if str_eq(key, "nx") {
            let mut n = match self.normal {
                Some(w) => w,
                None => Vec3 { x: 0, y: 0, z: 0 },
            };
            n.x = value;
            self.normal = Some(n);
            return Ok(());
        }
        if str_eq(key, "ny") {
            let mut n = match self.normal {
                Some(w) => w,
                None => Vec3 { x: 0, y: 0, z: 0 },
            };
            n.y = value;
            self.normal = Some(n);
            return Ok(());
        }
        if str_eq(key, "nz") {
            let mut n = match self.normal {
                Some(w) => w,
                None => Vec3 { x: 0, y: 0, z: 0 },
            };
            n.z = value;
            self.normal = Some(n);
            return Ok(());
        }
        if f_rest_index(key).is_some() {
            let cur = self.f_rest.take();
            let mut block = match cur {
                Some(v) => v,
                None => Vec::new(),
            };
            block.push(value);
            proof {
                assert(block@ == spec_f_rest_push(old(self)@.f_rest, value));
            }
            self.f_rest = Some(block);
            return Ok(());
        }
        Err(SplatError::MalformedLayout)
    }
}

impl UberSplat {
    /// The canonical record a container record loads to: position and the
    /// optional normal verbatim, the DC term and coefficient block as
    /// spherical-harmonic color, the opacity as a pre-sigmoid value, the
    /// scale as pre-exponential components, and the rotation reordered from
    /// the stored (x, y, z, w) into the canonical scalar-first order.
    pub fn from_splat_a(s: &SplatA) -> (u: UberSplat)
        requires
            s.f_rest is Some,
        ensures
            u.position == s.position,
            u.normal == s.normal,
            u.color matches Color::SphericalHarmonic(dc, rest) && dc == s.f_dc && rest@
                == s@.f_rest->0,
            u.opacity == Opacity::LogitFloat(s.opacity),
            u.scale == Scale::Exponent(s.scale),
            u.rotation == (Quat { w: s.rot.w, x: s.rot.x, y: s.rot.y, z: s.rot.z }),
    {
        let rest = match &s.f_rest {
            Some(v) => v.clone(),
            None => Vec::new(),
        };
        UberSplat {
            position: s.position,
            normal: s.normal,
            color: Color::SphericalHarmonic(s.f_dc, rest),
            opacity: Opacity::LogitFloat(s.opacity),
            scale: Scale::Exponent(s.scale),
            rotation: Quat { w: s.rot.w, x: s.rot.x, y: s.rot.y, z: s.rot.z },
        }
    }
}

impl SplatA {
    /// Decides whether a parsed header declares this format's schema: exactly
    /// one element collection, named for vertices, with the full required
    /// property set as scalar binary32 values. The optional normal triple
    /// does not affect the verdict; a higher-order coefficient block that is
    /// only partially present is a fatal schema fault, not a mismatch.
    pub fn is_splat_a(header: &PlyHeader) -> (r: Result<bool, SplatError>)
        ensures
            spec_splat_a_verdict(*header) matches Some(b) ==> r == Ok::<bool, SplatError>(b),
            spec_splat_a_verdict(*header) is None ==> r == Err::<bool, SplatError>(
                SplatError::MalformedLayout,
            ),
    {
        if header.elements.len() != 1 {
            return Ok(false);
        }
        let e = &header.elements[0];
        if !str_eq(e.name.as_str(), "vertex") {
            return Ok(false);
        }
        if !has_prop_float(e, "x") {
            return Ok(false);
        }
        if !has_prop_float(e, "y") {
            return Ok(false);
        }
        if !has_prop_float(e, "z") {
            return Ok(false);
        }
        if !has_prop_float(e, "f_dc_0") {
            return Ok(false);
        }
        if !has_prop_float(e, "f_dc_1") {
            return Ok(false);
        }
        if !has_prop_float(e, "f_dc_2") {
            return Ok(false);
        }
        if !has_prop_float(e, "opacity") {
            return Ok(false);
        }
        if !has_prop_float(e, "scale_0") {
            return Ok(false);
        }
        if !has_prop_float(e, "scale_1") {
            return Ok(false);
        }
        if !has_prop_float(e, "scale_2") {
            return Ok(false);
        }
        if !has_prop_float(e, "rot_0") {
            return Ok(false);
        }
        if !has_prop_float(e, "rot_1") {
            return Ok(false);
        }
        if !has_prop_float(e, "rot_2") {
            return Ok(false);
        }
        if !has_prop_float(e, "rot_3") {
            return Ok(false);
        }
        let mut seen: Vec<bool> = Vec::new();
        let mut t: usize = 0;
        while t < 45
            invariant
                t <= 45,
                seen@.len() == t,
                forall|i: int| 0 <= i < t ==> !(#[trigger] seen@[i]),
            decreases 45 - t,
        {
            seen.push(false);
            t = t + 1;
        }
        let n = e.properties.len();
        for j in 0..n
            invariant
                n == e.properties@.len(),
                seen@.len() == 45,
                forall|i: int|
                    0 <= i < 45 ==> #[trigger] seen@[i] == spec_has_f_rest_upto(*e, i, j as int),
        {
            let ghost old_seen = seen@;
            let p = &e.properties[j];
            let idx_opt = f_rest_canonical_index(p.name.as_str());
            if p.is_float_scalar {
                if let Some(idx) = idx_opt {
                    proof {
                        lemma_digits_val_nonneg(p.name@.skip(7));
                    }
                    assert(idx < 45);
                    seen[idx] = true;
                }
            }
            proof {
                assert forall|i: int| 0 <= i < 45 implies #[trigger] seen@[i]
                    == spec_has_f_rest_upto(*e, i, j + 1) by {
                    if seen@[i] {
                        if old_seen[i] {
                            let w = choose|k: int|
                                0 <= k < j && k < e.properties@.len() && spec_f_rest_canonical(
                                    (#[trigger] e.properties@[k]).name@,
                                ) == Some(i as usize) && e.properties@[k].is_float_scalar;
                            assert(spec_has_f_rest_upto(*e, i, j + 1));
                        } else {
                            assert(e.properties@[j as int].name@ == p.name@);
                            assert(spec_has_f_rest_upto(*e, i, j + 1));
                        }
                    } else {
                        if spec_has_f_rest_upto(*e, i, j + 1) {
                            let w = choose|k: int|
                                0 <= k < j + 1 && k < e.properties@.len() && spec_f_rest_canonical(
                                    (#[trigger] e.properties@[k]).name@,
                                ) == Some(i as usize) && e.properties@[k].is_float_scalar;
                            if w == j {
                                assert(false);
                            } else {
                                assert(spec_has_f_rest_upto(*e, i, j as int));
                                assert(false);
                            }
                        }
                    }
                }
            }
        }
        proof {
            assert forall|i: int| 0 <= i < 45 implies #[trigger] seen@[i] == spec_has_f_rest(
                *e,
                i,
            ) by {
                assert(seen@[i] == spec_has_f_rest_upto(*e, i, n as int));
            }
        }
        let mut all_true = true;
        let mut all_false = true;
        let mut i: usize = 0;
        while i < 45
            invariant
                i <= 45,
                seen@.len() == 45,
                all_true == (forall|k: int| 0 <= k < i ==> #[trigger] seen@[k]),
                all_false == (forall|k: int| 0 <= k < i ==> !(#[trigger] seen@[k])),
            decreases 45 - i,
        {
            if seen[i] {
                all_false = false;
            } else {
                all_true = false;
            }
            i = i + 1;
        }
        proof {
            assert forall|i2: int| 0 <= i2 < 45 implies #[trigger] seen@[i2] == spec_has_f_rest(
                *e,
                i2,
            ) by {}
        }
        if all_true || all_false {
            proof {
                if all_true {
                    assert forall|k: int| 0 <= k < 45 implies spec_has_f_rest(*e, k) by {
                        assert(seen@[k]);
                    }
                } else {
                    assert forall|k: int| 0 <= k < 45 implies !spec_has_f_rest(*e, k) by {
                        assert(!seen@[k]);
                    }
                }
            }
            Ok(true)
        } else {
            proof {
                assert(exists|k: int| 0 <= k < 45 && !(#[trigger] seen@[k]));
                assert(exists|k: int| 0 <= k < 45 && (#[trigger] seen@[k]));
                let wt = choose|k: int| 0 <= k < 45 && !(#[trigger] seen@[k]);
                let wf = choose|k: int| 0 <= k < 45 && (#[trigger] seen@[k]);
                assert(!spec_has_f_rest(*e, wt));
                assert(spec_has_f_rest(*e, wf));
                assert(!spec_sh_complete(*e));
                assert(!spec_sh_absent(*e));
            }
            Err(SplatError::MalformedLayout)
        }
    }
}

/// Whether two property declarations read the same: same name text, same
/// type flag.
pub open spec fn same_property_obs(p1: PlyProperty, p2: PlyProperty) -> bool {
    p1.name@ == p2.name@ && p1.is_float_scalar == p2.is_float_scalar
}

/// Whether two element declarations read the same.
pub open spec fn same_element_obs(e1: PlyElement, e2: PlyElement) -> bool {
    &&& e1.name@ == e2.name@
    &&& e1.properties@.len() == e2.properties@.len()
    &&& forall|j: int|
        0 <= j < e1.properties@.len() ==> same_property_obs(
            #[trigger] e1.properties@[j],
            e2.properties@[j],
        )
}

/// Whether two headers read the same.
pub open spec fn same_header_obs(h1: PlyHeader, h2: PlyHeader) -> bool {
    &&& h1.elements@.len() == h2.elements@.len()
    &&& forall|i: int|
        0 <= i < h1.elements@.len() ==> same_element_obs(
            #[trigger] h1.elements@[i],
            h2.elements@[i],
        )
}

/// A property lookup reads only the declarations' text.
proof fn lemma_same_element_has_prop(e1: PlyElement, e2: PlyElement, name: Seq<char>)
    requires
        same_element_obs(e1, e2),
    ensures
        spec_has_prop_float(e1, name) == spec_has_prop_float(e2, name),
{
    if spec_has_prop_float(e1, name) {
        let j = choose|j: int|
            0 <= j < e1.properties@.len() && (#[trigger] e1.properties@[j]).name@ == name
                && e1.properties@[j].is_float_scalar;
        assert(same_property_obs(e1.properties@[j], e2.properties@[j]));
        assert(spec_has_prop_float(e2, name));
    }
    if spec_has_prop_float(e2, name) {
        let j = choose|j: int|
            0 <= j < e2.properties@.len() && (#[trigger] e2.properties@[j]).name@ == name
                && e2.properties@[j].is_float_scalar;
        assert(same_property_obs(e1.properties@[j], e2.properties@[j]));
        assert(spec_has_prop_float(e1, name));
    }
}

/// A coefficient-block lookup reads only the declarations' text.
proof fn lemma_same_element_has_f_rest(e1: PlyElement, e2: PlyElement, i: int)
    requires
        same_element_obs(e1, e2),
    ensures
        spec_has_f_rest(e1, i) == spec_has_f_rest(e2, i),
{
    if spec_has_f_rest(e1, i) {
        let j = choose|j: int|
            0 <= j < e1.properties@.len() && spec_f_rest_canonical(
                (#[trigger] e1.properties@[j]).name@,
            ) == Some(i as usize) && e1.properties@[j].is_float_scalar && 0 <= i < 45;
        assert(same_property_obs(e1.properties@[j], e2.properties@[j]));
        assert(spec_has_f_rest(e2, i));
    }
    if spec_has_f_rest(e2, i) {
        let j = choose|j: int|
            0 <= j < e2.properties@.len() && spec_f_rest_canonical(
                (#[trigger] e2.properties@[j]).name@,
            ) == Some(i as usize) && e2.properties@[j].is_float_scalar && 0 <= i < 45;
        assert(same_property_obs(e1.properties@[j], e2.properties@[j]));
        assert(spec_has_f_rest(e1, i));
    }
}

/// The schema verdict reads only the header's text: two headers that read
/// the same get the same verdict.
pub proof fn lemma_same_header_verdict(h1: PlyHeader, h2: PlyHeader)
    requires
        same_header_obs(h1, h2),
    ensures
        spec_splat_a_verdict(h1) == spec_splat_a_verdict(h2),
{
    if h1.elements@.len() == 1 {
        let e1 = h1.elements@[0];
        let e2 = h2.elements@[0];
        assert(same_element_obs(e1, e2));
        lemma_same_element_has_prop(e1, e2, "x"@);
        lemma_same_element_has_prop(e1, e2, "y"@);
        lemma_same_element_has_prop(e1, e2, "z"@);
        lemma_same_element_has_prop(e1, e2, "f_dc_0"@);
        lemma_same_element_has_prop(e1, e2, "f_dc_1"@);
        lemma_same_element_has_prop(e1, e2, "f_dc_2"@);
        lemma_same_element_has_prop(e1, e2, "opacity"@);
        lemma_same_element_has_prop(e1, e2, "scale_0"@);
        lemma_same_element_has_prop(e1, e2, "scale_1"@);
        lemma_same_element_has_prop(e1, e2, "scale_2"@);
        lemma_same_element_has_prop(e1, e2, "rot_0"@);
        lemma_same_element_has_prop(e1, e2, "rot_1"@);
        lemma_same_element_has_prop(e1, e2, "rot_2"@);
        lemma_same_element_has_prop(e1, e2, "rot_3"@);
        assert forall|i: int| 0 <= i < 45 implies spec_has_f_rest(e1, i) == spec_has_f_rest(
            e2,
            i,
        ) by {
            lemma_same_element_has_f_rest(e1, e2, i);
        }
        assert(spec_sh_complete(e1) == spec_sh_complete(e2));
        assert(spec_sh_absent(e1) == spec_sh_absent(e2));
    }
}

impl SplatA {
    /// This codec's detection verdict. The extension must be the container's;
    /// a parsed header must then be supplied (the caller parses it, and fails
    /// before calling here when the file cannot be opened or parsed), and the
    /// schema check decides. A partially present higher-order block is fatal.
    pub fn is_format(extension: &str, header: Option<&PlyHeader>) -> (r: Result<
        FormatResult,
        SplatError,
    >)
        requires
            extension@ == "ply"@ ==> header is Some,
        ensures
            extension@ != "ply"@ ==> (r matches Ok(f) && f matches FormatResult::No(m) && m@
                == "Not a PLY file"@),
            extension@ == "ply"@ ==> (header matches Some(h) ==> {
                &&& spec_splat_a_verdict(*h) == Some(true) ==> r == Ok::<
                    FormatResult,
                    SplatError,
                >(FormatResult::Yes)
                &&& spec_splat_a_verdict(*h) == Some(false) ==> (r matches Ok(f) && f matches
                    FormatResult::No(m) && m@ == "Not a SplatA file"@)
                &&& spec_splat_a_verdict(*h) is None ==> r == Err::<FormatResult, SplatError>(
                    SplatError::MalformedLayout,
                )
            }),
    {
        if !str_eq(extension, "ply") {
            return Ok(FormatResult::No(String::from_str("Not a PLY file")));
        }
        let h = header.unwrap();
        match Self::is_splat_a(h) {
            Ok(true) => Ok(FormatResult::Yes),
            Ok(false) => Ok(FormatResult::No(String::from_str("Not a SplatA file"))),
            Err(e) => Err(e),
        }
    }
}

} // verus!
