use splat_convert::splat_a::{PlyElement, PlyHeader, PlyProperty, SplatA};
use splat_convert::uber_splat::{Color, Opacity, Quat, Scale, SplatError, UberSplat, Vec3, Vec4};

fn prop(name: &str) -> PlyProperty {
    PlyProperty { name: name.to_string(), is_float_scalar: true }
}

fn minimal_vertex_element() -> PlyElement {
    let names = [
        "x", "y", "z", "f_dc_0", "f_dc_1", "f_dc_2", "opacity", "scale_0", "scale_1", "scale_2",
        "rot_0", "rot_1", "rot_2", "rot_3",
    ];
    PlyElement {
        name: "vertex".to_string(),
        properties: names.iter().map(|n| prop(n)).collect(),
    }
}

fn header_of(e: PlyElement) -> PlyHeader {
    PlyHeader { elements: vec![e] }
}

#[test]
fn test_is_splat_a_minimal_schema() {
    assert_eq!(SplatA::is_splat_a(&header_of(minimal_vertex_element())), Ok(true));
}

#[test]
fn test_is_splat_a_with_normals() {
    let mut e = minimal_vertex_element();
    e.properties.push(prop("nx"));
    e.properties.push(prop("ny"));
    e.properties.push(prop("nz"));
    assert_eq!(SplatA::is_splat_a(&header_of(e)), Ok(true));
}

#[test]
fn test_is_splat_a_missing_required_property() {
    let mut e = minimal_vertex_element();
    e.properties.retain(|p| p.name != "opacity");
    assert_eq!(SplatA::is_splat_a(&header_of(e)), Ok(false));
}

#[test]
fn test_is_splat_a_wrong_property_type() {
    let mut e = minimal_vertex_element();
    for p in e.properties.iter_mut() {
        if p.name == "rot_2" {
            p.is_float_scalar = false;
        }
    }
    assert_eq!(SplatA::is_splat_a(&header_of(e)), Ok(false));
}

#[test]
fn test_is_splat_a_wrong_element_name() {
    let mut e = minimal_vertex_element();
    e.name = "face".to_string();
    assert_eq!(SplatA::is_splat_a(&header_of(e)), Ok(false));
}

#[test]
fn test_is_splat_a_two_elements() {
    let h = PlyHeader { elements: vec![minimal_vertex_element(), minimal_vertex_element()] };
    assert_eq!(SplatA::is_splat_a(&h), Ok(false));
}

#[test]
fn test_is_splat_a_complete_coefficient_block() {
    let mut e = minimal_vertex_element();
    for i in 0..45 {
        e.properties.push(prop(&format!("f_rest_{}", i)));
    }
    assert_eq!(SplatA::is_splat_a(&header_of(e)), Ok(true));
}

#[test]
fn test_is_splat_a_partial_coefficient_block_is_fatal() {
    let mut e = minimal_vertex_element();
    for i in 0..10 {
        e.properties.push(prop(&format!("f_rest_{}", i)));
    }
    assert_eq!(SplatA::is_splat_a(&header_of(e)), Err(SplatError::MalformedLayout));
}

#[test]
fn test_set_property_routes_scalars() {
    let mut s = SplatA::default();
    assert!(s.set_property("x", 1.5f32.to_bits()).is_ok());
    assert!(s.set_property("y", 2.5f32.to_bits()).is_ok());
    assert!(s.set_property("z", (-3.0f32).to_bits()).is_ok());
    assert!(s.set_property("f_dc_1", 0.25f32.to_bits()).is_ok());
    assert!(s.set_property("opacity", 0.75f32.to_bits()).is_ok());
    assert!(s.set_property("scale_2", 4.0f32.to_bits()).is_ok());
    assert!(s.set_property("rot_0", 0.5f32.to_bits()).is_ok());
    assert!(s.set_property("rot_3", 1.0f32.to_bits()).is_ok());
    assert_eq!(s.position.x, 1.5f32.to_bits());
    assert_eq!(s.position.y, 2.5f32.to_bits());
    assert_eq!(s.position.z, (-3.0f32).to_bits());
    assert_eq!(s.f_dc.y, 0.25f32.to_bits());
    assert_eq!(s.opacity, 0.75f32.to_bits());
    assert_eq!(s.scale.z, 4.0f32.to_bits());
    assert_eq!(s.rot.x, 0.5f32.to_bits());
    assert_eq!(s.rot.w, 1.0f32.to_bits());
    assert_eq!(s.normal, None);
    assert_eq!(s.f_rest, None);
}

#[test]
fn test_set_property_normal_starts_from_zero() {
    let mut s = SplatA::default();
    assert!(s.set_property("ny", 1.0f32.to_bits()).is_ok());
    assert_eq!(s.normal, Some(Vec3 { x: 0, y: 1.0f32.to_bits(), z: 0 }));
    assert!(s.set_property("nx", 2.0f32.to_bits()).is_ok());
    assert_eq!(s.normal, Some(Vec3 { x: 2.0f32.to_bits(), y: 1.0f32.to_bits(), z: 0 }));
}

#[test]
fn test_set_property_coefficients_append_in_arrival_order() {
    let mut s = SplatA::default();
    assert!(s.set_property("f_rest_0", 10).is_ok());
    assert!(s.set_property("f_rest_1", 20).is_ok());
    // The index only gates membership in the block; values append as they
    // arrive, and leading zeros in the index are accepted.
    assert!(s.set_property("f_rest_007", 30).is_ok());
    assert_eq!(s.f_rest, Some(vec![10, 20, 30]));
}

#[test]
fn test_set_property_rejects_unknown_key() {
    let mut s = SplatA::default();
    assert_eq!(s.set_property("unknown", 1), Err(SplatError::MalformedLayout));
    assert_eq!(s.set_property("f_rest_", 1), Err(SplatError::MalformedLayout));
    assert_eq!(s.set_property("f_rest_x", 1), Err(SplatError::MalformedLayout));
    // An index outside the 45-entry block is out of bounds.
    assert_eq!(s.set_property("f_rest_45", 1), Err(SplatError::MalformedLayout));
    assert_eq!(s.set_property("f_rest_0045", 1), Err(SplatError::MalformedLayout));
    assert_eq!(s.set_property("f_rest_184467440737095516150", 1), Err(SplatError::MalformedLayout));
    assert_eq!(s, SplatA::default());
}

#[test]
fn test_from_splat_a_field_mapping() {
    let s = SplatA::new(
        Vec3 { x: 1, y: 2, z: 3 },
        Some(Vec3 { x: 4, y: 5, z: 6 }),
        Vec3 { x: 7, y: 8, z: 9 },
        Some(vec![100, 200]),
        10,
        Vec3 { x: 11, y: 12, z: 13 },
        Vec4 { x: 14, y: 15, z: 16, w: 17 },
    );
    let u = UberSplat::from_splat_a(&s);
    assert_eq!(u.position, Vec3 { x: 1, y: 2, z: 3 });
    assert_eq!(u.normal, Some(Vec3 { x: 4, y: 5, z: 6 }));
    match &u.color {
        Color::SphericalHarmonic(dc, rest) => {
            assert_eq!(*dc, Vec3 { x: 7, y: 8, z: 9 });
            assert_eq!(*rest, vec![100, 200]);
        },
        other => panic!("wrong color variant: {:?}", other),
    }
    assert_eq!(u.opacity, Opacity::LogitFloat(10));
    assert_eq!(u.scale, Scale::Exponent(Vec3 { x: 11, y: 12, z: 13 }));
    // The stored (x, y, z, w) order becomes the canonical scalar-first order.
    assert_eq!(u.rotation, Quat { w: 17, x: 14, y: 15, z: 16 });
}
