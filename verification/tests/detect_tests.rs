use splat_convert::guess_format::{guess_format, pick_format, FileProbe, SplatFormats};
use splat_convert::splat_a::{PlyElement, PlyHeader, PlyProperty, SplatA};
use splat_convert::splat_b::SplatB;
use splat_convert::splat_c::SplatC;
use splat_convert::splat_format::{route_load, route_save, FormatResult};
use splat_convert::uber_splat::SplatError;

fn prop(name: &str) -> PlyProperty {
    PlyProperty { name: name.to_string(), is_float_scalar: true }
}

fn minimal_vertex_element() -> PlyElement {
    let names = [
        "x", "y", "z", "f_dc_0", "f_dc_1", "f_dc_2", "opacity", "scale_0", "scale_1", "scale_2",
        "rot_0", "rot_1", "rot_2", "rot_3",
    ];
    PlyElement {
        name: "vertex".to_string(),
        properties: names.iter().map(|n| prop(n)).collect(),
    }
}

fn minimal_header() -> PlyHeader {
    PlyHeader { elements: vec![minimal_vertex_element()] }
}

fn probe(extension: &str, exists: bool, size: u64) -> FileProbe {
    FileProbe { extension: extension.to_string(), exists, size, ply_header: None }
}

#[test]
fn test_guess_format_splat_b_by_size() {
    let r = guess_format(&probe("splat", true, 64)).unwrap();
    assert_eq!(r, Some(SplatFormats::SplatB));
}

#[test]
fn test_guess_format_splat_c_by_size() {
    let r = guess_format(&probe("splatc", true, 52)).unwrap();
    assert_eq!(r, Some(SplatFormats::SplatC));
}

#[test]
fn test_guess_format_write_target() {
    // A missing file with the right extension is a plausible write target.
    let r = guess_format(&probe("splat", false, 0)).unwrap();
    assert_eq!(r, Some(SplatFormats::SplatB));
}

#[test]
fn test_guess_format_unrecognized() {
    let r = guess_format(&probe("txt", true, 64)).unwrap();
    assert_eq!(r, None);
}

#[test]
fn test_guess_format_bad_size() {
    let r = guess_format(&probe("splat", true, 33)).unwrap();
    assert_eq!(r, None);
}

#[test]
fn test_guess_format_valid_ply() {
    let p = FileProbe {
        extension: "ply".to_string(),
        exists: true,
        size: 12345,
        ply_header: Some(minimal_header()),
    };
    let r = guess_format(&p).unwrap();
    assert_eq!(r, Some(SplatFormats::SplatA));
}

#[test]
fn test_detection_deterministic() {
    let p = probe("splat", true, 96);
    let r1 = guess_format(&p).unwrap();
    let r2 = guess_format(&p).unwrap();
    assert_eq!(r1, r2);
    let q = FileProbe {
        extension: "ply".to_string(),
        exists: true,
        size: 7,
        ply_header: Some(minimal_header()),
    };
    assert_eq!(guess_format(&q).unwrap(), guess_format(&q).unwrap());
}

#[test]
fn test_yes_beats_maybe() {
    let yes = FormatResult::Yes;
    let maybe = FormatResult::Maybe(Some(999));
    let no = FormatResult::No("nope".to_string());
    assert_eq!(pick_format(&yes, &maybe, &no), Some(SplatFormats::SplatA));
    assert_eq!(pick_format(&maybe, &yes, &no), Some(SplatFormats::SplatB));
    assert_eq!(pick_format(&maybe, &no, &yes), Some(SplatFormats::SplatC));
}

#[test]
fn test_maybe_confidence_order() {
    let low = FormatResult::Maybe(Some(333));
    let high = FormatResult::Maybe(Some(666));
    let no = FormatResult::No("nope".to_string());
    assert_eq!(pick_format(&low, &high, &no), Some(SplatFormats::SplatB));
    assert_eq!(pick_format(&high, &low, &no), Some(SplatFormats::SplatA));
    // A tie goes to the earlier candidate.
    assert_eq!(pick_format(&low, &low, &no), Some(SplatFormats::SplatA));
    assert_eq!(pick_format(&no, &low, &low), Some(SplatFormats::SplatB));
    // A stated confidence outranks a missing one.
    assert_eq!(pick_format(&FormatResult::Maybe(None), &low, &no), Some(SplatFormats::SplatB));
}

#[test]
fn test_all_no_yields_none() {
    let no1 = FormatResult::No("a".to_string());
    let no2 = FormatResult::No("b".to_string());
    let no3 = FormatResult::No("c".to_string());
    assert_eq!(pick_format(&no1, &no2, &no3), None);
}

#[test]
fn test_is_format_b_reasons() {
    match SplatB::is_format("ply", true, 64) {
        FormatResult::No(m) => assert_eq!(m, "Extension is not splat"),
        other => panic!("wrong result: {:?}", other),
    }
    match SplatB::is_format("splat", true, 33) {
        FormatResult::No(m) => assert_eq!(m, "Size is not a multiple of 32"),
        other => panic!("wrong result: {:?}", other),
    }
    assert_eq!(SplatB::is_format("splat", false, 0), FormatResult::Maybe(Some(333)));
    assert_eq!(SplatB::is_format("splat", true, 64), FormatResult::Maybe(Some(666)));
}

#[test]
fn test_is_format_c_reasons() {
    match SplatC::is_format("splat", true, 52) {
        FormatResult::No(m) => assert_eq!(m, "Extension is not splatc"),
        other => panic!("wrong result: {:?}", other),
    }
    match SplatC::is_format("splatc", true, 27) {
        FormatResult::No(m) => assert_eq!(m, "Size is not a multiple of 26"),
        other => panic!("wrong result: {:?}", other),
    }
    assert_eq!(SplatC::is_format("splatc", false, 0), FormatResult::Maybe(Some(333)));
    assert_eq!(SplatC::is_format("splatc", true, 52), FormatResult::Maybe(Some(666)));
}

#[test]
fn test_is_format_a_reasons() {
    match SplatA::is_format("splat", None).unwrap() {
        FormatResult::No(m) => assert_eq!(m, "Not a PLY file"),
        other => panic!("wrong result: {:?}", other),
    }
    let mut bad = minimal_header();
    bad.elements[0].properties.pop();
    match SplatA::is_format("ply", Some(&bad)).unwrap() {
        FormatResult::No(m) => assert_eq!(m, "Not a SplatA file"),
        other => panic!("wrong result: {:?}", other),
    }
    assert_eq!(SplatA::is_format("ply", Some(&minimal_header())).unwrap(), FormatResult::Yes);
}

#[test]
fn test_route_load_directions() {
    assert_eq!(route_load(Some(SplatFormats::SplatA)), Ok(SplatFormats::SplatA));
    assert_eq!(route_load(Some(SplatFormats::SplatB)), Ok(SplatFormats::SplatB));
    // The half-precision format stores a derived covariance: write-only.
    assert_eq!(route_load(Some(SplatFormats::SplatC)), Err(SplatError::UnsupportedDirection));
    assert_eq!(route_load(None), Err(SplatError::UnrecognizedFormat));
    // The container format is consumed read-only.
    assert_eq!(route_save(SplatFormats::SplatA), Err(SplatError::UnsupportedDirection));
    assert_eq!(route_save(SplatFormats::SplatB), Ok(SplatFormats::SplatB));
    assert_eq!(route_save(SplatFormats::SplatC), Ok(SplatFormats::SplatC));
}

#[test]
fn test_description_mentions_record_sizes() {
    assert!(SplatFormats::SplatB.description().contains("32 bytes"));
    assert!(SplatFormats::SplatC.description().contains("26 bytes"));
    assert!(SplatFormats::SplatA.description().contains(".ply"));
}
