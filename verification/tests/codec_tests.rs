use half::f16;
use splat_convert::splat_b::{load_b, reduce_b, save_b, QuatBytes, Rgba, SplatB};
use splat_convert::splat_c::{load_c, reduce_c, save_c, HVec3, HVec4, SplatC};
use splat_convert::uber_splat::Vec3;

fn sample_b() -> SplatB {
    SplatB {
        position: Vec3 {
            x: 1.5f32.to_bits(),
            y: (-2.25f32).to_bits(),
            z: 0.0f32.to_bits(),
        },
        scale: Vec3 {
            x: 0.353f32.to_bits(),
            y: 0.147f32.to_bits(),
            z: 0.489f32.to_bits(),
        },
        color: Rgba { r: 255, g: 249, b: 235, a: 252 },
        rotation: QuatBytes { w: 128, x: 7, y: 0, z: 255 },
    }
}

fn sample_c() -> SplatC {
    SplatC {
        position: HVec3 {
            x: f16::from_f32(1.5).to_bits(),
            y: f16::from_f32(-2.25).to_bits(),
            z: f16::from_f32(0.25).to_bits(),
        },
        color: HVec4 {
            x: f16::from_f32(1.0).to_bits(),
            y: f16::from_f32(0.5).to_bits(),
            z: f16::from_f32(0.25).to_bits(),
            w: f16::from_f32(0.75).to_bits(),
        },
        cov_a: HVec3 {
            x: f16::from_f32(0.125).to_bits(),
            y: f16::from_f32(-0.125).to_bits(),
            z: f16::from_f32(0.0).to_bits(),
        },
        cov_b: HVec3 {
            x: f16::from_f32(2.0).to_bits(),
            y: f16::from_f32(-1.0).to_bits(),
            z: f16::from_f32(3.0).to_bits(),
        },
    }
}

#[test]
fn test_splat_b_size() {
    assert_eq!(sample_b().encode().len(), 32);
}

#[test]
fn test_splat_c_size() {
    assert_eq!(sample_c().encode().len(), 26);
    assert_eq!(SplatC::definition().size(), 26);
}

#[test]
fn test_splat_b_round_trip() {
    let s = sample_b();
    let bytes = s.encode();
    let back = SplatB::decode(&bytes);
    assert_eq!(back, s);
}

#[test]
fn test_splat_c_round_trip() {
    let s = sample_c();
    let bytes = s.encode();
    let back = SplatC::decode(&bytes);
    assert_eq!(back, s);
}

#[test]
fn test_splat_b_known_bytes() {
    // 1.0f32 is the little-endian bytes 00 00 80 3f.
    let mut bytes = vec![0u8; 32];
    bytes[2] = 0x80;
    bytes[3] = 0x3f;
    bytes[24] = 10;
    bytes[25] = 20;
    bytes[26] = 30;
    bytes[27] = 40;
    bytes[28] = 1;
    bytes[29] = 2;
    bytes[30] = 3;
    bytes[31] = 4;
    let s = SplatB::decode(&bytes);
    assert_eq!(s.position.x, 1.0f32.to_bits());
    assert_eq!(s.position.y, 0);
    assert_eq!(s.scale.z, 0);
    assert_eq!(s.color, Rgba { r: 10, g: 20, b: 30, a: 40 });
    assert_eq!(s.rotation, QuatBytes { w: 1, x: 2, y: 3, z: 4 });
    assert_eq!(s.encode(), bytes);
}

#[test]
fn test_splat_c_known_bytes() {
    // f16 value 1.0 is the little-endian bytes 00 3c.
    let mut bytes = vec![0u8; 26];
    bytes[1] = 0x3c;
    bytes[14] = 0x00;
    bytes[15] = 0x3c;
    let s = SplatC::decode(&bytes);
    assert_eq!(s.position.x, f16::from_f32(1.0).to_bits());
    assert_eq!(s.position.y, 0);
    assert_eq!(s.cov_a.x, f16::from_f32(1.0).to_bits());
    assert_eq!(s.encode(), bytes);
}

#[test]
fn test_save_b_length_multiple_of_32() {
    let splats = vec![sample_b(); 5];
    let bytes = save_b(&splats);
    assert_eq!(bytes.len(), 160);
    assert_eq!(bytes.len() % 32, 0);
}

#[test]
fn test_save_c_length_multiple_of_26() {
    let splats = vec![sample_c(); 3];
    let bytes = save_c(&splats);
    assert_eq!(bytes.len(), 78);
    assert_eq!(bytes.len() % 26, 0);
}

#[test]
fn test_load_b_two_records() {
    let mut bytes = sample_b().encode();
    bytes.extend_from_slice(&sample_b().encode());
    assert_eq!(bytes.len(), 64);
    let splats = load_b(&bytes);
    assert_eq!(splats.len(), 2);
    assert_eq!(splats[0], sample_b());
    assert_eq!(splats[1], sample_b());
}

#[test]
fn test_load_b_truncated_tail_dropped() {
    let mut bytes = sample_b().encode();
    bytes.extend_from_slice(&sample_b().encode());
    bytes.truncate(50);
    let splats = load_b(&bytes);
    assert_eq!(splats.len(), 1);
    assert_eq!(splats[0], sample_b());
}

#[test]
fn test_load_c_truncated_tail_dropped() {
    let mut bytes = sample_c().encode();
    bytes.extend_from_slice(&sample_c().encode());
    bytes.truncate(51);
    let splats = load_c(&bytes);
    assert_eq!(splats.len(), 1);
    assert_eq!(splats[0], sample_c());
}

#[test]
fn test_reduce_b_idempotent() {
    let mut s2 = sample_b();
    s2.position.x = 7.5f32.to_bits();
    let splats = vec![sample_b(), s2, sample_b()];
    let bytes = save_b(&splats);
    let once = reduce_b(&bytes, 2);
    let twice = reduce_b(&once, 2);
    assert_eq!(once.len(), 64);
    assert_eq!(once, twice);
    // A limit at least the record count keeps everything, and stays stable.
    let all_once = reduce_b(&bytes, 10);
    let all_twice = reduce_b(&all_once, 10);
    assert_eq!(all_once, bytes);
    assert_eq!(all_once, all_twice);
}

#[test]
fn test_reduce_c_idempotent() {
    let splats = vec![sample_c(), sample_c()];
    let bytes = save_c(&splats);
    let once = reduce_c(&bytes, 1);
    let twice = reduce_c(&once, 1);
    assert_eq!(once.len(), 26);
    assert_eq!(once, twice);
    let all_once = reduce_c(&bytes, 2);
    assert_eq!(all_once, bytes);
}
