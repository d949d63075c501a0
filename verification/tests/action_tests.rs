use splat_convert::actions::shuffle_splats;
use splat_convert::uber_splat::{Color, Opacity, Quat, Rgb, Scale, UberSplat, Vec3};

fn splat_at(x: u32) -> UberSplat {
    UberSplat::new(
        Vec3 { x, y: 0, z: 0 },
        None,
        Color::LinearU8(Rgb { r: 1, g: 2, b: 3 }),
        Opacity::LinearU8(255),
        Scale::LinearFloat(Vec3 { x: 0, y: 0, z: 0 }),
        Quat { w: 0, x: 0, y: 0, z: 0 },
    )
}

#[test]
fn test_shuffle_splats_is_a_permutation() {
    let mut splats: Vec<UberSplat> = (0..64).map(splat_at).collect();
    let before = splats.clone();
    shuffle_splats(&mut splats);
    assert_eq!(splats.len(), before.len());
    let mut before_keys: Vec<u32> = before.iter().map(|s| s.position.x).collect();
    let mut after_keys: Vec<u32> = splats.iter().map(|s| s.position.x).collect();
    before_keys.sort();
    after_keys.sort();
    assert_eq!(before_keys, after_keys);
}
