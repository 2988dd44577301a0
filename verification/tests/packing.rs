use warbler_grass::texture::{pack_to_texture, TextureFormat};
use warbler_grass::types::Vec2Fixed;

#[test]
fn packs_five_values_into_side_three() {
    let data: Vec<i32> = vec![10, 20, 30, 40, 50];
    let t = pack_to_texture(&data, 0, TextureFormat::R32);
    assert_eq!(t.side, 3);
    assert_eq!(t.format, TextureFormat::R32);
    assert_eq!(t.texels.len(), 9);
    assert_eq!(&t.texels[..5], &[10, 20, 30, 40, 50]);
    assert_eq!(&t.texels[5..], &[0, 0, 0, 0]);
}

#[test]
fn side_is_minimal() {
    // A perfect square needs no extra row.
    let t = pack_to_texture(&vec![1, 2, 3, 4], 0, TextureFormat::R32);
    assert_eq!(t.side, 2);
    assert_eq!(t.texels, vec![1, 2, 3, 4]);
    let t = pack_to_texture(&vec![7], 0, TextureFormat::R32);
    assert_eq!(t.side, 1);
    let t = pack_to_texture(&vec![1, 2], 0, TextureFormat::R32);
    assert_eq!(t.side, 2);
    let t = pack_to_texture(&vec![0; 10], 0, TextureFormat::R32);
    assert_eq!(t.side, 4);
    // For every length up to 100: n*n holds it and (n-1)*(n-1) does not.
    for len in 1usize..100 {
        let t = pack_to_texture(&vec![0i32; len], 0, TextureFormat::R32);
        let n = t.side as usize;
        assert!(n * n >= len);
        assert!((n - 1) * (n - 1) < len);
        assert_eq!(t.texels.len(), n * n);
    }
}

#[test]
fn packs_position_pairs() {
    let data = vec![
        Vec2Fixed { x: 1, y: 2 },
        Vec2Fixed { x: 3, y: 4 },
        Vec2Fixed { x: 5, y: 6 },
    ];
    let t = pack_to_texture(&data, Vec2Fixed { x: 0, y: 0 }, TextureFormat::Rg32);
    assert_eq!(t.side, 2);
    assert_eq!(t.texels.len(), 4);
    assert_eq!(t.texels[2], Vec2Fixed { x: 5, y: 6 });
    assert_eq!(t.texels[3], Vec2Fixed { x: 0, y: 0 });
}

#[test]
fn byte_buffers_carry_four_bytes_per_channel() {
    let t = pack_to_texture(&vec![1i32, 2, 3, 4, 5], 0, TextureFormat::R32);
    // 3x3 texels, one 32-bit channel each.
    assert_eq!(t.byte_data().len(), 36);
    let pairs = vec![Vec2Fixed { x: 1, y: 2 }, Vec2Fixed { x: 3, y: 4 }];
    let t = pack_to_texture(&pairs, Vec2Fixed { x: 0, y: 0 }, TextureFormat::Rg32);
    // 2x2 texels, two 32-bit channels each.
    assert_eq!(t.byte_data().len(), 32);
}
