use tile_pod::layout::{
    tile_args_from_bytes, tile_args_to_bytes, tile_map_args_from_bytes, tile_map_args_to_bytes,
    TILE_ARGS_BYTES, TILE_MAP_ARGS_BYTES,
};
use tile_pod::pod::{TileArgs, TileMapArgs};

#[test]
fn tile_args_bytes_offsets_and_order() {
    let a = TileArgs {
        u_offset: (0.1f32.to_bits(), 0.2f32.to_bits()),
        v_offset: (0.3f32.to_bits(), 0.4f32.to_bits()),
        tint: (
            0.5f32.to_bits(),
            0.6f32.to_bits(),
            0.7f32.to_bits(),
            0.8f32.to_bits(),
        ),
        tile_coordinate: (1.0f32.to_bits(), 2.0f32.to_bits(), 3.0f32.to_bits()),
    };
    let b = tile_args_to_bytes(&a);
    assert_eq!(b.len(), TILE_ARGS_BYTES);
    assert_eq!(b[0..4], a.u_offset.0.to_le_bytes());
    assert_eq!(b[4..8], a.u_offset.1.to_le_bytes());
    assert_eq!(b[8..12], a.v_offset.0.to_le_bytes());
    assert_eq!(b[12..16], a.v_offset.1.to_le_bytes());
    assert_eq!(b[16..20], a.tint.0.to_le_bytes());
    assert_eq!(b[20..24], a.tint.1.to_le_bytes());
    assert_eq!(b[24..28], a.tint.2.to_le_bytes());
    assert_eq!(b[28..32], a.tint.3.to_le_bytes());
    assert_eq!(b[32..36], a.tile_coordinate.0.to_le_bytes());
    assert_eq!(b[36..40], a.tile_coordinate.1.to_le_bytes());
    assert_eq!(b[40..44], a.tile_coordinate.2.to_le_bytes());
}

#[test]
fn tile_args_bytes_little_endian() {
    let a = TileArgs {
        u_offset: (0x0102_0304, 0),
        v_offset: (0, 0),
        tint: (0, 0, 0, 0),
        tile_coordinate: (0, 0, 0),
    };
    let b = tile_args_to_bytes(&a);
    assert_eq!(&b[0..4], &[0x04, 0x03, 0x02, 0x01]);
}

#[test]
fn tile_args_round_trip() {
    let a = TileArgs {
        u_offset: (0.25f32.to_bits(), 0.5f32.to_bits()),
        v_offset: (0.75f32.to_bits(), 1.0f32.to_bits()),
        tint: (
            1.0f32.to_bits(),
            0.0f32.to_bits(),
            0.5f32.to_bits(),
            0.125f32.to_bits(),
        ),
        tile_coordinate: (9.0f32.to_bits(), 8.0f32.to_bits(), 7.0f32.to_bits()),
    };
    let b = tile_args_to_bytes(&a);
    let back = tile_args_from_bytes(b.as_slice());
    assert_eq!(back, a);
}

#[test]
fn tile_map_args_bytes_offsets_and_padding() {
    let mut u = TileMapArgs {
        proj: [0u32; 16],
        view: [0u32; 16],
        map_coordinate_transform: [0u32; 16],
        map_transform: [0u32; 16],
        sprite_dimensions: [64.0f32.to_bits(), 32.0f32.to_bits()],
    };
    for k in 0..16u32 {
        u.proj[k as usize] = (k as f32).to_bits();
        u.view[k as usize] = (100.0 + k as f32).to_bits();
        u.map_coordinate_transform[k as usize] = (200.0 + k as f32).to_bits();
        u.map_transform[k as usize] = (300.0 + k as f32).to_bits();
    }
    let b = tile_map_args_to_bytes(&u);
    assert_eq!(b.len(), TILE_MAP_ARGS_BYTES);
    for k in 0..16usize {
        assert_eq!(b[4 * k..4 * k + 4], u.proj[k].to_le_bytes());
        assert_eq!(b[64 + 4 * k..64 + 4 * k + 4], u.view[k].to_le_bytes());
        assert_eq!(
            b[128 + 4 * k..128 + 4 * k + 4],
            u.map_coordinate_transform[k].to_le_bytes()
        );
        assert_eq!(
            b[192 + 4 * k..192 + 4 * k + 4],
            u.map_transform[k].to_le_bytes()
        );
    }
    assert_eq!(b[256..260], u.sprite_dimensions[0].to_le_bytes());
    assert_eq!(b[260..264], u.sprite_dimensions[1].to_le_bytes());
    for i in 264..272 {
        assert_eq!(b[i], 0, "padding byte {i}");
    }
}

#[test]
fn tile_map_args_round_trip() {
    let mut u = TileMapArgs {
        proj: [0u32; 16],
        view: [0u32; 16],
        map_coordinate_transform: [0u32; 16],
        map_transform: [0u32; 16],
        sprite_dimensions: [1.5f32.to_bits(), 2.5f32.to_bits()],
    };
    for k in 0..16u32 {
        u.proj[k as usize] = (0.5 * k as f32).to_bits();
        u.view[k as usize] = (-1.0 * k as f32).to_bits();
        u.map_coordinate_transform[k as usize] = (2.0 * k as f32 + 0.25).to_bits();
        u.map_transform[k as usize] = f32::to_bits(k as f32 / 3.0);
    }
    let b = tile_map_args_to_bytes(&u);
    let back = tile_map_args_from_bytes(b.as_slice());
    assert_eq!(back, u);
}
