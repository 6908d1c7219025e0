//! Plain-old-data types the GPU pipeline consumes, and the builder that
//! fills a vertex record from sprite-sheet and registry state.
//!
//! Every scalar that the shader reads as single precision is held as its
//! 32-bit IEEE 754 bit pattern, so the byte layout in [`crate::layout`] is a
//! statement about plain integers.

use crate::float_bits::{single_bits_from_u32, single_bits_of_uint, ONE_BITS};
use vstd::prelude::*;

verus! {

/// Reference to one texture resource, by registry identifier.
#[derive(Clone, Copy, Debug, PartialEq, Eq, Structural, Hash)]
pub struct TextureHandle {
    pub id: u64,
}

/// The texture registry as the builder sees it: the set of identifiers whose
/// resources are currently loaded. The surrounding system owns and mutates
/// the real storage; one `from_data` call only asks for presence.
pub struct TextureStorage {
    pub loaded: Vec<u64>,
}

impl TextureStorage {
    /// Whether the registry currently holds the resource with identifier
    /// `id`.
    pub open spec fn spec_contains(self, id: u64) -> bool {
        self.loaded@.contains(id)
    }

    /// Whether the resource behind `handle` is currently loaded.
    pub fn contains(&self, handle: &TextureHandle) -> (r: bool)
        ensures
            r == self.spec_contains(handle.id),
    {
        let mut i: usize = 0;
        while i < self.loaded.len()
            invariant
                i <= self.loaded@.len(),
                forall|j: int| 0 <= j < i ==> self.loaded@[j] != handle.id,
            decreases self.loaded@.len() - i,
        {
            if self.loaded[i] == handle.id {
                return true;
            }
            i = i + 1;
        }
        false
    }
}

/// One sprite's texture rectangle within its sheet: the four normalized
/// coordinate scalars, as single-precision bit patterns.
#[derive(Clone, Copy, Debug, PartialEq, Eq, Structural)]
pub struct SpriteRect {
    pub left: u32,
    pub top: u32,
    pub right: u32,
    pub bottom: u32,
}

/// A sprite sheet: an ordered list of sprite rectangles and the texture
/// resource they index into.
pub struct SpriteSheet {
    pub texture: TextureHandle,
    pub sprites: Vec<SpriteRect>,
}

/// A multiplicative tint: four normalized color channels (red, green, blue,
/// alpha), as single-precision bit patterns.
#[derive(Clone, Copy, Debug, PartialEq, Eq, Structural)]
pub struct Tint {
    pub red: u32,
    pub green: u32,
    pub blue: u32,
    pub alpha: u32,
}

/// An integer tile grid coordinate.
#[derive(Clone, Copy, Debug, PartialEq, Eq, Structural)]
pub struct GridPoint {
    pub x: u32,
    pub y: u32,
    pub z: u32,
}

/// Per-draw-call uniform block: four column-major 4x4 matrices and the tile
/// dimensions, each scalar a single-precision bit pattern. Any value is
/// well formed; the layout obligations live in [`crate::layout`].
#[derive(Clone, Copy, Debug, PartialEq)]
pub struct TileMapArgs {
    /// Projection matrix.
    pub proj: [u32; 16],
    /// View matrix.
    pub view: [u32; 16],
    /// Maps tile grid coordinates to world space.
    pub map_coordinate_transform: [u32; 16],
    /// World placement of the whole tile map.
    pub map_transform: [u32; 16],
    /// Width and height of one tile in world units, uniform across the map.
    pub sprite_dimensions: [u32; 2],
}

/// Per-tile vertex record, built once per rendered tile quad. Each pair,
/// quadruple and triple of scalars is one vertex attribute.
#[derive(Clone, Copy, Debug, PartialEq, Eq)]
pub struct TileArgs {
    /// Top-left texture coordinate of the sprite within the sheet.
    pub u_offset: (u32, u32),
    /// Bottom-right texture coordinate of the sprite within the sheet.
    pub v_offset: (u32, u32),
    /// Multiplicative tint (red, green, blue, alpha); opaque white when no
    /// tint was supplied.
    pub tint: (u32, u32, u32, u32),
    /// The tile's grid coordinate, each component encoded in single
    /// precision.
    pub tile_coordinate: (u32, u32, u32),
}

/// One vertex attribute of [`TileArgs`]: how many 32-bit channels it has and
/// at which byte offset within the record it starts.
#[derive(Clone, Copy, Debug, PartialEq, Eq, Structural)]
pub struct VertexAttribute {
    pub channels: usize,
    pub offset: usize,
}

/// The declared attribute layout of a vertex record: the attributes in
/// shader order, and the byte stride from one record to the next.
pub struct VertexFormat {
    pub attributes: Vec<VertexAttribute>,
    pub stride: usize,
}

impl TileArgs {
    /// The attribute layout the shader declares for this record: two
    /// two-channel texture-coordinate attributes, a four-channel tint and a
    /// three-channel grid coordinate, tightly packed in that order.
    pub fn vertex() -> (f: VertexFormat)
        ensures
            f.attributes@.len() == 4,
            f.attributes@[0] == (VertexAttribute { channels: 2, offset: 0 }),
            f.attributes@[1] == (VertexAttribute { channels: 2, offset: 8 }),
            f.attributes@[2] == (VertexAttribute { channels: 4, offset: 16 }),
            f.attributes@[3] == (VertexAttribute { channels: 3, offset: 32 }),
            f.stride == 44,
    {
        let mut attributes: Vec<VertexAttribute> = Vec::new();
        attributes.push(VertexAttribute { channels: 2, offset: 0 });
        attributes.push(VertexAttribute { channels: 2, offset: 8 });
        attributes.push(VertexAttribute { channels: 4, offset: 16 });
        attributes.push(VertexAttribute { channels: 3, offset: 32 });
        VertexFormat { attributes, stride: 44 }
    }

    /// Builds the vertex record for one tile, together with the handle of
    /// the texture the caller must bind for it.
    ///
    /// Yields a record exactly when the sheet's texture is loaded; an absent
    /// texture means "not yet renderable" and the caller skips the tile for
    /// this frame. The record copies the selected sprite's rectangle into
    /// `u_offset`/`v_offset` unchanged, decomposes the tint (or falls back
    /// to opaque white), and encodes the grid coordinate in single
    /// precision.
    pub fn from_data(
        tex_storage: &TextureStorage,
        sprite_sheet: &SpriteSheet,
        sprite_number: usize,
        tint: Option<&Tint>,
        tile_coordinate: &GridPoint,
    ) -> (r: Option<(TileArgs, TextureHandle)>)
        requires
            sprite_number < sprite_sheet.sprites@.len(),
        ensures
            r is Some <==> tex_storage.spec_contains(sprite_sheet.texture.id),
            r matches Some((args, texture)) ==> {
                let rect = sprite_sheet.sprites@[sprite_number as int];
                &&& args.u_offset == (rect.left, rect.top)
                &&& args.v_offset == (rect.right, rect.bottom)
                &&& args.tint == (match tint {
                    Some(t) => (t.red, t.green, t.blue, t.alpha),
                    None => (ONE_BITS, ONE_BITS, ONE_BITS, ONE_BITS),
                })
                &&& args.tile_coordinate == (
                    single_bits_of_uint(tile_coordinate.x as nat),
                    single_bits_of_uint(tile_coordinate.y as nat),
                    single_bits_of_uint(tile_coordinate.z as nat),
                )
                &&& texture == sprite_sheet.texture
            },
    {
        if !tex_storage.contains(&sprite_sheet.texture) {
            return None;
        }

        let sprite = &sprite_sheet.sprites[sprite_number];

        Some(
            (
                TileArgs {
                    u_offset: (sprite.left, sprite.top),
                    v_offset: (sprite.right, sprite.bottom),
                    tint: match tint {
                        Some(t) => (t.red, t.green, t.blue, t.alpha),
                        None => (ONE_BITS, ONE_BITS, ONE_BITS, ONE_BITS),
                    },
                    tile_coordinate: (
                        single_bits_from_u32(tile_coordinate.x),
                        single_bits_from_u32(tile_coordinate.y),
                        single_bits_from_u32(tile_coordinate.z),
                    ),
                },
                sprite_sheet.texture,
            ),
        )
    }
}

} // verus!
