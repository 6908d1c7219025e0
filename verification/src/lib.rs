//! Fixed-layout GPU data for a tile renderer.
//!
//! Two value types cross the boundary to the GPU: [`pod::TileMapArgs`], the
//! per-draw-call uniform block (camera, view and map transforms plus the tile
//! dimensions), and [`pod::TileArgs`], the per-tile vertex record (sprite
//! texture coordinates, tint and grid position). Their byte layout has to
//! match the shader's declarations bit for bit, so every scalar is kept as
//! the 32-bit pattern of the IEEE 754 single-precision value it stands for,
//! and [`layout`] states and proves the exact offsets and sizes.
//!
//! [`float_bits`] supplies the one numeric conversion the builder needs:
//! turning an integer grid coordinate into the bit pattern of the nearest
//! single-precision value, exact over the format's exact-integer range.

pub mod float_bits;
pub mod layout;
pub mod pod;
