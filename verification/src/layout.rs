//! The binary layout contract: byte encodings of [`TileArgs`] and
//! [`TileMapArgs`] with the exact field order, offsets and sizes the shader
//! declares, and proofs that reading the bytes back through the same layout
//! reproduces every field.
//!
//! A vertex record is eleven 32-bit words packed tightly, little endian:
//! `u_offset` at byte 0, `v_offset` at 8, `tint` at 16, `tile_coordinate`
//! at 32, 44 bytes in all. The uniform block is four 16-word matrices at
//! bytes 0, 64, 128 and 192, the tile dimensions at 256, and 8 bytes of
//! padding that round the block up to its 16-byte alignment: 272 bytes.

use crate::pod::{TileArgs, TileMapArgs};
use vstd::bytes::{
    lemma_auto_spec_u32_to_from_le_bytes, spec_u32_from_le_bytes, spec_u32_to_le_bytes,
    u32_from_le_bytes, u32_to_le_bytes,
};
use vstd::prelude::*;
use vstd::slice::slice_subrange;

verus! {

/// Byte size of one serialized vertex record.
pub const TILE_ARGS_BYTES: usize = 44;

/// Byte size of the serialized uniform block, padding included.
pub const TILE_MAP_ARGS_BYTES: usize = 272;

/// Little-endian bytes of a word sequence, in order.
pub open spec fn words_to_bytes(s: Seq<u32>) -> Seq<u8>
    decreases s.len(),
{
    if s.len() == 0 {
        Seq::empty()
    } else {
        words_to_bytes(s.drop_last()) + spec_u32_to_le_bytes(s.last())
    }
}

/// The word starting at byte offset `4 * k`.
pub open spec fn word_at(b: Seq<u8>, k: int) -> u32
    recommends
        0 <= k,
        4 * k + 4 <= b.len(),
{
    spec_u32_from_le_bytes(b.subrange(4 * k, 4 * k + 4))
}

/// The eleven words of a vertex record, in shader order.
pub open spec fn tile_args_words(a: TileArgs) -> Seq<u32> {
    seq![
        a.u_offset.0,
        a.u_offset.1,
        a.v_offset.0,
        a.v_offset.1,
        a.tint.0,
        a.tint.1,
        a.tint.2,
        a.tint.3,
        a.tile_coordinate.0,
        a.tile_coordinate.1,
        a.tile_coordinate.2,
    ]
}

/// The 44-byte wire form of a vertex record.
pub open spec fn tile_args_bytes(a: TileArgs) -> Seq<u8> {
    words_to_bytes(tile_args_words(a))
}

/// The vertex record a 44-byte buffer holds.
pub open spec fn tile_args_of_bytes(b: Seq<u8>) -> TileArgs
    recommends
        b.len() == TILE_ARGS_BYTES,
{
    TileArgs {
        u_offset: (word_at(b, 0), word_at(b, 1)),
        v_offset: (word_at(b, 2), word_at(b, 3)),
        tint: (word_at(b, 4), word_at(b, 5), word_at(b, 6), word_at(b, 7)),
        tile_coordinate: (word_at(b, 8), word_at(b, 9), word_at(b, 10)),
    }
}

/// The 66 words of the uniform block, in shader order; the padding bytes
/// are not words of the block and follow separately.
pub open spec fn tile_map_args_words(u: TileMapArgs) -> Seq<u32> {
    u.proj@ + u.view@ + u.map_coordinate_transform@ + u.map_transform@ + u.sprite_dimensions@
}

/// The 272-byte wire form of the uniform block: 264 bytes of words, then
/// 8 zero bytes of padding up to the block's 16-byte alignment.
pub open spec fn tile_map_args_bytes(u: TileMapArgs) -> Seq<u8> {
    words_to_bytes(tile_map_args_words(u)) + Seq::new(8, |i: int| 0u8)
}

/// A word sequence serializes to four bytes per word.
pub proof fn lemma_words_to_bytes_len(s: Seq<u32>)
    ensures
        words_to_bytes(s).len() == 4 * s.len(),
    decreases s.len(),
{
    lemma_auto_spec_u32_to_from_le_bytes();
    if s.len() > 0 {
        lemma_words_to_bytes_len(s.drop_last());
    }
}

/// Word `k` of a serialized word sequence is the `k`-th word: the encoding
/// places word `k` at byte offset `4 * k`.
pub proof fn lemma_words_to_bytes_word_at(s: Seq<u32>, k: int)
    requires
        0 <= k < s.len(),
    ensures
        word_at(words_to_bytes(s), k) == s[k],
    decreases s.len(),
{
    lemma_auto_spec_u32_to_from_le_bytes();
    lemma_words_to_bytes_len(s.drop_last());
    let b = words_to_bytes(s);
    if k == s.len() - 1 {
        assert(b.subrange(4 * k, 4 * k + 4) =~= spec_u32_to_le_bytes(s.last()));
    } else {
        lemma_words_to_bytes_word_at(s.drop_last(), k);
        assert(b.subrange(4 * k, 4 * k + 4) =~= words_to_bytes(s.drop_last()).subrange(
            4 * k,
            4 * k + 4,
        ));
    }
}

/// Serializing a vertex record and reading the 44 bytes back through the
/// same layout reproduces every field exactly.
pub proof fn lemma_tile_args_round_trip(a: TileArgs)
    ensures
        tile_args_bytes(a).len() == TILE_ARGS_BYTES,
        tile_args_of_bytes(tile_args_bytes(a)) == a,
{
    let w = tile_args_words(a);
    lemma_words_to_bytes_len(w);
    assert forall|k: int| 0 <= k < 11 implies word_at(tile_args_bytes(a), k) == w[k] by {
        lemma_words_to_bytes_word_at(w, k);
    }
}

/// Serializing the uniform block and reading the 272 bytes back through the
/// same layout reproduces every field exactly: the matrices start at bytes
/// 0, 64, 128 and 192, the tile dimensions at 256, and the final 8 bytes
/// are zero padding.
pub proof fn lemma_tile_map_args_round_trip(u: TileMapArgs)
    ensures
        tile_map_args_bytes(u).len() == TILE_MAP_ARGS_BYTES,
        Seq::new(16, |k: int| word_at(tile_map_args_bytes(u), k)) == u.proj@,
        Seq::new(16, |k: int| word_at(tile_map_args_bytes(u), 16 + k)) == u.view@,
        Seq::new(16, |k: int| word_at(tile_map_args_bytes(u), 32 + k))
            == u.map_coordinate_transform@,
        Seq::new(16, |k: int| word_at(tile_map_args_bytes(u), 48 + k)) == u.map_transform@,
        Seq::new(2, |k: int| word_at(tile_map_args_bytes(u), 64 + k)) == u.sprite_dimensions@,
        forall|i: int| 264 <= i < 272 ==> tile_map_args_bytes(u)[i] == 0u8,
{
    let w = tile_map_args_words(u);
    let b = tile_map_args_bytes(u);
    assert(w.len() == 66);
    lemma_words_to_bytes_len(w);
    assert forall|k: int| 0 <= k < 66 implies word_at(b, k) == w[k] by {
        assert(b.subrange(4 * k, 4 * k + 4) =~= words_to_bytes(w).subrange(4 * k, 4 * k + 4));
        lemma_words_to_bytes_word_at(w, k);
    }
    assert(Seq::new(16, |k: int| word_at(b, k)) =~= u.proj@);
    assert(Seq::new(16, |k: int| word_at(b, 16 + k)) =~= u.view@);
    assert(Seq::new(16, |k: int| word_at(b, 32 + k)) =~= u.map_coordinate_transform@);
    assert(Seq::new(16, |k: int| word_at(b, 48 + k)) =~= u.map_transform@);
    assert(Seq::new(2, |k: int| word_at(b, 64 + k)) =~= u.sprite_dimensions@);
}

/// Little-endian bytes of each word of `words`, in order, as a fresh buffer.
fn words_to_vec(words: &[u32]) -> (r: Vec<u8>)
    ensures
        r@ == words_to_bytes(words@),
{
    let mut out: Vec<u8> = Vec::new();
    let mut i: usize = 0;
    while i < words.len()
        invariant
            i <= words@.len(),
            out@ == words_to_bytes(words@.take(i as int)),
        decreases words@.len() - i,
    {
        let b = u32_to_le_bytes(words[i]);
        out.push(b[0]);
        out.push(b[1]);
        out.push(b[2]);
        out.push(b[3]);
        proof {
            assert(words@.take(i as int + 1).drop_last() =~= words@.take(i as int));
            assert(out@ =~= words_to_bytes(words@.take(i as int + 1)));
        }
        i = i + 1;
    }
    proof {
        assert(words@.take(words@.len() as int) =~= words@);
    }
    out
}

/// The word at byte offset `off`.
fn read_word(b: &[u8], off: usize) -> (x: u32)
    requires
        off + 4 <= b@.len(),
    ensures
        x == spec_u32_from_le_bytes(b@.subrange(off as int, off as int + 4)),
{
    // Binding the length first puts the slice's size, and with it the bound
    // on `off + 4`, in scope for the overflow check.
    let n: usize = b.len();
    let s = slice_subrange(b, off, off + 4);
    u32_from_le_bytes(s)
}

/// Serializes one vertex record into its 44-byte wire form.
pub fn tile_args_to_bytes(a: &TileArgs) -> (r: Vec<u8>)
    ensures
        r@ == tile_args_bytes(*a),
        r@.len() == TILE_ARGS_BYTES,
{
    let mut words: Vec<u32> = Vec::new();
    words.push(a.u_offset.0);
    words.push(a.u_offset.1);
    words.push(a.v_offset.0);
    words.push(a.v_offset.1);
    words.push(a.tint.0);
    words.push(a.tint.1);
    words.push(a.tint.2);
    words.push(a.tint.3);
    words.push(a.tile_coordinate.0);
    words.push(a.tile_coordinate.1);
    words.push(a.tile_coordinate.2);
    proof {
        assert(words@ =~= tile_args_words(*a));
        lemma_words_to_bytes_len(tile_args_words(*a));
    }
    words_to_vec(words.as_slice())
}

/// Reads one vertex record back out of its 44-byte wire form.
pub fn tile_args_from_bytes(b: &[u8]) -> (a: TileArgs)
    requires
        b@.len() == TILE_ARGS_BYTES,
    ensures
        a == tile_args_of_bytes(b@),
{
    TileArgs {
        u_offset: (read_word(b, 0), read_word(b, 4)),
        v_offset: (read_word(b, 8), read_word(b, 12)),
        tint: (read_word(b, 16), read_word(b, 20), read_word(b, 24), read_word(b, 28)),
        tile_coordinate: (read_word(b, 32), read_word(b, 36), read_word(b, 40)),
    }
}

/// Serializes the uniform block into its 272-byte wire form, padding
/// included.
pub fn tile_map_args_to_bytes(u: &TileMapArgs) -> (r: Vec<u8>)
    ensures
        r@ == tile_map_args_bytes(*u),
        r@.len() == TILE_MAP_ARGS_BYTES,
{
    let mut words: Vec<u32> = Vec::new();
    let mut i: usize = 0;
    while i < 16
        invariant
            i <= 16,
            words@ == u.proj@.take(i as int),
        decreases 16 - i,
    {
        words.push(u.proj[i]);
        i = i + 1;
    }
    proof {
        assert(words@ =~= u.proj@);
    }
    let mut i: usize = 0;
    while i < 16
        invariant
            i <= 16,
            words@ == u.proj@ + u.view@.take(i as int),
        decreases 16 - i,
    {
        words.push(u.view[i]);
        i = i + 1;
    }
    let mut i: usize = 0;
    while i < 16
        invariant
            i <= 16,
            words@ == u.proj@ + u.view@ + u.map_coordinate_transform@.take(i as int),
        decreases 16 - i,
    {
        words.push(u.map_coordinate_transform[i]);
        i = i + 1;
    }
    let mut i: usize = 0;
    while i < 16
        invariant
            i <= 16,
            words@ == u.proj@ + u.view@ + u.map_coordinate_transform@ + u.map_transform@.take(
                i as int,
            ),
        decreases 16 - i,
    {
        words.push(u.map_transform[i]);
        i = i + 1;
    }
    words.push(u.sprite_dimensions[0]);
    words.push(u.sprite_dimensions[1]);
    proof {
        assert(words@ =~= tile_map_args_words(*u));
        lemma_words_to_bytes_len(tile_map_args_words(*u));
    }
    let mut out = words_to_vec(words.as_slice());
    let mut j: usize = 0;
    while j < 8
        invariant
            j <= 8,
            out@ == words_to_bytes(tile_map_args_words(*u)) + Seq::new(j as nat, |i: int| 0u8),
        decreases 8 - j,
    {
        out.push(0u8);
        proof {
            assert(out@ =~= words_to_bytes(tile_map_args_words(*u)) + Seq::new(
                j as nat + 1,
                |i: int| 0u8,
            ));
        }
        j = j + 1;
    }
    proof {
        lemma_words_to_bytes_len(tile_map_args_words(*u));
        assert(tile_map_args_words(*u).len() == 66);
        assert(out@ =~= tile_map_args_bytes(*u));
    }
    out
}

/// Reads the uniform block's fields back out of its 272-byte wire form;
/// the padding bytes carry no data and are ignored.
pub fn tile_map_args_from_bytes(b: &[u8]) -> (u: TileMapArgs)
    requires
        b@.len() == TILE_MAP_ARGS_BYTES,
    ensures
        u.proj@ == Seq::new(16, |k: int| word_at(b@, k)),
        u.view@ == Seq::new(16, |k: int| word_at(b@, 16 + k)),
        u.map_coordinate_transform@ == Seq::new(16, |k: int| word_at(b@, 32 + k)),
        u.map_transform@ == Seq::new(16, |k: int| word_at(b@, 48 + k)),
        u.sprite_dimensions@ == Seq::new(2, |k: int| word_at(b@, 64 + k)),
{
    let proj = read_matrix(b, 0);
    let view = read_matrix(b, 16);
    let map_coordinate_transform = read_matrix(b, 32);
    let map_transform = read_matrix(b, 48);
    let d0: u32 = read_word(b, 256);
    let d1: u32 = read_word(b, 260);
    proof {
        assert(Seq::new(2, |k: int| word_at(b@, 64 + k)) =~= seq![word_at(b@, 64), word_at(
            b@,
            65,
        )]);
    }
    TileMapArgs {
        proj,
        view,
        map_coordinate_transform,
        map_transform,
        sprite_dimensions: [d0, d1],
    }
}

/// The sixteen words starting at word offset `base`.
fn read_matrix(b: &[u8], base: usize) -> (m: [u32; 16])
    requires
        4 * (base + 16) <= b@.len(),
    ensures
        m@ == Seq::new(16, |k: int| word_at(b@, base + k)),
{
    let n: usize = b.len();
    let mut m: [u32; 16] = [0; 16];
    let mut i: usize = 0;
    while i < 16
        invariant
            i <= 16,
            n == b@.len(),
            4 * (base + 16) <= n,
            forall|k: int| 0 <= k < i ==> m@[k] == word_at(b@, base + k),
        decreases 16 - i,
    {
        m[i] = read_word(b, 4 * (base + i));
        i = i + 1;
    }
    proof {
        assert(m@ =~= Seq::new(16, |k: int| word_at(b@, base + k)));
    }
    m
}

} // verus!
