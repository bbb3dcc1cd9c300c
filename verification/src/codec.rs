//! The byte format of the persistence subsystem: a length-prefixed, tagged,
//! little-endian encoding with one encoder and one decoder per stored
//! structure, and a proof for each pair that decoding inverts encoding.
//! Every optional cell round-trips as a distinguishable empty marker, never
//! as zero-valued data.

use vstd::prelude::*;

verus! {

use vstd::bytes::{
    lemma_auto_spec_u32_to_from_le_bytes, lemma_auto_spec_u64_to_from_le_bytes,
    spec_u32_from_le_bytes, spec_u32_to_le_bytes, spec_u64_from_le_bytes, spec_u64_to_le_bytes,
    u32_from_le_bytes, u32_to_le_bytes, u64_from_le_bytes, u64_to_le_bytes,
};
use vstd::slice::slice_subrange;
use crate::MAX_LAYER_COUNT;
use crate::tile::{anim_wf, serialized_tile_wf, AnimatedTile, Color4, SerializedTile, TileType};

/// How an exec decoder's result must mirror its specification: same
/// success, same value, same next position.
pub open spec fn dec_matches<T>(s: Option<(T, int)>, r: Option<(T, usize)>) -> bool {
    match (s, r) {
        (Some(sv), Some(rv)) => rv.0 == sv.0 && rv.1 as int == sv.1,
        (None, None) => true,
        _ => false,
    }
}

/// A byte span of `d` equal to a concatenation splits into spans equal to
/// the parts.
pub proof fn lemma_split(d: Seq<u8>, pos: int, a: Seq<u8>, b: Seq<u8>)
    requires
        0 <= pos,
        pos + a.len() + b.len() <= d.len(),
        d.subrange(pos, pos + a.len() + b.len()) == a + b,
    ensures
        d.subrange(pos, pos + a.len()) == a,
        d.subrange(pos + a.len(), pos + a.len() + b.len()) == b,
{
    let ab = d.subrange(pos, pos + a.len() + b.len());
    assert(d.subrange(pos, pos + a.len()) =~= a) by {
        assert forall|i: int| 0 <= i < a.len() implies d.subrange(pos, pos + a.len())[i]
            == a[i] by {
            assert(ab[i] == (a + b)[i]);
        }
    }
    assert(d.subrange(pos + a.len(), pos + a.len() + b.len()) =~= b) by {
        assert forall|i: int| 0 <= i < b.len() implies d.subrange(
            pos + a.len(),
            pos + a.len() + b.len(),
        )[i] == b[i] by {
            assert(ab[a.len() + i] == (a + b)[a.len() + i]);
        }
    }
}

// ---------------------------------------------------------------------------
// Primitives: bytes, little-endian words, booleans.
// ---------------------------------------------------------------------------

pub open spec fn enc_u8(v: u8) -> Seq<u8> {
    seq![v]
}

pub open spec fn dec_u8(d: Seq<u8>, pos: int) -> Option<(u8, int)> {
    if 0 <= pos && pos + 1 <= d.len() {
        Some((d[pos], pos + 1))
    } else {
        None
    }
}

pub open spec fn enc_u32(v: u32) -> Seq<u8> {
    spec_u32_to_le_bytes(v)
}

pub open spec fn dec_u32(d: Seq<u8>, pos: int) -> Option<(u32, int)> {
    if 0 <= pos && pos + 4 <= d.len() {
        Some((spec_u32_from_le_bytes(d.subrange(pos, pos + 4)), pos + 4))
    } else {
        None
    }
}

pub open spec fn enc_u64(v: u64) -> Seq<u8> {
    spec_u64_to_le_bytes(v)
}

pub open spec fn dec_u64(d: Seq<u8>, pos: int) -> Option<(u64, int)> {
    if 0 <= pos && pos + 8 <= d.len() {
        Some((spec_u64_from_le_bytes(d.subrange(pos, pos + 8)), pos + 8))
    } else {
        None
    }
}

pub open spec fn enc_bool(v: bool) -> Seq<u8> {
    if v {
        seq![1u8]
    } else {
        seq![0u8]
    }
}

pub open spec fn dec_bool(d: Seq<u8>, pos: int) -> Option<(bool, int)> {
    match dec_u8(d, pos) {
        None => None,
        Some((b, p)) => if b == 0 {
            Some((false, p))
        } else if b == 1 {
            Some((true, p))
        } else {
            None
        },
    }
}

pub proof fn lemma_dec_enc_u8(d: Seq<u8>, pos: int, v: u8)
    requires
        0 <= pos,
        pos + 1 <= d.len(),
        d.subrange(pos, pos + 1) == enc_u8(v),
    ensures
        dec_u8(d, pos) == Some((v, pos + 1)),
{
    assert(d[pos] == d.subrange(pos, pos + 1)[0]);
}

pub proof fn lemma_dec_enc_u32(d: Seq<u8>, pos: int, v: u32)
    requires
        0 <= pos,
        pos + enc_u32(v).len() <= d.len(),
        d.subrange(pos, pos + enc_u32(v).len()) == enc_u32(v),
    ensures
        enc_u32(v).len() == 4,
        dec_u32(d, pos) == Some((v, pos + 4)),
{
    lemma_auto_spec_u32_to_from_le_bytes();
}

pub proof fn lemma_dec_enc_u64(d: Seq<u8>, pos: int, v: u64)
    requires
        0 <= pos,
        pos + enc_u64(v).len() <= d.len(),
        d.subrange(pos, pos + enc_u64(v).len()) == enc_u64(v),
    ensures
        enc_u64(v).len() == 8,
        dec_u64(d, pos) == Some((v, pos + 8)),
{
    lemma_auto_spec_u64_to_from_le_bytes();
}

pub proof fn lemma_dec_enc_bool(d: Seq<u8>, pos: int, v: bool)
    requires
        0 <= pos,
        pos + 1 <= d.len(),
        d.subrange(pos, pos + 1) == enc_bool(v),
    ensures
        dec_bool(d, pos) == Some((v, pos + 1)),
{
    assert(d[pos] == d.subrange(pos, pos + 1)[0]);
}

/// Append one byte.
pub fn put_u8(out: &mut Vec<u8>, v: u8)
    ensures
        final(out)@ == old(out)@ + enc_u8(v),
{
    out.push(v);
    proof {
        assert(out@ =~= old(out)@ + enc_u8(v));
    }
}

/// Append a 32-bit word, little endian.
pub fn put_u32(out: &mut Vec<u8>, v: u32)
    ensures
        final(out)@ == old(out)@ + enc_u32(v),
{
    let mut bytes = u32_to_le_bytes(v);
    out.append(&mut bytes);
}

/// Append a 64-bit word, little endian.
pub fn put_u64(out: &mut Vec<u8>, v: u64)
    ensures
        final(out)@ == old(out)@ + enc_u64(v),
{
    let mut bytes = u64_to_le_bytes(v);
    out.append(&mut bytes);
}

/// Append a boolean as one tag byte.
pub fn put_bool(out: &mut Vec<u8>, v: bool)
    ensures
        final(out)@ == old(out)@ + enc_bool(v),
{
    if v {
        put_u8(out, 1);
    } else {
        put_u8(out, 0);
    }
}

/// Read one byte.
pub fn get_u8(d: &Vec<u8>, pos: usize) -> (r: Option<(u8, usize)>)
    ensures
        dec_matches(dec_u8(d@, pos as int), r),
{
    if pos < d.len() {
        Some((d[pos], pos + 1))
    } else {
        None
    }
}

/// Read a 32-bit word, little endian.
pub fn get_u32(d: &Vec<u8>, pos: usize) -> (r: Option<(u32, usize)>)
    ensures
        dec_matches(dec_u32(d@, pos as int), r),
{
    if pos <= d.len() && d.len() - pos >= 4 {
        let s = slice_subrange(d.as_slice(), pos, pos + 4);
        Some((u32_from_le_bytes(s), pos + 4))
    } else {
        None
    }
}

/// Read a 64-bit word, little endian.
pub fn get_u64(d: &Vec<u8>, pos: usize) -> (r: Option<(u64, usize)>)
    ensures
        dec_matches(dec_u64(d@, pos as int), r),
{
    if pos <= d.len() && d.len() - pos >= 8 {
        let s = slice_subrange(d.as_slice(), pos, pos + 8);
        Some((u64_from_le_bytes(s), pos + 8))
    } else {
        None
    }
}

/// Read a boolean tag byte; any value other than the two tags is malformed.
pub fn get_bool(d: &Vec<u8>, pos: usize) -> (r: Option<(bool, usize)>)
    ensures
        dec_matches(dec_bool(d@, pos as int), r),
{
    match get_u8(d, pos) {
        None => None,
        Some((b, p)) => {
            if b == 0 {
                Some((false, p))
            } else if b == 1 {
                Some((true, p))
            } else {
                None
            }
        },
    }
}

// ---------------------------------------------------------------------------
// Tile attributes: texture-layer slots, colors, animations.
// ---------------------------------------------------------------------------

/// One texture-layer slot: a tag byte marking the slot used, then the
/// non-negative index. The unused sentinel is stored as the bare tag.
pub open spec fn enc_slot(v: i32) -> Seq<u8> {
    if v < 0 {
        seq![0u8]
    } else {
        seq![1u8] + enc_u32(v as u32)
    }
}

pub open spec fn dec_slot(d: Seq<u8>, pos: int) -> Option<(i32, int)> {
    match dec_u8(d, pos) {
        None => None,
        Some((tag, p)) => if tag == 0 {
            Some((-1i32, p))
        } else if tag == 1 {
            match dec_u32(d, p) {
                None => None,
                Some((v, p2)) => if v <= i32::MAX as u32 {
                    Some((v as i32, p2))
                } else {
                    None
                },
            }
        } else {
            None
        },
    }
}

pub proof fn lemma_dec_enc_slot(d: Seq<u8>, pos: int, v: i32)
    requires
        v >= -1,
        0 <= pos,
        pos + enc_slot(v).len() <= d.len(),
        d.subrange(pos, pos + enc_slot(v).len()) == enc_slot(v),
    ensures
        dec_slot(d, pos) == Some((v, pos + enc_slot(v).len())),
{
    lemma_auto_spec_u32_to_from_le_bytes();
    if v < 0 {
        lemma_dec_enc_u8(d, pos, 0);
    } else {
        lemma_split(d, pos, seq![1u8], enc_u32(v as u32));
        lemma_dec_enc_u8(d, pos, 1);
        lemma_dec_enc_u32(d, pos + 1, v as u32);
    }
}

pub fn put_slot(out: &mut Vec<u8>, v: i32)
    ensures
        final(out)@ == old(out)@ + enc_slot(v),
{
    if v < 0 {
        put_u8(out, 0);
    } else {
        put_u8(out, 1);
        put_u32(out, v as u32);
        proof {
            assert(out@ =~= old(out)@ + enc_slot(v));
        }
    }
}

pub fn get_slot(d: &Vec<u8>, pos: usize) -> (r: Option<(i32, usize)>)
    ensures
        dec_matches(dec_slot(d@, pos as int), r),
{
    match get_u8(d, pos) {
        None => None,
        Some((tag, p)) => {
            if tag == 0 {
                Some((-1, p))
            } else if tag == 1 {
                match get_u32(d, p) {
                    None => None,
                    Some((v, p2)) => {
                        if v <= i32::MAX as u32 {
                            Some((v as i32, p2))
                        } else {
                            None
                        }
                    },
                }
            } else {
                None
            }
        },
    }
}

/// A tint: the four channel bit patterns in order.
pub open spec fn enc_color(c: Color4) -> Seq<u8> {
    enc_u32(c.r) + enc_u32(c.g) + enc_u32(c.b) + enc_u32(c.a)
}

pub open spec fn dec_color(d: Seq<u8>, pos: int) -> Option<(Color4, int)> {
    match dec_u32(d, pos) {
        None => None,
        Some((r, p1)) => match dec_u32(d, p1) {
            None => None,
            Some((g, p2)) => match dec_u32(d, p2) {
                None => None,
                Some((b, p3)) => match dec_u32(d, p3) {
                    None => None,
                    Some((a, p4)) => Some((Color4 { r, g, b, a }, p4)),
                },
            },
        },
    }
}

pub proof fn lemma_dec_enc_color(d: Seq<u8>, pos: int, c: Color4)
    requires
        0 <= pos,
        pos + enc_color(c).len() <= d.len(),
        d.subrange(pos, pos + enc_color(c).len()) == enc_color(c),
    ensures
        enc_color(c).len() == 16,
        dec_color(d, pos) == Some((c, pos + 16)),
{
    lemma_auto_spec_u32_to_from_le_bytes();
    let er = enc_u32(c.r);
    let eg = enc_u32(c.g);
    let eb = enc_u32(c.b);
    let ea = enc_u32(c.a);
    assert(enc_color(c) =~= er + (eg + (eb + ea)));
    lemma_split(d, pos, er, eg + (eb + ea));
    lemma_split(d, pos + 4, eg, eb + ea);
    lemma_split(d, pos + 8, eb, ea);
    lemma_dec_enc_u32(d, pos, c.r);
    lemma_dec_enc_u32(d, pos + 4, c.g);
    lemma_dec_enc_u32(d, pos + 8, c.b);
    lemma_dec_enc_u32(d, pos + 12, c.a);
}

pub fn put_color(out: &mut Vec<u8>, c: Color4)
    ensures
        final(out)@ == old(out)@ + enc_color(c),
{
    put_u32(out, c.r);
    put_u32(out, c.g);
    put_u32(out, c.b);
    put_u32(out, c.a);
    proof {
        assert(out@ =~= old(out)@ + enc_color(c));
    }
}

pub fn get_color(d: &Vec<u8>, pos: usize) -> (r: Option<(Color4, usize)>)
    ensures
        dec_matches(dec_color(d@, pos as int), r),
{
    let (cr, p1) = match get_u32(d, pos) {
        Some(x) => x,
        None => {
            return None;
        },
    };
    let (cg, p2) = match get_u32(d, p1) {
        Some(x) => x,
        None => {
            return None;
        },
    };
    let (cb, p3) = match get_u32(d, p2) {
        Some(x) => x,
        None => {
            return None;
        },
    };
    let (ca, p4) = match get_u32(d, p3) {
        Some(x) => x,
        None => {
            return None;
        },
    };
    Some((Color4 { r: cr, g: cg, b: cb, a: ca }, p4))
}

/// An animation record: target layer, sequence addressing, rate bits, loop
/// flag.
pub open spec fn enc_anim(a: AnimatedTile) -> Seq<u8> {
    enc_u8(a.layer as u8) + enc_u32(a.sequence_start) + enc_u32(a.sequence_length) + enc_u32(
        a.fps_bits,
    ) + enc_bool(a.is_loop)
}

pub open spec fn dec_anim(d: Seq<u8>, pos: int) -> Option<(AnimatedTile, int)> {
    match dec_u8(d, pos) {
        None => None,
        Some((layer, p1)) => if layer as usize >= MAX_LAYER_COUNT {
            None
        } else {
            match dec_u32(d, p1) {
                None => None,
                Some((sequence_start, p2)) => match dec_u32(d, p2) {
                    None => None,
                    Some((sequence_length, p3)) => match dec_u32(d, p3) {
                        None => None,
                        Some((fps_bits, p4)) => match dec_bool(d, p4) {
                            None => None,
                            Some((is_loop, p5)) => Some(
                                (
                                    AnimatedTile {
                                        layer: layer as usize,
                                        sequence_start,
                                        sequence_length,
                                        fps_bits,
                                        is_loop,
                                    },
                                    p5,
                                ),
                            ),
                        },
                    },
                },
            }
        },
    }
}

pub proof fn lemma_dec_enc_anim(d: Seq<u8>, pos: int, a: AnimatedTile)
    requires
        anim_wf(a),
        0 <= pos,
        pos + enc_anim(a).len() <= d.len(),
        d.subrange(pos, pos + enc_anim(a).len()) == enc_anim(a),
    ensures
        enc_anim(a).len() == 14,
        dec_anim(d, pos) == Some((a, pos + 14)),
{
    lemma_auto_spec_u32_to_from_le_bytes();
    let e0 = enc_u8(a.layer as u8);
    let e1 = enc_u32(a.sequence_start);
    let e2 = enc_u32(a.sequence_length);
    let e3 = enc_u32(a.fps_bits);
    let e4 = enc_bool(a.is_loop);
    assert(enc_anim(a) =~= e0 + (e1 + (e2 + (e3 + e4))));
    lemma_split(d, pos, e0, e1 + (e2 + (e3 + e4)));
    lemma_split(d, pos + 1, e1, e2 + (e3 + e4));
    lemma_split(d, pos + 5, e2, e3 + e4);
    lemma_split(d, pos + 9, e3, e4);
    lemma_dec_enc_u8(d, pos, a.layer as u8);
    lemma_dec_enc_u32(d, pos + 1, a.sequence_start);
    lemma_dec_enc_u32(d, pos + 5, a.sequence_length);
    lemma_dec_enc_u32(d, pos + 9, a.fps_bits);
    lemma_dec_enc_bool(d, pos + 13, a.is_loop);
}

pub fn put_anim(out: &mut Vec<u8>, a: &AnimatedTile)
    requires
        anim_wf(*a),
    ensures
        final(out)@ == old(out)@ + enc_anim(*a),
{
    put_u8(out, a.layer as u8);
    put_u32(out, a.sequence_start);
    put_u32(out, a.sequence_length);
    put_u32(out, a.fps_bits);
    put_bool(out, a.is_loop);
    proof {
        assert(out@ =~= old(out)@ + enc_anim(*a));
    }
}

pub fn get_anim(d: &Vec<u8>, pos: usize) -> (r: Option<(AnimatedTile, usize)>)
    ensures
        dec_matches(dec_anim(d@, pos as int), r),
{
    let (layer, p1) = match get_u8(d, pos) {
        Some(x) => x,
        None => {
            return None;
        },
    };
    if layer as usize >= MAX_LAYER_COUNT {
        return None;
    }
    let (sequence_start, p2) = match get_u32(d, p1) {
        Some(x) => x,
        None => {
            return None;
        },
    };
    let (sequence_length, p3) = match get_u32(d, p2) {
        Some(x) => x,
        None => {
            return None;
        },
    };
    let (fps_bits, p4) = match get_u32(d, p3) {
        Some(x) => x,
        None => {
            return None;
        },
    };
    let (is_loop, p5) = match get_bool(d, p4) {
        Some(x) => x,
        None => {
            return None;
        },
    };
    Some(
        (
            AnimatedTile {
                layer: layer as usize,
                sequence_start,
                sequence_length,
                fps_bits,
                is_loop,
            },
            p5,
        ),
    )
}

// ---------------------------------------------------------------------------
// Optional animation and whole tile records.
// ---------------------------------------------------------------------------

pub open spec fn enc_opt_anim(a: Option<AnimatedTile>) -> Seq<u8> {
    match a {
        None => seq![0u8],
        Some(v) => seq![1u8] + enc_anim(v),
    }
}

pub open spec fn dec_opt_anim(d: Seq<u8>, pos: int) -> Option<(Option<AnimatedTile>, int)> {
    match dec_u8(d, pos) {
        None => None,
        Some((tag, p)) => if tag == 0 {
            Some((None::<AnimatedTile>, p))
        } else if tag == 1 {
            match dec_anim(d, p) {
                None => None,
                Some((a, p2)) => Some((Some(a), p2)),
            }
        } else {
            None
        },
    }
}

pub proof fn lemma_dec_enc_opt_anim(d: Seq<u8>, pos: int, a: Option<AnimatedTile>)
    requires
        a is Some ==> anim_wf(a->0),
        0 <= pos,
        pos + enc_opt_anim(a).len() <= d.len(),
        d.subrange(pos, pos + enc_opt_anim(a).len()) == enc_opt_anim(a),
    ensures
        dec_opt_anim(d, pos) == Some((a, pos + enc_opt_anim(a).len())),
{
    match a {
        None => {
            lemma_dec_enc_u8(d, pos, 0);
        },
        Some(v) => {
            lemma_split(d, pos, seq![1u8], enc_anim(v));
            lemma_dec_enc_u8(d, pos, 1);
            lemma_dec_enc_anim(d, pos + 1, v);
        },
    }
}

pub fn put_opt_anim(out: &mut Vec<u8>, a: &Option<AnimatedTile>)
    requires
        a is Some ==> anim_wf(a->0),
    ensures
        final(out)@ == old(out)@ + enc_opt_anim(*a),
{
    match a {
        None => put_u8(out, 0),
        Some(v) => {
            put_u8(out, 1);
            put_anim(out, v);
            proof {
                assert(out@ =~= old(out)@ + enc_opt_anim(*a));
            }
        },
    }
}

pub fn get_opt_anim(d: &Vec<u8>, pos: usize) -> (r: Option<(Option<AnimatedTile>, usize)>)
    ensures
        dec_matches(dec_opt_anim(d@, pos as int), r),
{
    match get_u8(d, pos) {
        None => None,
        Some((tag, p)) => {
            if tag == 0 {
                Some((None, p))
            } else if tag == 1 {
                match get_anim(d, p) {
                    None => None,
                    Some((a, p2)) => Some((Some(a), p2)),
                }
            } else {
                None
            }
        },
    }
}

/// A persisted tile: its four layer slots, the topmost populated layer, the
/// tint and the optional animation.
pub open spec fn enc_tile(t: SerializedTile) -> Seq<u8> {
    enc_slot(t.texture_indices[0]) + enc_slot(t.texture_indices[1]) + enc_slot(
        t.texture_indices[2],
    ) + enc_slot(t.texture_indices[3]) + enc_u8(t.top_layer as u8) + enc_color(t.color)
        + enc_opt_anim(t.anim)
}

pub open spec fn dec_tile(d: Seq<u8>, pos: int) -> Option<(SerializedTile, int)> {
    match dec_slot(d, pos) {
        None => None,
        Some((s0, p1)) => match dec_slot(d, p1) {
            None => None,
            Some((s1, p2)) => match dec_slot(d, p2) {
                None => None,
                Some((s2, p3)) => match dec_slot(d, p3) {
                    None => None,
                    Some((s3, p4)) => match dec_u8(d, p4) {
                        None => None,
                        Some((top, p5)) => if top as usize >= MAX_LAYER_COUNT {
                            None
                        } else {
                            match dec_color(d, p5) {
                                None => None,
                                Some((color, p6)) => match dec_opt_anim(d, p6) {
                                    None => None,
                                    Some((anim, p7)) => Some(
                                        (
                                            SerializedTile {
                                                texture_indices: [s0, s1, s2, s3],
                                                top_layer: top as usize,
                                                color,
                                                anim,
                                            },
                                            p7,
                                        ),
                                    ),
                                },
                            }
                        },
                    },
                },
            },
        },
    }
}

#[verifier::rlimit(60)]
pub proof fn lemma_dec_enc_tile(d: Seq<u8>, pos: int, t: SerializedTile)
    requires
        serialized_tile_wf(t),
        0 <= pos,
        pos + enc_tile(t).len() <= d.len(),
        d.subrange(pos, pos + enc_tile(t).len()) == enc_tile(t),
    ensures
        dec_tile(d, pos) == Some((t, pos + enc_tile(t).len())),
{
    let e0 = enc_slot(t.texture_indices[0]);
    let e1 = enc_slot(t.texture_indices[1]);
    let e2 = enc_slot(t.texture_indices[2]);
    let e3 = enc_slot(t.texture_indices[3]);
    let e4 = enc_u8(t.top_layer as u8);
    let e5 = enc_color(t.color);
    let e6 = enc_opt_anim(t.anim);
    assert(enc_tile(t) =~= e0 + (e1 + (e2 + (e3 + (e4 + (e5 + e6))))));
    let p1 = pos + e0.len();
    let p2 = p1 + e1.len();
    let p3 = p2 + e2.len();
    let p4 = p3 + e3.len();
    let p5 = p4 + 1;
    let p6 = p5 + e5.len();
    lemma_split(d, pos, e0, e1 + (e2 + (e3 + (e4 + (e5 + e6)))));
    lemma_split(d, p1, e1, e2 + (e3 + (e4 + (e5 + e6))));
    lemma_split(d, p2, e2, e3 + (e4 + (e5 + e6)));
    lemma_split(d, p3, e3, e4 + (e5 + e6));
    lemma_split(d, p4, e4, e5 + e6);
    lemma_split(d, p5, e5, e6);
    lemma_dec_enc_slot(d, pos, t.texture_indices[0]);
    lemma_dec_enc_slot(d, p1, t.texture_indices[1]);
    lemma_dec_enc_slot(d, p2, t.texture_indices[2]);
    lemma_dec_enc_slot(d, p3, t.texture_indices[3]);
    lemma_dec_enc_u8(d, p4, t.top_layer as u8);
    lemma_dec_enc_color(d, p5, t.color);
    lemma_dec_enc_opt_anim(d, p6, t.anim);
    let dec = dec_tile(d, pos)->0;
    assert(dec.0.texture_indices =~= t.texture_indices);
}

pub fn put_tile(out: &mut Vec<u8>, t: &SerializedTile)
    requires
        serialized_tile_wf(*t),
    ensures
        final(out)@ == old(out)@ + enc_tile(*t),
{
    put_slot(out, t.texture_indices[0]);
    put_slot(out, t.texture_indices[1]);
    put_slot(out, t.texture_indices[2]);
    put_slot(out, t.texture_indices[3]);
    put_u8(out, t.top_layer as u8);
    put_color(out, t.color);
    put_opt_anim(out, &t.anim);
    proof {
        assert(out@ =~= old(out)@ + enc_tile(*t));
    }
}

pub fn get_tile(d: &Vec<u8>, pos: usize) -> (r: Option<(SerializedTile, usize)>)
    ensures
        dec_matches(dec_tile(d@, pos as int), r),
{
    let (s0, p1) = match get_slot(d, pos) {
        Some(x) => x,
        None => {
            return None;
        },
    };
    let (s1, p2) = match get_slot(d, p1) {
        Some(x) => x,
        None => {
            return None;
        },
    };
    let (s2, p3) = match get_slot(d, p2) {
        Some(x) => x,
        None => {
            return None;
        },
    };
    let (s3, p4) = match get_slot(d, p3) {
        Some(x) => x,
        None => {
            return None;
        },
    };
    let (top, p5) = match get_u8(d, p4) {
        Some(x) => x,
        None => {
            return None;
        },
    };
    if top as usize >= MAX_LAYER_COUNT {
        return None;
    }
    let (color, p6) = match get_color(d, p5) {
        Some(x) => x,
        None => {
            return None;
        },
    };
    let (anim, p7) = match get_opt_anim(d, p6) {
        Some(x) => x,
        None => {
            return None;
        },
    };
    Some(
        (
            SerializedTile {
                texture_indices: [s0, s1, s2, s3],
                top_layer: top as usize,
                color,
                anim,
            },
            p7,
        ),
    )
}

pub open spec fn enc_opt_tile(t: Option<SerializedTile>) -> Seq<u8> {
    match t {
        None => seq![0u8],
        Some(v) => seq![1u8] + enc_tile(v),
    }
}

pub open spec fn dec_opt_tile(d: Seq<u8>, pos: int) -> Option<(Option<SerializedTile>, int)> {
    match dec_u8(d, pos) {
        None => None,
        Some((tag, p)) => if tag == 0 {
            Some((None::<SerializedTile>, p))
        } else if tag == 1 {
            match dec_tile(d, p) {
                None => None,
                Some((t, p2)) => Some((Some(t), p2)),
            }
        } else {
            None
        },
    }
}

pub proof fn lemma_dec_enc_opt_tile(d: Seq<u8>, pos: int, t: Option<SerializedTile>)
    requires
        t is Some ==> serialized_tile_wf(t->0),
        0 <= pos,
        pos + enc_opt_tile(t).len() <= d.len(),
        d.subrange(pos, pos + enc_opt_tile(t).len()) == enc_opt_tile(t),
    ensures
        dec_opt_tile(d, pos) == Some((t, pos + enc_opt_tile(t).len())),
{
    match t {
        None => {
            lemma_dec_enc_u8(d, pos, 0);
        },
        Some(v) => {
            lemma_split(d, pos, seq![1u8], enc_tile(v));
            lemma_dec_enc_u8(d, pos, 1);
            lemma_dec_enc_tile(d, pos + 1, v);
        },
    }
}

pub fn put_opt_tile(out: &mut Vec<u8>, t: &Option<SerializedTile>)
    requires
        t is Some ==> serialized_tile_wf(t->0),
    ensures
        final(out)@ == old(out)@ + enc_opt_tile(*t),
{
    match t {
        None => put_u8(out, 0),
        Some(v) => {
            put_u8(out, 1);
            put_tile(out, v);
            proof {
                assert(out@ =~= old(out)@ + enc_opt_tile(*t));
            }
        },
    }
}

pub fn get_opt_tile(d: &Vec<u8>, pos: usize) -> (r: Option<(Option<SerializedTile>, usize)>)
    ensures
        dec_matches(dec_opt_tile(d@, pos as int), r),
{
    match get_u8(d, pos) {
        None => None,
        Some((tag, p)) => {
            if tag == 0 {
                Some((None, p))
            } else if tag == 1 {
                match get_tile(d, p) {
                    None => None,
                    Some((t, p2)) => Some((Some(t), p2)),
                }
            } else {
                None
            }
        },
    }
}

// ---------------------------------------------------------------------------
// Cell lists: one optional record per grid cell, row-major, count-prefixed.
// ---------------------------------------------------------------------------

pub open spec fn enc_tile_list(cells: Seq<Option<SerializedTile>>) -> Seq<u8>
    decreases cells.len(),
{
    if cells.len() == 0 {
        seq![]
    } else {
        enc_opt_tile(cells[0]) + enc_tile_list(cells.skip(1))
    }
}

pub open spec fn dec_tile_list(d: Seq<u8>, pos: int, n: u64) -> Option<(
    Seq<Option<SerializedTile>>,
    int,
)>
    decreases n,
{
    if n == 0 {
        Some((Seq::<Option<SerializedTile>>::empty(), pos))
    } else {
        match dec_opt_tile(d, pos) {
            None => None,
            Some((c, p)) => match dec_tile_list(d, p, (n - 1) as u64) {
                None => None,
                Some((rest, p2)) => Some((seq![c] + rest, p2)),
            },
        }
    }
}

/// Every cell of a well-formed cell image holds a well-formed record.
pub open spec fn tile_cells_wf(cells: Seq<Option<SerializedTile>>) -> bool {
    forall|i: int| 0 <= i < cells.len() && cells[i] is Some ==> serialized_tile_wf(cells[i]->0)
}

pub proof fn lemma_enc_tile_list_snoc(cells: Seq<Option<SerializedTile>>, x: Option<
    SerializedTile,
>)
    ensures
        enc_tile_list(cells.push(x)) == enc_tile_list(cells) + enc_opt_tile(x),
    decreases cells.len(),
{
    reveal_with_fuel(enc_tile_list, 3);
    if cells.len() == 0 {
        assert(cells.push(x)[0] == x);
        assert(cells.push(x).skip(1) =~= Seq::<Option<SerializedTile>>::empty());
        assert(enc_tile_list(cells.push(x)) =~= enc_tile_list(cells) + enc_opt_tile(x));
    } else {
        let e0 = enc_opt_tile(cells[0]);
        assert(cells.push(x)[0] == cells[0]);
        assert(cells.push(x).skip(1) =~= cells.skip(1).push(x));
        lemma_enc_tile_list_snoc(cells.skip(1), x);
        assert(enc_tile_list(cells.push(x)) == e0 + enc_tile_list(cells.skip(1).push(x)));
        assert(enc_tile_list(cells) == e0 + enc_tile_list(cells.skip(1)));
        assert(e0 + (enc_tile_list(cells.skip(1)) + enc_opt_tile(x)) =~= (e0 + enc_tile_list(
            cells.skip(1),
        )) + enc_opt_tile(x));
    }
}

pub proof fn lemma_dec_enc_tile_list(d: Seq<u8>, pos: int, cells: Seq<Option<SerializedTile>>)
    requires
        tile_cells_wf(cells),
        cells.len() <= u64::MAX,
        0 <= pos,
        pos + enc_tile_list(cells).len() <= d.len(),
        d.subrange(pos, pos + enc_tile_list(cells).len()) == enc_tile_list(cells),
    ensures
        dec_tile_list(d, pos, cells.len() as u64) == Some(
            (cells, pos + enc_tile_list(cells).len()),
        ),
    decreases cells.len(),
{
    if cells.len() == 0 {
        assert(cells =~= Seq::<Option<SerializedTile>>::empty());
    } else {
        let e0 = enc_opt_tile(cells[0]);
        let rest = enc_tile_list(cells.skip(1));
        lemma_split(d, pos, e0, rest);
        lemma_dec_enc_opt_tile(d, pos, cells[0]);
        lemma_dec_enc_tile_list(d, pos + e0.len(), cells.skip(1));
        assert(seq![cells[0]] + cells.skip(1) =~= cells);
    }
}

/// A cell image: the cell count, then each cell in row-major order.
pub open spec fn enc_tile_cells(cells: Seq<Option<SerializedTile>>) -> Seq<u8> {
    enc_u64(cells.len() as u64) + enc_tile_list(cells)
}

pub open spec fn dec_tile_cells(d: Seq<u8>, pos: int) -> Option<(
    Seq<Option<SerializedTile>>,
    int,
)> {
    match dec_u64(d, pos) {
        None => None,
        Some((n, p)) => dec_tile_list(d, p, n),
    }
}

pub proof fn lemma_dec_enc_tile_cells(d: Seq<u8>, pos: int, cells: Seq<Option<SerializedTile>>)
    requires
        tile_cells_wf(cells),
        cells.len() <= u64::MAX,
        0 <= pos,
        pos + enc_tile_cells(cells).len() <= d.len(),
        d.subrange(pos, pos + enc_tile_cells(cells).len()) == enc_tile_cells(cells),
    ensures
        dec_tile_cells(d, pos) == Some((cells, pos + enc_tile_cells(cells).len())),
{
    lemma_auto_spec_u64_to_from_le_bytes();
    lemma_split(d, pos, enc_u64(cells.len() as u64), enc_tile_list(cells));
    lemma_dec_enc_u64(d, pos, cells.len() as u64);
    lemma_dec_enc_tile_list(d, pos + 8, cells);
}

/// Write a cell image.
pub fn put_tile_cells(out: &mut Vec<u8>, cells: &Vec<Option<SerializedTile>>)
    requires
        tile_cells_wf(cells@),
    ensures
        final(out)@ == old(out)@ + enc_tile_cells(cells@),
{
    put_u64(out, cells.len() as u64);
    let n = cells.len();
    let mut i: usize = 0;
    while i < n
        invariant
            tile_cells_wf(cells@),
            n == cells@.len(),
            i <= n,
            out@ == old(out)@ + enc_u64(cells@.len() as u64) + enc_tile_list(
                cells@.take(i as int),
            ),
        decreases n - i,
    {
        proof {
            assert(cells@.take(i as int + 1) =~= cells@.take(i as int).push(cells@[i as int]));
            lemma_enc_tile_list_snoc(cells@.take(i as int), cells@[i as int]);
        }
        put_opt_tile(out, &cells[i]);
        i = i + 1;
    }
    proof {
        assert(cells@.take(n as int) =~= cells@);
        assert(out@ =~= old(out)@ + enc_tile_cells(cells@));
    }
}

/// Read a cell image; fails on any malformed cell or a count that cannot
/// fit the remaining bytes.
pub fn get_tile_cells(d: &Vec<u8>, pos: usize) -> (r: Option<(Vec<Option<SerializedTile>>, usize)>)
    ensures
        match dec_tile_cells(d@, pos as int) {
            Some(sv) => r matches Some(rv) && rv.0@ == sv.0 && rv.1 as int == sv.1,
            None => r is None,
        },
{
    let (n, p0) = match get_u64(d, pos) {
        Some(x) => x,
        None => {
            return None;
        },
    };
    let mut out: Vec<Option<SerializedTile>> = Vec::new();
    let mut p = p0;
    let mut i: u64 = 0;
    proof {
        match dec_tile_list(d@, p0 as int, n) {
            Some(rv) => {
                assert(out@ + rv.0 =~= rv.0);
            },
            None => {},
        }
    }
    while i < n
        invariant
            i <= n,
            out@.len() == i,
            dec_u64(d@, pos as int) == Some((n, p0 as int)),
            dec_tile_list(d@, p0 as int, n) == (match dec_tile_list(d@, p as int, (n - i) as u64) {
                None => None::<(Seq<Option<SerializedTile>>, int)>,
                Some((rest, pe)) => Some((out@ + rest, pe)),
            }),
        decreases n - i,
    {
        let (c, p2) = match get_opt_tile(d, p) {
            Some(x) => x,
            None => {
                proof {
                    assert(dec_tile_list(d@, p as int, (n - i) as u64) is None);
                }
                return None;
            },
        };
        proof {
            match dec_tile_list(d@, p2 as int, (n - i - 1) as u64) {
                Some(rem) => {
                    assert(out@ + (seq![c] + rem.0) =~= out@.push(c) + rem.0);
                },
                None => {},
            }
        }
        out.push(c);
        p = p2;
        i = i + 1;
    }
    proof {
        assert(dec_tile_list(d@, p as int, 0) == Some(
            (Seq::<Option<SerializedTile>>::empty(), p as int),
        ));
        assert(out@ + Seq::<Option<SerializedTile>>::empty() =~= out@);
    }
    Some((out, p))
}

// ---------------------------------------------------------------------------
// Pathfinding-cost cells.
// ---------------------------------------------------------------------------

/// One cell of the pathfinding layer: the cost of crossing that tile.
#[derive(Clone, Copy, Debug, PartialEq, Eq, Structural)]
pub struct PathTile {
    pub cost: u32,
}

pub open spec fn enc_opt_path(t: Option<PathTile>) -> Seq<u8> {
    match t {
        None => seq![0u8],
        Some(v) => seq![1u8] + enc_u32(v.cost),
    }
}

pub open spec fn dec_opt_path(d: Seq<u8>, pos: int) -> Option<(Option<PathTile>, int)> {
    match dec_u8(d, pos) {
        None => None,
        Some((tag, p)) => if tag == 0 {
            Some((None::<PathTile>, p))
        } else if tag == 1 {
            match dec_u32(d, p) {
                None => None,
                Some((cost, p2)) => Some((Some(PathTile { cost }), p2)),
            }
        } else {
            None
        },
    }
}

pub proof fn lemma_dec_enc_opt_path(d: Seq<u8>, pos: int, t: Option<PathTile>)
    requires
        0 <= pos,
        pos + enc_opt_path(t).len() <= d.len(),
        d.subrange(pos, pos + enc_opt_path(t).len()) == enc_opt_path(t),
    ensures
        dec_opt_path(d, pos) == Some((t, pos + enc_opt_path(t).len())),
{
    match t {
        None => {
            lemma_dec_enc_u8(d, pos, 0);
        },
        Some(v) => {
            lemma_auto_spec_u32_to_from_le_bytes();
            lemma_split(d, pos, seq![1u8], enc_u32(v.cost));
            lemma_dec_enc_u8(d, pos, 1);
            lemma_dec_enc_u32(d, pos + 1, v.cost);
        },
    }
}

pub fn put_opt_path(out: &mut Vec<u8>, t: &Option<PathTile>)
    ensures
        final(out)@ == old(out)@ + enc_opt_path(*t),
{
    match t {
        None => put_u8(out, 0),
        Some(v) => {
            put_u8(out, 1);
            put_u32(out, v.cost);
            proof {
                assert(out@ =~= old(out)@ + enc_opt_path(*t));
            }
        },
    }
}

pub fn get_opt_path(d: &Vec<u8>, pos: usize) -> (r: Option<(Option<PathTile>, usize)>)
    ensures
        dec_matches(dec_opt_path(d@, pos as int), r),
{
    match get_u8(d, pos) {
        None => None,
        Some((tag, p)) => {
            if tag == 0 {
                Some((None, p))
            } else if tag == 1 {
                match get_u32(d, p) {
                    None => None,
                    Some((cost, p2)) => Some((Some(PathTile { cost }), p2)),
                }
            } else {
                None
            }
        },
    }
}

pub open spec fn enc_path_list(cells: Seq<Option<PathTile>>) -> Seq<u8>
    decreases cells.len(),
{
    if cells.len() == 0 {
        seq![]
    } else {
        enc_opt_path(cells[0]) + enc_path_list(cells.skip(1))
    }
}

pub open spec fn dec_path_list(d: Seq<u8>, pos: int, n: u64) -> Option<(Seq<Option<PathTile>>, int)>
    decreases n,
{
    if n == 0 {
        Some((Seq::<Option<PathTile>>::empty(), pos))
    } else {
        match dec_opt_path(d, pos) {
            None => None,
            Some((c, p)) => match dec_path_list(d, p, (n - 1) as u64) {
                None => None,
                Some((rest, p2)) => Some((seq![c] + rest, p2)),
            },
        }
    }
}

pub proof fn lemma_enc_path_list_snoc(cells: Seq<Option<PathTile>>, x: Option<PathTile>)
    ensures
        enc_path_list(cells.push(x)) == enc_path_list(cells) + enc_opt_path(x),
    decreases cells.len(),
{
    reveal_with_fuel(enc_path_list, 3);
    if cells.len() == 0 {
        assert(cells.push(x)[0] == x);
        assert(cells.push(x).skip(1) =~= Seq::<Option<PathTile>>::empty());
        assert(enc_path_list(cells.push(x)) =~= enc_path_list(cells) + enc_opt_path(x));
    } else {
        let e0 = enc_opt_path(cells[0]);
        assert(cells.push(x)[0] == cells[0]);
        assert(cells.push(x).skip(1) =~= cells.skip(1).push(x));
        lemma_enc_path_list_snoc(cells.skip(1), x);
        assert(enc_path_list(cells.push(x)) == e0 + enc_path_list(cells.skip(1).push(x)));
        assert(enc_path_list(cells) == e0 + enc_path_list(cells.skip(1)));
        assert(e0 + (enc_path_list(cells.skip(1)) + enc_opt_path(x)) =~= (e0 + enc_path_list(
            cells.skip(1),
        )) + enc_opt_path(x));
    }
}

pub proof fn lemma_dec_enc_path_list(d: Seq<u8>, pos: int, cells: Seq<Option<PathTile>>)
    requires
        cells.len() <= u64::MAX,
        0 <= pos,
        pos + enc_path_list(cells).len() <= d.len(),
        d.subrange(pos, pos + enc_path_list(cells).len()) == enc_path_list(cells),
    ensures
        dec_path_list(d, pos, cells.len() as u64) == Some(
            (cells, pos + enc_path_list(cells).len()),
        ),
    decreases cells.len(),
{
    if cells.len() == 0 {
        assert(cells =~= Seq::<Option<PathTile>>::empty());
    } else {
        let e0 = enc_opt_path(cells[0]);
        let rest = enc_path_list(cells.skip(1));
        lemma_split(d, pos, e0, rest);
        lemma_dec_enc_opt_path(d, pos, cells[0]);
        lemma_dec_enc_path_list(d, pos + e0.len(), cells.skip(1));
        assert(seq![cells[0]] + cells.skip(1) =~= cells);
    }
}

pub open spec fn enc_path_cells(cells: Seq<Option<PathTile>>) -> Seq<u8> {
    enc_u64(cells.len() as u64) + enc_path_list(cells)
}

pub open spec fn dec_path_cells(d: Seq<u8>, pos: int) -> Option<(Seq<Option<PathTile>>, int)> {
    match dec_u64(d, pos) {
        None => None,
        Some((n, p)) => dec_path_list(d, p, n),
    }
}

pub proof fn lemma_dec_enc_path_cells(d: Seq<u8>, pos: int, cells: Seq<Option<PathTile>>)
    requires
        cells.len() <= u64::MAX,
        0 <= pos,
        pos + enc_path_cells(cells).len() <= d.len(),
        d.subrange(pos, pos + enc_path_cells(cells).len()) == enc_path_cells(cells),
    ensures
        dec_path_cells(d, pos) == Some((cells, pos + enc_path_cells(cells).len())),
{
    lemma_auto_spec_u64_to_from_le_bytes();
    lemma_split(d, pos, enc_u64(cells.len() as u64), enc_path_list(cells));
    lemma_dec_enc_u64(d, pos, cells.len() as u64);
    lemma_dec_enc_path_list(d, pos + 8, cells);
}

pub fn put_path_cells(out: &mut Vec<u8>, cells: &Vec<Option<PathTile>>)
    ensures
        final(out)@ == old(out)@ + enc_path_cells(cells@),
{
    put_u64(out, cells.len() as u64);
    let n = cells.len();
    let mut i: usize = 0;
    while i < n
        invariant
            n == cells@.len(),
            i <= n,
            out@ == old(out)@ + enc_u64(cells@.len() as u64) + enc_path_list(
                cells@.take(i as int),
            ),
        decreases n - i,
    {
        proof {
            assert(cells@.take(i as int + 1) =~= cells@.take(i as int).push(cells@[i as int]));
            lemma_enc_path_list_snoc(cells@.take(i as int), cells@[i as int]);
        }
        put_opt_path(out, &cells[i]);
        i = i + 1;
    }
    proof {
        assert(cells@.take(n as int) =~= cells@);
        assert(out@ =~= old(out)@ + enc_path_cells(cells@));
    }
}

pub fn get_path_cells(d: &Vec<u8>, pos: usize) -> (r: Option<(Vec<Option<PathTile>>, usize)>)
    ensures
        match dec_path_cells(d@, pos as int) {
            Some(sv) => r matches Some(rv) && rv.0@ == sv.0 && rv.1 as int == sv.1,
            None => r is None,
        },
{
    let (n, p0) = match get_u64(d, pos) {
        Some(x) => x,
        None => {
            return None;
        },
    };
    let mut out: Vec<Option<PathTile>> = Vec::new();
    let mut p = p0;
    let mut i: u64 = 0;
    proof {
        match dec_path_list(d@, p0 as int, n) {
            Some(rv) => {
                assert(out@ + rv.0 =~= rv.0);
            },
            None => {},
        }
    }
    while i < n
        invariant
            i <= n,
            out@.len() == i,
            dec_u64(d@, pos as int) == Some((n, p0 as int)),
            dec_path_list(d@, p0 as int, n) == (match dec_path_list(d@, p as int, (n - i) as u64) {
                None => None::<(Seq<Option<PathTile>>, int)>,
                Some((rest, pe)) => Some((out@ + rest, pe)),
            }),
        decreases n - i,
    {
        let (c, p2) = match get_opt_path(d, p) {
            Some(x) => x,
            None => {
                proof {
                    assert(dec_path_list(d@, p as int, (n - i) as u64) is None);
                }
                return None;
            },
        };
        proof {
            match dec_path_list(d@, p2 as int, (n - i - 1) as u64) {
                Some(rem) => {
                    assert(out@ + (seq![c] + rem.0) =~= out@.push(c) + rem.0);
                },
                None => {},
            }
        }
        out.push(c);
        p = p2;
        i = i + 1;
    }
    proof {
        assert(dec_path_list(d@, p as int, 0) == Some(
            (Seq::<Option<PathTile>>::empty(), p as int),
        ));
        assert(out@ + Seq::<Option<PathTile>>::empty() =~= out@);
    }
    Some((out, p))
}

// ---------------------------------------------------------------------------
// Strings, stored as length-prefixed UTF-8 bytes.
// ---------------------------------------------------------------------------

pub open spec fn enc_string(s: Seq<char>) -> Seq<u8> {
    enc_u64(vstd::utf8::encode_utf8(s).len() as u64) + vstd::utf8::encode_utf8(s)
}

pub open spec fn dec_string(d: Seq<u8>, pos: int) -> Option<(Seq<char>, int)> {
    match dec_u64(d, pos) {
        None => None,
        Some((n, p)) => if p + n <= d.len() && vstd::utf8::valid_utf8(d.subrange(p, p + n)) {
            Some((vstd::utf8::decode_utf8(d.subrange(p, p + n)), p + n))
        } else {
            None
        },
    }
}

pub proof fn lemma_dec_enc_string(d: Seq<u8>, pos: int, s: Seq<char>)
    requires
        vstd::utf8::encode_utf8(s).len() <= u64::MAX,
        0 <= pos,
        pos + enc_string(s).len() <= d.len(),
        d.subrange(pos, pos + enc_string(s).len()) == enc_string(s),
    ensures
        dec_string(d, pos) == Some((s, pos + enc_string(s).len())),
{
    lemma_auto_spec_u64_to_from_le_bytes();
    let bs = vstd::utf8::encode_utf8(s);
    lemma_split(d, pos, enc_u64(bs.len() as u64), bs);
    lemma_dec_enc_u64(d, pos, bs.len() as u64);
    vstd::utf8::encode_utf8_valid_utf8(s);
    vstd::utf8::encode_utf8_decode_utf8(s);
}

/// Relies on std's String::from_utf8: it succeeds exactly when the bytes
/// are valid UTF-8, and then returns the string whose byte content is the
/// input, that is, whose characters are the input's UTF-8 decoding.
#[verifier::external_body]
fn string_from_utf8(v: Vec<u8>) -> (r: Option<String>)
    ensures
        r is Some <==> vstd::utf8::valid_utf8(v@),
        r is Some ==> r->0@ == vstd::utf8::decode_utf8(v@),
{
    String::from_utf8(v).ok()
}

/// Append a string as length-prefixed UTF-8 bytes.
pub fn put_string(out: &mut Vec<u8>, s: &String)
    ensures
        final(out)@ == old(out)@ + enc_string(s@),
{
    let mut bs = s.as_str().as_bytes_vec();
    put_u64(out, bs.len() as u64);
    out.append(&mut bs);
    proof {
        assert(out@ =~= old(out)@ + enc_string(s@));
    }
}

/// Read a length-prefixed UTF-8 string; fails when the bytes are not valid
/// UTF-8 or the length overruns the input.
pub fn get_string(d: &Vec<u8>, pos: usize) -> (r: Option<(String, usize)>)
    ensures
        match dec_string(d@, pos as int) {
            Some(sv) => r matches Some(rv) && rv.0@ == sv.0 && rv.1 as int == sv.1,
            None => r is None,
        },
{
    let (n, p) = match get_u64(d, pos) {
        Some(x) => x,
        None => {
            return None;
        },
    };
    if n > (d.len() - p) as u64 {
        return None;
    }
    let nn = n as usize;
    let sub = slice_subrange(d.as_slice(), p, p + nn);
    let v = vstd::slice::slice_to_vec(sub);
    match string_from_utf8(v) {
        Some(st) => Some((st, p + nn)),
        None => None,
    }
}

pub open spec fn enc_opt_string(s: Option<Seq<char>>) -> Seq<u8> {
    match s {
        None => seq![0u8],
        Some(v) => seq![1u8] + enc_string(v),
    }
}

pub open spec fn dec_opt_string(d: Seq<u8>, pos: int) -> Option<(Option<Seq<char>>, int)> {
    match dec_u8(d, pos) {
        None => None,
        Some((tag, p)) => if tag == 0 {
            Some((None::<Seq<char>>, p))
        } else if tag == 1 {
            match dec_string(d, p) {
                None => None,
                Some((v, p2)) => Some((Some(v), p2)),
            }
        } else {
            None
        },
    }
}

pub proof fn lemma_dec_enc_opt_string(d: Seq<u8>, pos: int, s: Option<Seq<char>>)
    requires
        s is Some ==> vstd::utf8::encode_utf8(s->0).len() <= u64::MAX,
        0 <= pos,
        pos + enc_opt_string(s).len() <= d.len(),
        d.subrange(pos, pos + enc_opt_string(s).len()) == enc_opt_string(s),
    ensures
        dec_opt_string(d, pos) == Some((s, pos + enc_opt_string(s).len())),
{
    match s {
        None => {
            lemma_dec_enc_u8(d, pos, 0);
        },
        Some(v) => {
            lemma_split(d, pos, seq![1u8], enc_string(v));
            lemma_dec_enc_u8(d, pos, 1);
            lemma_dec_enc_string(d, pos + 1, v);
        },
    }
}

/// The view of an optional owned string.
pub open spec fn opt_string_view(s: Option<String>) -> Option<Seq<char>> {
    match s {
        None => None::<Seq<char>>,
        Some(v) => Some(v@),
    }
}

pub fn put_opt_string(out: &mut Vec<u8>, s: &Option<String>)
    ensures
        final(out)@ == old(out)@ + enc_opt_string(opt_string_view(*s)),
{
    match s {
        None => put_u8(out, 0),
        Some(v) => {
            put_u8(out, 1);
            put_string(out, v);
            proof {
                assert(out@ =~= old(out)@ + enc_opt_string(opt_string_view(*s)));
            }
        },
    }
}

pub fn get_opt_string(d: &Vec<u8>, pos: usize) -> (r: Option<(Option<String>, usize)>)
    ensures
        match dec_opt_string(d@, pos as int) {
            Some(sv) => r matches Some(rv) && opt_string_view(rv.0) == sv.0 && rv.1 as int == sv.1,
            None => r is None,
        },
{
    match get_u8(d, pos) {
        None => None,
        Some((tag, p)) => {
            if tag == 0 {
                Some((None, p))
            } else if tag == 1 {
                match get_string(d, p) {
                    None => None,
                    Some((v, p2)) => Some((Some(v), p2)),
                }
            } else {
                None
            }
        },
    }
}

// ---------------------------------------------------------------------------
// The tile-shape tag.
// ---------------------------------------------------------------------------

pub open spec fn enc_tile_type(t: TileType) -> Seq<u8> {
    match t {
        TileType::Square => seq![0u8],
        TileType::IsometricDiamond => seq![1u8],
    }
}

pub open spec fn dec_tile_type(d: Seq<u8>, pos: int) -> Option<(TileType, int)> {
    match dec_u8(d, pos) {
        None => None,
        Some((tag, p)) => if tag == 0 {
            Some((TileType::Square, p))
        } else if tag == 1 {
            Some((TileType::IsometricDiamond, p))
        } else {
            None
        },
    }
}

pub proof fn lemma_dec_enc_tile_type(d: Seq<u8>, pos: int, t: TileType)
    requires
        0 <= pos,
        pos + 1 <= d.len(),
        d.subrange(pos, pos + 1) == enc_tile_type(t),
    ensures
        dec_tile_type(d, pos) == Some((t, pos + 1)),
{
    match t {
        TileType::Square => lemma_dec_enc_u8(d, pos, 0),
        TileType::IsometricDiamond => lemma_dec_enc_u8(d, pos, 1),
    }
}

pub fn put_tile_type(out: &mut Vec<u8>, t: TileType)
    ensures
        final(out)@ == old(out)@ + enc_tile_type(t),
{
    match t {
        TileType::Square => put_u8(out, 0),
        TileType::IsometricDiamond => put_u8(out, 1),
    }
}

pub fn get_tile_type(d: &Vec<u8>, pos: usize) -> (r: Option<(TileType, usize)>)
    ensures
        dec_matches(dec_tile_type(d@, pos as int), r),
{
    match get_u8(d, pos) {
        None => None,
        Some((tag, p)) => {
            if tag == 0 {
                Some((TileType::Square, p))
            } else if tag == 1 {
                Some((TileType::IsometricDiamond, p))
            } else {
                None
            }
        },
    }
}

// ---------------------------------------------------------------------------
// The metadata file of a tilemap-mode save.
// ---------------------------------------------------------------------------

/// What the metadata file records: map dimensions, tile shape, chunk size,
/// the map's name, the texture reference, and which layer bits were saved.
#[derive(Clone, Debug)]
pub struct TilemapMeta {
    pub size_x: u32,
    pub size_y: u32,
    pub render_chunk_size: u32,
    pub tile_type: TileType,
    pub name: String,
    pub texture_path: Option<String>,
    pub layers: u32,
}

/// The mathematical image of a metadata record.
pub ghost struct MetaView {
    pub size_x: u32,
    pub size_y: u32,
    pub render_chunk_size: u32,
    pub tile_type: TileType,
    pub name: Seq<char>,
    pub texture_path: Option<Seq<char>>,
    pub layers: u32,
}

impl View for TilemapMeta {
    type V = MetaView;

    open spec fn view(&self) -> MetaView {
        MetaView {
            size_x: self.size_x,
            size_y: self.size_y,
            render_chunk_size: self.render_chunk_size,
            tile_type: self.tile_type,
            name: self.name@,
            texture_path: opt_string_view(self.texture_path),
            layers: self.layers,
        }
    }
}

pub open spec fn enc_meta(m: MetaView) -> Seq<u8> {
    enc_u32(m.size_x) + enc_u32(m.size_y) + enc_u32(m.render_chunk_size) + enc_tile_type(
        m.tile_type,
    ) + enc_string(m.name) + enc_opt_string(m.texture_path) + enc_u32(m.layers)
}

pub open spec fn dec_meta(d: Seq<u8>, pos: int) -> Option<(MetaView, int)> {
    match dec_u32(d, pos) {
        None => None,
        Some((size_x, p1)) => match dec_u32(d, p1) {
            None => None,
            Some((size_y, p2)) => match dec_u32(d, p2) {
                None => None,
                Some((render_chunk_size, p3)) => match dec_tile_type(d, p3) {
                    None => None,
                    Some((tile_type, p4)) => match dec_string(d, p4) {
                        None => None,
                        Some((name, p5)) => match dec_opt_string(d, p5) {
                            None => None,
                            Some((texture_path, p6)) => match dec_u32(d, p6) {
                                None => None,
                                Some((layers, p7)) => Some(
                                    (
                                        MetaView {
                                            size_x,
                                            size_y,
                                            render_chunk_size,
                                            tile_type,
                                            name,
                                            texture_path,
                                            layers,
                                        },
                                        p7,
                                    ),
                                ),
                            },
                        },
                    },
                },
            },
        },
    }
}

pub proof fn lemma_dec_enc_meta(d: Seq<u8>, pos: int, m: MetaView)
    requires
        vstd::utf8::encode_utf8(m.name).len() <= u64::MAX,
        m.texture_path is Some ==> vstd::utf8::encode_utf8(m.texture_path->0).len() <= u64::MAX,
        0 <= pos,
        pos + enc_meta(m).len() <= d.len(),
        d.subrange(pos, pos + enc_meta(m).len()) == enc_meta(m),
    ensures
        dec_meta(d, pos) == Some((m, pos + enc_meta(m).len())),
{
    lemma_auto_spec_u32_to_from_le_bytes();
    let e0 = enc_u32(m.size_x);
    let e1 = enc_u32(m.size_y);
    let e2 = enc_u32(m.render_chunk_size);
    let e3 = enc_tile_type(m.tile_type);
    let e4 = enc_string(m.name);
    let e5 = enc_opt_string(m.texture_path);
    let e6 = enc_u32(m.layers);
    assert(enc_meta(m) =~= e0 + (e1 + (e2 + (e3 + (e4 + (e5 + e6))))));
    let p1 = pos + e0.len();
    let p2 = p1 + e1.len();
    let p3 = p2 + e2.len();
    let p4 = p3 + e3.len();
    let p5 = p4 + e4.len();
    let p6 = p5 + e5.len();
    lemma_split(d, pos, e0, e1 + (e2 + (e3 + (e4 + (e5 + e6)))));
    lemma_split(d, p1, e1, e2 + (e3 + (e4 + (e5 + e6))));
    lemma_split(d, p2, e2, e3 + (e4 + (e5 + e6)));
    lemma_split(d, p3, e3, e4 + (e5 + e6));
    lemma_split(d, p4, e4, e5 + e6);
    lemma_split(d, p5, e5, e6);
    lemma_dec_enc_u32(d, pos, m.size_x);
    lemma_dec_enc_u32(d, p1, m.size_y);
    lemma_dec_enc_u32(d, p2, m.render_chunk_size);
    lemma_dec_enc_tile_type(d, p3, m.tile_type);
    lemma_dec_enc_string(d, p4, m.name);
    lemma_dec_enc_opt_string(d, p5, m.texture_path);
    lemma_dec_enc_u32(d, p6, m.layers);
}

pub fn put_meta(out: &mut Vec<u8>, m: &TilemapMeta)
    ensures
        final(out)@ == old(out)@ + enc_meta(m@),
{
    put_u32(out, m.size_x);
    put_u32(out, m.size_y);
    put_u32(out, m.render_chunk_size);
    put_tile_type(out, m.tile_type);
    put_string(out, &m.name);
    put_opt_string(out, &m.texture_path);
    put_u32(out, m.layers);
    proof {
        assert(out@ =~= old(out)@ + enc_meta(m@));
    }
}

pub fn get_meta(d: &Vec<u8>, pos: usize) -> (r: Option<(TilemapMeta, usize)>)
    ensures
        match dec_meta(d@, pos as int) {
            Some(sv) => r matches Some(rv) && rv.0@ == sv.0 && rv.1 as int == sv.1,
            None => r is None,
        },
{
    let (size_x, p1) = match get_u32(d, pos) {
        Some(x) => x,
        None => {
            return None;
        },
    };
    let (size_y, p2) = match get_u32(d, p1) {
        Some(x) => x,
        None => {
            return None;
        },
    };
    let (render_chunk_size, p3) = match get_u32(d, p2) {
        Some(x) => x,
        None => {
            return None;
        },
    };
    let (tile_type, p4) = match get_tile_type(d, p3) {
        Some(x) => x,
        None => {
            return None;
        },
    };
    let (name, p5) = match get_string(d, p4) {
        Some(x) => x,
        None => {
            return None;
        },
    };
    let (texture_path, p6) = match get_opt_string(d, p5) {
        Some(x) => x,
        None => {
            return None;
        },
    };
    let (layers, p7) = match get_u32(d, p6) {
        Some(x) => x,
        None => {
            return None;
        },
    };
    Some(
        (
            TilemapMeta {
                size_x,
                size_y,
                render_chunk_size,
                tile_type,
                name,
                texture_path,
                layers,
            },
            p7,
        ),
    )
}

// ---------------------------------------------------------------------------
// The pathfinding layer file and the pattern file.
// ---------------------------------------------------------------------------

/// The auxiliary pathfinding layer of a map: one optional cost cell per grid
/// cell, row-major.
#[derive(Clone, Debug)]
pub struct PathTilemap {
    pub size_x: u32,
    pub size_y: u32,
    pub tiles: Vec<Option<PathTile>>,
}

pub ghost struct PathView {
    pub size_x: u32,
    pub size_y: u32,
    pub tiles: Seq<Option<PathTile>>,
}

impl View for PathTilemap {
    type V = PathView;

    open spec fn view(&self) -> PathView {
        PathView { size_x: self.size_x, size_y: self.size_y, tiles: self.tiles@ }
    }
}

pub open spec fn enc_path_map(m: PathView) -> Seq<u8> {
    enc_u32(m.size_x) + enc_u32(m.size_y) + enc_path_cells(m.tiles)
}

pub open spec fn dec_path_map(d: Seq<u8>, pos: int) -> Option<(PathView, int)> {
    match dec_u32(d, pos) {
        None => None,
        Some((size_x, p1)) => match dec_u32(d, p1) {
            None => None,
            Some((size_y, p2)) => match dec_path_cells(d, p2) {
                None => None,
                Some((tiles, p3)) => Some((PathView { size_x, size_y, tiles }, p3)),
            },
        },
    }
}

pub proof fn lemma_dec_enc_path_map(d: Seq<u8>, pos: int, m: PathView)
    requires
        m.tiles.len() <= u64::MAX,
        0 <= pos,
        pos + enc_path_map(m).len() <= d.len(),
        d.subrange(pos, pos + enc_path_map(m).len()) == enc_path_map(m),
    ensures
        dec_path_map(d, pos) == Some((m, pos + enc_path_map(m).len())),
{
    lemma_auto_spec_u32_to_from_le_bytes();
    let e0 = enc_u32(m.size_x);
    let e1 = enc_u32(m.size_y);
    let e2 = enc_path_cells(m.tiles);
    assert(enc_path_map(m) =~= e0 + (e1 + e2));
    lemma_split(d, pos, e0, e1 + e2);
    lemma_split(d, pos + 4, e1, e2);
    lemma_dec_enc_u32(d, pos, m.size_x);
    lemma_dec_enc_u32(d, pos + 4, m.size_y);
    lemma_dec_enc_path_cells(d, pos + 8, m.tiles);
}

pub fn put_path_map(out: &mut Vec<u8>, m: &PathTilemap)
    ensures
        final(out)@ == old(out)@ + enc_path_map(m@),
{
    put_u32(out, m.size_x);
    put_u32(out, m.size_y);
    put_path_cells(out, &m.tiles);
    proof {
        assert(out@ =~= old(out)@ + enc_path_map(m@));
    }
}

pub fn get_path_map(d: &Vec<u8>, pos: usize) -> (r: Option<(PathTilemap, usize)>)
    ensures
        match dec_path_map(d@, pos as int) {
            Some(sv) => r matches Some(rv) && rv.0@ == sv.0 && rv.1 as int == sv.1,
            None => r is None,
        },
{
    let (size_x, p1) = match get_u32(d, pos) {
        Some(x) => x,
        None => {
            return None;
        },
    };
    let (size_y, p2) = match get_u32(d, p1) {
        Some(x) => x,
        None => {
            return None;
        },
    };
    let (tiles, p3) = match get_path_cells(d, p2) {
        Some(x) => x,
        None => {
            return None;
        },
    };
    Some((PathTilemap { size_x, size_y, tiles }, p3))
}

/// A reusable stamp: an optional label, the grid extent, the tile cells and
/// optionally the pathfinding cells, all inline in one file. It carries no
/// map identity or texture metadata.
#[derive(Clone, Debug)]
pub struct TilemapPattern {
    pub label: Option<String>,
    pub size_x: u32,
    pub size_y: u32,
    pub tiles: Vec<Option<SerializedTile>>,
    pub path_tiles: Option<Vec<Option<PathTile>>>,
}

pub ghost struct PatternView {
    pub label: Option<Seq<char>>,
    pub size_x: u32,
    pub size_y: u32,
    pub tiles: Seq<Option<SerializedTile>>,
    pub path_tiles: Option<Seq<Option<PathTile>>>,
}

/// The view of the optional pathfinding cells of a pattern.
pub open spec fn opt_path_cells_view(t: Option<Vec<Option<PathTile>>>) -> Option<
    Seq<Option<PathTile>>,
> {
    match t {
        None => None::<Seq<Option<PathTile>>>,
        Some(v) => Some(v@),
    }
}

impl View for TilemapPattern {
    type V = PatternView;

    open spec fn view(&self) -> PatternView {
        PatternView {
            label: opt_string_view(self.label),
            size_x: self.size_x,
            size_y: self.size_y,
            tiles: self.tiles@,
            path_tiles: opt_path_cells_view(self.path_tiles),
        }
    }
}

pub open spec fn enc_opt_path_cells(t: Option<Seq<Option<PathTile>>>) -> Seq<u8> {
    match t {
        None => seq![0u8],
        Some(v) => seq![1u8] + enc_path_cells(v),
    }
}

pub open spec fn dec_opt_path_cells(d: Seq<u8>, pos: int) -> Option<(
    Option<Seq<Option<PathTile>>>,
    int,
)> {
    match dec_u8(d, pos) {
        None => None,
        Some((tag, p)) => if tag == 0 {
            Some((None::<Seq<Option<PathTile>>>, p))
        } else if tag == 1 {
            match dec_path_cells(d, p) {
                None => None,
                Some((v, p2)) => Some((Some(v), p2)),
            }
        } else {
            None
        },
    }
}

pub proof fn lemma_dec_enc_opt_path_cells(d: Seq<u8>, pos: int, t: Option<Seq<Option<PathTile>>>)
    requires
        t is Some ==> t->0.len() <= u64::MAX,
        0 <= pos,
        pos + enc_opt_path_cells(t).len() <= d.len(),
        d.subrange(pos, pos + enc_opt_path_cells(t).len()) == enc_opt_path_cells(t),
    ensures
        dec_opt_path_cells(d, pos) == Some((t, pos + enc_opt_path_cells(t).len())),
{
    match t {
        None => {
            lemma_dec_enc_u8(d, pos, 0);
        },
        Some(v) => {
            lemma_split(d, pos, seq![1u8], enc_path_cells(v));
            lemma_dec_enc_u8(d, pos, 1);
            lemma_dec_enc_path_cells(d, pos + 1, v);
        },
    }
}

pub open spec fn enc_pattern(p: PatternView) -> Seq<u8> {
    enc_opt_string(p.label) + enc_u32(p.size_x) + enc_u32(p.size_y) + enc_tile_cells(p.tiles)
        + enc_opt_path_cells(p.path_tiles)
}

pub open spec fn dec_pattern(d: Seq<u8>, pos: int) -> Option<(PatternView, int)> {
    match dec_opt_string(d, pos) {
        None => None,
        Some((label, p1)) => match dec_u32(d, p1) {
            None => None,
            Some((size_x, p2)) => match dec_u32(d, p2) {
                None => None,
                Some((size_y, p3)) => match dec_tile_cells(d, p3) {
                    None => None,
                    Some((tiles, p4)) => match dec_opt_path_cells(d, p4) {
                        None => None,
                        Some((path_tiles, p5)) => Some(
                            (PatternView { label, size_x, size_y, tiles, path_tiles }, p5),
                        ),
                    },
                },
            },
        },
    }
}

pub proof fn lemma_dec_enc_pattern(d: Seq<u8>, pos: int, p: PatternView)
    requires
        p.label is Some ==> vstd::utf8::encode_utf8(p.label->0).len() <= u64::MAX,
        tile_cells_wf(p.tiles),
        p.tiles.len() <= u64::MAX,
        p.path_tiles is Some ==> p.path_tiles->0.len() <= u64::MAX,
        0 <= pos,
        pos + enc_pattern(p).len() <= d.len(),
        d.subrange(pos, pos + enc_pattern(p).len()) == enc_pattern(p),
    ensures
        dec_pattern(d, pos) == Some((p, pos + enc_pattern(p).len())),
{
    lemma_auto_spec_u32_to_from_le_bytes();
    let e0 = enc_opt_string(p.label);
    let e1 = enc_u32(p.size_x);
    let e2 = enc_u32(p.size_y);
    let e3 = enc_tile_cells(p.tiles);
    let e4 = enc_opt_path_cells(p.path_tiles);
    assert(enc_pattern(p) =~= e0 + (e1 + (e2 + (e3 + e4))));
    let p1 = pos + e0.len();
    let p2 = p1 + e1.len();
    let p3 = p2 + e2.len();
    let p4 = p3 + e3.len();
    lemma_split(d, pos, e0, e1 + (e2 + (e3 + e4)));
    lemma_split(d, p1, e1, e2 + (e3 + e4));
    lemma_split(d, p2, e2, e3 + e4);
    lemma_split(d, p3, e3, e4);
    lemma_dec_enc_opt_string(d, pos, p.label);
    lemma_dec_enc_u32(d, p1, p.size_x);
    lemma_dec_enc_u32(d, p2, p.size_y);
    lemma_dec_enc_tile_cells(d, p3, p.tiles);
    lemma_dec_enc_opt_path_cells(d, p4, p.path_tiles);
}

pub fn put_pattern(out: &mut Vec<u8>, p: &TilemapPattern)
    requires
        tile_cells_wf(p.tiles@),
    ensures
        final(out)@ == old(out)@ + enc_pattern(p@),
{
    put_opt_string(out, &p.label);
    put_u32(out, p.size_x);
    put_u32(out, p.size_y);
    put_tile_cells(out, &p.tiles);
    match &p.path_tiles {
        None => put_u8(out, 0),
        Some(v) => {
            put_u8(out, 1);
            put_path_cells(out, v);
        },
    }
    proof {
        assert(out@ =~= old(out)@ + enc_pattern(p@));
    }
}

pub fn get_pattern(d: &Vec<u8>, pos: usize) -> (r: Option<(TilemapPattern, usize)>)
    ensures
        match dec_pattern(d@, pos as int) {
            Some(sv) => r matches Some(rv) && rv.0@ == sv.0 && rv.1 as int == sv.1,
            None => r is None,
        },
{
    let (label, p1) = match get_opt_string(d, pos) {
        Some(x) => x,
        None => {
            return None;
        },
    };
    let (size_x, p2) = match get_u32(d, p1) {
        Some(x) => x,
        None => {
            return None;
        },
    };
    let (size_y, p3) = match get_u32(d, p2) {
        Some(x) => x,
        None => {
            return None;
        },
    };
    let (tiles, p4) = match get_tile_cells(d, p3) {
        Some(x) => x,
        None => {
            return None;
        },
    };
    let (tag, p5) = match get_u8(d, p4) {
        Some(x) => x,
        None => {
            return None;
        },
    };
    if tag == 0 {
        Some((TilemapPattern { label, size_x, size_y, tiles, path_tiles: None }, p5))
    } else if tag == 1 {
        let (pt, p6) = match get_path_cells(d, p5) {
            Some(x) => x,
            None => {
                return None;
            },
        };
        Some((TilemapPattern { label, size_x, size_y, tiles, path_tiles: Some(pt) }, p6))
    } else {
        None
    }
}

} // verus!
