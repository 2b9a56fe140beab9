//! Device memory layout: the exact little-endian bytes of every value the
//! GPU programs read from a buffer.
//!
//! These layouts are a binary contract with the shading-language structs:
//! tightly packed 32-bit words, little-endian, no reordering, each uniform
//! padded to a multiple of 16 bytes. Float-valued fields travel as the bit
//! patterns of their 32-bit floats, so laying them out is pure word
//! serialisation.

use vstd::prelude::*;

use crate::driver::BlurDirection;
use crate::options::Options;
use crate::species::Qualities;

verus! {

/// One agent as the device stores it: position, heading, four padding
/// bytes — a 16-byte stride. Each field is the bit pattern of a 32-bit
/// float.
#[derive(Clone, Copy, PartialEq, Eq, Structural, Debug)]
pub struct GpuAgent {
    pub pos_x: u32,
    pub pos_y: u32,
    pub angle: u32,
}

/// The little-endian bytes of one 32-bit word.
pub open spec fn u32_le(w: u32) -> Seq<u8> {
    seq![
        (w & 0xff) as u8,
        ((w >> 8) & 0xff) as u8,
        ((w >> 16) & 0xff) as u8,
        ((w >> 24) & 0xff) as u8,
    ]
}

/// The 48 bytes of the qualities uniform: colour, speed, turn speed, view
/// distance, field of view, then five padding words.
pub open spec fn qualities_bytes(q: Qualities) -> Seq<u8> {
    u32_le(q.color_r) + u32_le(q.color_g) + u32_le(q.color_b) + u32_le(q.speed) + u32_le(
        q.turn_speed,
    ) + u32_le(q.view_distance) + u32_le(q.field_of_view) + u32_le(0) + u32_le(0) + u32_le(0)
        + u32_le(0) + u32_le(0)
}

/// The 16 bytes of the options uniform: evaporation, diffusion, two padding
/// words.
pub open spec fn options_bytes(o: Options) -> Seq<u8> {
    u32_le(o.evaporation) + u32_le(o.diffusion) + u32_le(0) + u32_le(0)
}

/// The 16 bytes of one agent: position, heading, one padding word.
pub open spec fn agent_bytes(a: GpuAgent) -> Seq<u8> {
    u32_le(a.pos_x) + u32_le(a.pos_y) + u32_le(a.angle) + u32_le(0)
}

/// The 4 bytes of the seed uniform.
pub open spec fn seed_bytes(seed: u32) -> Seq<u8> {
    u32_le(seed)
}

/// The 8 bytes of the blur-direction uniform: the integer unit vector
/// `(1, 0)` for the horizontal sub-pass, `(0, 1)` for the vertical one.
pub open spec fn direction_bytes(d: BlurDirection) -> Seq<u8> {
    match d {
        BlurDirection::Horizontal => u32_le(1) + u32_le(0),
        BlurDirection::Vertical => u32_le(0) + u32_le(1),
    }
}

/// Appends one word's little-endian bytes.
fn push_u32_le(out: &mut Vec<u8>, w: u32)
    ensures
        final(out)@ == old(out)@ + u32_le(w),
{
    out.push((w & 0xff) as u8);
    out.push(((w >> 8) & 0xff) as u8);
    out.push(((w >> 16) & 0xff) as u8);
    out.push(((w >> 24) & 0xff) as u8);
    proof {
        assert(out@ =~= old(out)@ + u32_le(w));
    }
}

/// Lays one species' qualities out for its uniform buffer.
pub fn encode_qualities(q: &Qualities) -> (r: Vec<u8>)
    ensures
        r@ == qualities_bytes(*q),
        r@.len() == crate::cache::QUALITIES_SIZE,
{
    let mut out: Vec<u8> = Vec::new();
    push_u32_le(&mut out, q.color_r);
    push_u32_le(&mut out, q.color_g);
    push_u32_le(&mut out, q.color_b);
    push_u32_le(&mut out, q.speed);
    push_u32_le(&mut out, q.turn_speed);
    push_u32_le(&mut out, q.view_distance);
    push_u32_le(&mut out, q.field_of_view);
    push_u32_le(&mut out, 0);
    push_u32_le(&mut out, 0);
    push_u32_le(&mut out, 0);
    push_u32_le(&mut out, 0);
    push_u32_le(&mut out, 0);
    proof {
        assert(out@ =~= qualities_bytes(*q));
    }
    out
}

/// Lays the global options out for their uniform buffer.
pub fn encode_options(o: &Options) -> (r: Vec<u8>)
    ensures
        r@ == options_bytes(*o),
        r@.len() == 16,
{
    let mut out: Vec<u8> = Vec::new();
    push_u32_le(&mut out, o.evaporation);
    push_u32_le(&mut out, o.diffusion);
    push_u32_le(&mut out, 0);
    push_u32_le(&mut out, 0);
    proof {
        assert(out@ =~= options_bytes(*o));
    }
    out
}

/// Lays one agent out at its 16-byte stride.
pub fn encode_agent(a: &GpuAgent) -> (r: Vec<u8>)
    ensures
        r@ == agent_bytes(*a),
        r@.len() == crate::cache::AGENT_STRIDE,
{
    let mut out: Vec<u8> = Vec::new();
    push_u32_le(&mut out, a.pos_x);
    push_u32_le(&mut out, a.pos_y);
    push_u32_le(&mut out, a.angle);
    push_u32_le(&mut out, 0);
    proof {
        assert(out@ =~= agent_bytes(*a));
    }
    out
}

/// Lays the per-frame seed out for its uniform buffer.
pub fn encode_seed(seed: u32) -> (r: Vec<u8>)
    ensures
        r@ == seed_bytes(seed),
        r@.len() == 4,
{
    let mut out: Vec<u8> = Vec::new();
    push_u32_le(&mut out, seed);
    proof {
        assert(out@ =~= seed_bytes(seed));
    }
    out
}

/// Lays a blur direction out for its uniform buffer.
pub fn encode_direction(d: BlurDirection) -> (r: Vec<u8>)
    ensures
        r@ == direction_bytes(d),
        r@.len() == 8,
{
    let mut out: Vec<u8> = Vec::new();
    match d {
        BlurDirection::Horizontal => {
            push_u32_le(&mut out, 1);
            push_u32_le(&mut out, 0);
        },
        BlurDirection::Vertical => {
            push_u32_le(&mut out, 0);
            push_u32_le(&mut out, 1);
        },
    }
    proof {
        assert(out@ =~= direction_bytes(d));
    }
    out
}

} // verus!
