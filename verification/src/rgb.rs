//! Packing three 8-bit color channels into one 32-bit register word.
//!
//! A color is stored in a single shared atomic register, so the three
//! channels are packed as `(r << 16) | (g << 8) | b`. The upper eight bits
//! of a packed word are always zero, and packing is a lossless bijection
//! between channel triples and the 24-bit range.

use vstd::prelude::*;

verus! {

/// The packed register word of the channel triple `(r, g, b)`.
pub open spec fn spec_pack(r: u8, g: u8, b: u8) -> u32 {
    ((r as u32) << 16) | ((g as u32) << 8) | (b as u32)
}

/// The red channel of a packed register word.
pub open spec fn spec_red(v: u32) -> u8 {
    ((v >> 16) & 0xFF) as u8
}

/// The green channel of a packed register word.
pub open spec fn spec_green(v: u32) -> u8 {
    ((v >> 8) & 0xFF) as u8
}

/// The blue channel of a packed register word.
pub open spec fn spec_blue(v: u32) -> u8 {
    (v & 0xFF) as u8
}

/// Pack a channel triple into one register word. The upper eight bits of
/// the result are zero.
pub fn pack_rgb(r: u8, g: u8, b: u8) -> (v: u32)
    ensures
        v == spec_pack(r, g, b),
        v < 0x1000000,
{
    proof {
        lemma_pack_in_range(r, g, b);
    }
    ((r as u32) << 16) | ((g as u32) << 8) | (b as u32)
}

/// Unpack a register word into its channel triple.
pub fn unpack_rgb(v: u32) -> (t: (u8, u8, u8))
    ensures
        t.0 == spec_red(v),
        t.1 == spec_green(v),
        t.2 == spec_blue(v),
{
    (((v >> 16) & 0xFF) as u8, ((v >> 8) & 0xFF) as u8, (v & 0xFF) as u8)
}

/// The preset entry a color selector starts on: the first preset whose
/// channel triple equals the triple read from the hardware at startup, or
/// the first entry when no preset matches.
pub fn initial_preset_index(presets: &Vec<(u8, u8, u8)>, initial: (u8, u8, u8)) -> (idx: usize)
    ensures
        (exists|i: int| 0 <= i < presets@.len() && presets@[i] == initial) ==> idx
            < presets@.len() && presets@[idx as int] == initial && (forall|j: int|
            0 <= j < idx ==> presets@[j] != initial),
        !(exists|i: int| 0 <= i < presets@.len() && presets@[i] == initial) ==> idx == 0,
{
    let n = presets.len();
    let mut i: usize = 0;
    while i < n
        invariant
            i <= n == presets@.len(),
            forall|j: int| 0 <= j < i ==> presets@[j] != initial,
        decreases n - i,
    {
        let p = presets[i];
        if p.0 == initial.0 && p.1 == initial.1 && p.2 == initial.2 {
            return i;
        }
        i = i + 1;
    }
    0
}

/// A packed word stays within the 24-bit range.
pub proof fn lemma_pack_in_range(r: u8, g: u8, b: u8)
    ensures
        spec_pack(r, g, b) < 0x1000000,
{
    assert(((r as u32) << 16) | ((g as u32) << 8) | (b as u32) < 0x1000000) by (bit_vector);
}

/// Unpacking a packed triple returns exactly the channels that were packed.
pub proof fn lemma_unpack_pack(r: u8, g: u8, b: u8)
    ensures
        spec_red(spec_pack(r, g, b)) == r,
        spec_green(spec_pack(r, g, b)) == g,
        spec_blue(spec_pack(r, g, b)) == b,
{
    let v = spec_pack(r, g, b);
    assert((((((r as u32) << 16) | ((g as u32) << 8) | (b as u32)) >> 16) & 0xFF) as u8 == r)
        by (bit_vector);
    assert((((((r as u32) << 16) | ((g as u32) << 8) | (b as u32)) >> 8) & 0xFF) as u8 == g)
        by (bit_vector);
    assert(((((r as u32) << 16) | ((g as u32) << 8) | (b as u32)) & 0xFF) as u8 == b)
        by (bit_vector);
}

/// Packing the unpacked channels of a 24-bit word gives the word back:
/// together with `lemma_unpack_pack` this makes pack/unpack a bijection
/// over the 24-bit range.
pub proof fn lemma_pack_unpack(v: u32)
    requires
        v < 0x1000000,
    ensures
        spec_pack(spec_red(v), spec_green(v), spec_blue(v)) == v,
{
    assert(v < 0x1000000 ==> (((((v >> 16) & 0xFF) as u8) as u32) << 16) | (((((v >> 8) & 0xFF)
        as u8) as u32) << 8) | (((v & 0xFF) as u8) as u32) == v) by (bit_vector);
}

} // verus!
