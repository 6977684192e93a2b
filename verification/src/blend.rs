//! RGB565 packing, unpacking and alpha blending.

use vstd::prelude::*;

verus! {

/// Red channel (5 bits) of a packed RGB565 color.
pub open spec fn red5(packed: u16) -> u16 {
    packed / 2048
}

/// Green channel (6 bits) of a packed RGB565 color.
pub open spec fn green6(packed: u16) -> u16 {
    (packed / 32) % 64
}

/// Blue channel (5 bits) of a packed RGB565 color.
pub open spec fn blue5(packed: u16) -> u16 {
    packed % 32
}

/// The three channels of a packed color.
pub open spec fn spec_unpack(packed: u16) -> (u16, u16, u16) {
    (red5(packed), green6(packed), blue5(packed))
}

/// Whether the channels fit their 5/6/5 bit widths.
pub open spec fn channels_fit(r5: int, g6: int, b5: int) -> bool {
    0 <= r5 < 32 && 0 <= g6 < 64 && 0 <= b5 < 32
}

/// The packed color of three in-range channels.
pub open spec fn spec_pack(r5: int, g6: int, b5: int) -> int {
    r5 * 2048 + g6 * 32 + b5
}

/// One channel of `dest` blended towards `src` with opacity `alpha` (out of 255).
pub open spec fn blend_channel(dest: int, src: int, alpha: int) -> int {
    ((255 - alpha) * dest + alpha * src) / 255
}

/// The blend of two packed colors, channel by channel.
pub open spec fn spec_blend(dest: u16, src: u16, alpha: u8) -> int {
    spec_pack(
        blend_channel(red5(dest) as int, red5(src) as int, alpha as int),
        blend_channel(green6(dest) as int, green6(src) as int, alpha as int),
        blend_channel(blue5(dest) as int, blue5(src) as int, alpha as int),
    )
}

proof fn lemma_unpack_bits(packed: u16)
    ensures
        (packed >> 11) & 0x1f == packed / 2048,
        (packed >> 5) & 0x3f == (packed / 32) % 64,
        packed & 0x1f == packed % 32,
        packed / 2048 < 32,
{
    assert((packed >> 11) & 0x1f == packed / 2048) by (bit_vector);
    assert((packed >> 5) & 0x3f == (packed / 32) % 64) by (bit_vector);
    assert(packed & 0x1f == packed % 32) by (bit_vector);
    assert(packed / 2048 < 32) by (bit_vector);
}

proof fn lemma_pack_bits(r5: u16, g6: u16, b5: u16)
    requires
        r5 < 32,
        g6 < 64,
        b5 < 32,
    ensures
        (r5 << 11) | (g6 << 5) | b5 == r5 * 2048 + g6 * 32 + b5,
{
    assert((r5 << 11) | (g6 << 5) | b5 == r5 * 2048 + g6 * 32 + b5) by (bit_vector)
        requires
            r5 < 32,
            g6 < 64,
            b5 < 32,
    ;
}

/// Splits a packed color into its 5-bit red, 6-bit green and 5-bit blue channels.
pub fn unpack_565_u16(packed: u16) -> (channels: (u16, u16, u16))
    ensures
        channels == spec_unpack(packed),
        channels_fit(channels.0 as int, channels.1 as int, channels.2 as int),
{
    proof {
        lemma_unpack_bits(packed);
    }
    ((packed >> 11) & 0x1f, (packed >> 5) & 0x3f, packed & 0x1f)
}

/// Like [`unpack_565_u16`], with the channels as bytes.
pub fn unpack_565(packed: u16) -> (channels: (u8, u8, u8))
    ensures
        channels.0 == red5(packed),
        channels.1 == green6(packed),
        channels.2 == blue5(packed),
{
    let (r, g, b) = unpack_565_u16(packed);
    (r as u8, g as u8, b as u8)
}

/// Joins three in-range channels into a packed color.
pub fn pack_565_u16(channels: (u16, u16, u16)) -> (packed: u16)
    requires
        channels_fit(channels.0 as int, channels.1 as int, channels.2 as int),
    ensures
        packed == spec_pack(channels.0 as int, channels.1 as int, channels.2 as int),
{
    let (r5, g6, b5) = channels;
    proof {
        lemma_pack_bits(r5, g6, b5);
    }
    (r5 << 11) | (g6 << 5) | b5
}

/// Like [`pack_565_u16`], with the channels as bytes.
pub fn pack_565(channels: (u8, u8, u8)) -> (packed: u16)
    requires
        channels_fit(channels.0 as int, channels.1 as int, channels.2 as int),
    ensures
        packed == spec_pack(channels.0 as int, channels.1 as int, channels.2 as int),
{
    let (r5, g6, b5) = channels;
    pack_565_u16((r5 as u16, g6 as u16, b5 as u16))
}

/// A blended channel stays below the larger of its two inputs' bounds.
proof fn lemma_blend_channel_bound(dest: int, src: int, alpha: int, bound: int)
    requires
        0 <= dest < bound,
        0 <= src < bound,
        0 <= alpha <= 255,
    ensures
        0 <= blend_channel(dest, src, alpha) < bound,
        blend_channel(dest, src, alpha) <= 255 * bound,
{
    assert(0 <= (255 - alpha) * dest + alpha * src <= 255 * (bound - 1)) by (nonlinear_arith)
        requires
            0 <= dest < bound,
            0 <= src < bound,
            0 <= alpha <= 255,
    ;
}

fn blend_channel_exec(dest: u8, src: u8, alpha: u8, bound: Ghost<int>) -> (c: u8)
    requires
        (dest as int) < bound@,
        (src as int) < bound@,
        bound@ <= 64,
    ensures
        c == blend_channel(dest as int, src as int, alpha as int),
        (c as int) < bound@,
{
    proof {
        lemma_blend_channel_bound(dest as int, src as int, alpha as int, bound@);
        assert((255 - alpha as u16) * dest as u16 + alpha as u16 * src as u16 <= 255 * 63)
            by (nonlinear_arith)
            requires
                dest < 64,
                src < 64,
        ;
    }
    (((255 - alpha as u16) * dest as u16 + alpha as u16 * src as u16) / 255) as u8
}

/// Blends `src` over `dest` with opacity `alpha`: 0 keeps `dest`, 255 gives `src`.
pub fn blend_rgb565(dest: u16, src: u16, alpha: u8) -> (blended: u16)
    ensures
        blended == spec_blend(dest, src, alpha),
{
    let (dr, dg, db) = unpack_565(dest);
    let (sr, sg, sb) = unpack_565(src);

    let r = blend_channel_exec(dr, sr, alpha, Ghost(32));
    let g = blend_channel_exec(dg, sg, alpha, Ghost(64));
    let b = blend_channel_exec(db, sb, alpha, Ghost(32));

    pack_565((r, g, b))
}

/// Unpacking a packed color gives back the channels it was packed from.
pub proof fn lemma_unpack_of_pack(r5: int, g6: int, b5: int)
    requires
        channels_fit(r5, g6, b5),
    ensures
        0 <= spec_pack(r5, g6, b5) <= u16::MAX,
        spec_unpack(spec_pack(r5, g6, b5) as u16) == (r5 as u16, g6 as u16, b5 as u16),
{
    let p = spec_pack(r5, g6, b5);
    assert(p / 2048 == r5) by (nonlinear_arith)
        requires p == r5 * 2048 + g6 * 32 + b5, channels_fit(r5, g6, b5);
    assert(p / 32 == r5 * 64 + g6) by (nonlinear_arith)
        requires p == r5 * 2048 + g6 * 32 + b5, channels_fit(r5, g6, b5);
    assert((r5 * 64 + g6) % 64 == g6) by (nonlinear_arith)
        requires channels_fit(r5, g6, b5);
    assert(p % 32 == b5) by (nonlinear_arith)
        requires p == r5 * 2048 + g6 * 32 + b5, channels_fit(r5, g6, b5);
}

/// Packing the channels of a packed color gives back that color.
pub proof fn lemma_pack_of_unpack(packed: u16)
    ensures
        channels_fit(red5(packed) as int, green6(packed) as int, blue5(packed) as int),
        spec_pack(red5(packed) as int, green6(packed) as int, blue5(packed) as int) == packed,
{
    let p = packed as int;
    assert(spec_pack(p / 2048, (p / 32) % 64, p % 32) == p && p / 2048 < 32) by (nonlinear_arith)
        requires 0 <= p < 65536;
}

/// Blending with full opacity gives the source color, with zero opacity the destination
/// color, and blending a color with itself leaves it unchanged.
pub proof fn lemma_blend_extremes(dest: u16, src: u16, alpha: u8)
    ensures
        spec_blend(dest, src, 255) == src,
        spec_blend(dest, src, 0) == dest,
        spec_blend(src, src, alpha) == src,
{
    lemma_pack_of_unpack(dest);
    lemma_pack_of_unpack(src);
    assert forall|d: int, s: int| #![trigger blend_channel(d, s, 255)]
        blend_channel(d, s, 255) == s && blend_channel(d, s, 0) == d by {
        assert((255 * s) / 255 == s) by (nonlinear_arith);
        assert((255 * d) / 255 == d) by (nonlinear_arith);
    }
    assert forall|s: int, a: int| #![trigger blend_channel(s, s, a)]
        blend_channel(s, s, a) == s by {
        assert(((255 - a) * s + a * s) / 255 == s) by (nonlinear_arith);
    }
    assert(blend_channel(red5(dest) as int, red5(src) as int, 0) == red5(dest));
    assert(blend_channel(green6(dest) as int, green6(src) as int, 0) == green6(dest));
    assert(blend_channel(blue5(dest) as int, blue5(src) as int, 0) == blue5(dest));
    assert(blend_channel(red5(src) as int, red5(src) as int, alpha as int) == red5(src));
    assert(blend_channel(green6(src) as int, green6(src) as int, alpha as int) == green6(src));
    assert(blend_channel(blue5(src) as int, blue5(src) as int, alpha as int) == blue5(src));
}

} // verus!
