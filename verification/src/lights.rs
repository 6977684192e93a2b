//! Indicator lights: a lit or unlit lamp of one of three colors, with a glow when lit.

use vstd::prelude::*;

use crate::image::ImgView;
use crate::texture::{PixelRule, Tex2Data, Tex4Data, Transform};

verus! {

/// Color of an indicator light.
#[derive(Clone, Copy)]
pub enum LightColor {
    Red,
    Green,
    Yellow,
}

/// Textures and palettes of the indicator lights.
pub struct LightAssets {
    /// The 16 x 16 lamp.
    pub light: Tex4Data<'static>,
    /// Opacity indices of the glow around a lit lamp.
    pub glow_mask: Tex2Data<'static>,
    /// Glow opacities, by index.
    pub glow_mask_alphas: [u8; 4],
    pub red_on: [u16; 16],
    pub red_off: [u16; 16],
    pub green_on: [u16; 16],
    pub green_off: [u16; 16],
    pub yellow_on: [u16; 16],
    pub yellow_off: [u16; 16],
}

impl LightAssets {
    /// Both textures hold all their texels.
    pub open spec fn wf(self) -> bool {
        self.light.wf() && self.glow_mask.wf()
    }

    /// Whether both textures hold all their texels.
    pub fn is_valid(&self) -> (ok: bool)
        ensures
            ok == self.wf(),
    {
        self.light.is_valid() && self.glow_mask.is_valid()
    }

    /// Lamp palette of a light of `color` that is on (`state`) or off.
    pub open spec fn palette_for(self, color: LightColor, state: bool) -> [u16; 16] {
        match (color, state) {
            (LightColor::Red, true) => self.red_on,
            (LightColor::Red, false) => self.red_off,
            (LightColor::Green, true) => self.green_on,
            (LightColor::Green, false) => self.green_off,
            (LightColor::Yellow, true) => self.yellow_on,
            (LightColor::Yellow, false) => self.yellow_off,
        }
    }

    /// Glow opacities of a lit light of `color`: the mask opacities scaled by the color's
    /// percentage, kept to their low 8 bits.
    pub open spec fn glow_alphas(self, color: LightColor) -> Seq<u8> {
        Seq::new(
            4,
            |k: int| ((self.glow_mask_alphas@[k] as int * glow_percent(color) / 100) % 256) as u8,
        )
    }

    /// `old` with a light of `color` drawn into `dest`: the lamp at `(4, 4)` in the palette of its
    /// state, then, when it is on, its glow over the whole of `dest` in the lamp's color 1.
    pub open spec fn light_result(
        self,
        old: Seq<u16>,
        dest: ImgView,
        color: LightColor,
        state: bool,
    ) -> Seq<u16> {
        let palette = self.palette_for(color, state);
        let lamp = self.light.draw_result(
            old,
            dest.sub(4, 4, 16, 16),
            Transform { flip_x: false, flip_y: false },
            PixelRule::PaletteKeyed(palette@),
        );
        if state {
            self.glow_mask.draw_result(
                lamp,
                dest,
                Transform { flip_x: false, flip_y: false },
                PixelRule::Blend(self.glow_alphas(color), palette@[1]),
            )
        } else {
            lamp
        }
    }
}

impl LightAssets {
    /// Drawing a light into its 24 x 24 slot at `(left, top)` of `dest` changes no pixel of
    /// `dest` outside the slot.
    pub proof fn lemma_light_keeps_outside(
        self,
        buf: Seq<u16>,
        dest: ImgView,
        left: int,
        top: int,
        color: LightColor,
        state: bool,
        x: int,
        y: int,
    )
        requires
            dest.wf(),
            dest.can_sub(left, top, 24, 24),
            dest.sub(left, top, 24, 24).can_sub(4, 4, 16, 16),
            0 <= x < dest.stride,
            0 <= y,
            0 <= dest.index(x, y) < buf.len(),
            !(left <= x < left + 24 && top <= y < top + 24),
        ensures
            self.light_result(buf, dest.sub(left, top, 24, 24), color, state).len() == buf.len(),
            self.light_result(buf, dest.sub(left, top, 24, 24), color, state)[dest.index(x, y)]
                == buf[dest.index(x, y)],
    {
        let s = dest.stride as int;
        dest.lemma_sub_fits(left, top, 24, 24);
        let slot = dest.sub(left, top, 24, 24);
        slot.lemma_sub_fits(4, 4, 16, 16);
        let lamp = slot.sub(4, 4, 16, 16);
        assert(s * top + s * 4 == s * (top + 4)) by (nonlinear_arith);
        assert(lamp.offset == dest.offset + s * (top + 4) + left + 4);
        dest.lemma_outside_sub(x, y, left, top, 24, 24);
        dest.lemma_outside_sub(x, y, left + 4, top + 4, 16, 16);
        let i = dest.index(x, y);
        assert(!lamp.in_rect(i, 16, 16));
        assert(!slot.in_rect(i, 24, 24));
    }
}

impl LightAssets {
    /// A light is drawn pixel by pixel: a position that held the same value in two buffers of the
    /// same length holds the same value after the light is drawn.
    pub proof fn lemma_light_result_pointwise(
        self,
        a: Seq<u16>,
        b: Seq<u16>,
        dest: ImgView,
        color: LightColor,
        state: bool,
        i: int,
    )
        requires
            a.len() == b.len(),
            0 <= i < a.len(),
            a[i] == b[i],
        ensures
            self.light_result(a, dest, color, state).len() == a.len(),
            self.light_result(b, dest, color, state).len() == b.len(),
            self.light_result(a, dest, color, state)[i] == self.light_result(b, dest, color, state)[i],
    {
    }
}

/// Percentage applied to the glow mask so that glows of different colors look similar-ish.
pub open spec fn glow_percent(color: LightColor) -> int {
    match color {
        LightColor::Red => 100,
        LightColor::Green => 120,
        LightColor::Yellow => 140,
    }
}

fn get_palette(assets: &LightAssets, color: LightColor, state: bool) -> (palette: &[u16; 16])
    ensures
        *palette == assets.palette_for(color, state),
{
    match (color, state) {
        (LightColor::Red, true) => &assets.red_on,
        (LightColor::Red, false) => &assets.red_off,
        (LightColor::Green, true) => &assets.green_on,
        (LightColor::Green, false) => &assets.green_off,
        (LightColor::Yellow, true) => &assets.yellow_on,
        (LightColor::Yellow, false) => &assets.yellow_off,
    }
}

fn scale_mask(mask: &[u8; 4], percent: u16) -> (scaled: [u8; 4])
    requires
        percent <= 140,
    ensures
        forall|k: int|
            0 <= k < 4 ==> #[trigger] scaled@[k] == ((mask@[k] as int * percent / 100) % 256) as u8,
{
    let mut scaled = [0u8; 4];
    let mut k: usize = 0;
    while k < 4
        invariant
            percent <= 140,
            k <= 4,
            forall|q: int|
                0 <= q < k ==> #[trigger] scaled@[q] == ((mask@[q] as int * percent / 100) % 256) as u8,
        decreases 4 - k,
    {
        let v = mask[k];
        assert(v as u16 * percent <= 255 * 140) by (nonlinear_arith)
            requires v <= 255, percent <= 140;
        let scaled_up: u16 = v as u16 * percent / 100;
        let value = scaled_up as u8;
        assert(value == (scaled_up % 256) as u8) by (bit_vector)
            requires value == scaled_up as u8;
        scaled[k] = value;
        k += 1;
    }
    scaled
}

/// One indicator light.
pub struct LightState {
    luminosity: u8,
}

impl LightState {
    /// A light.
    pub fn new() -> (light: Self)
        ensures
            light.luminosity() == 0,
    {
        Self { luminosity: 0 }
    }

    /// Brightness kept by the light (not used when drawing).
    pub closed spec fn luminosity(self) -> u8 {
        self.luminosity
    }

    /// Draws the light, of `color` and on or off by `state`, into `dest`.
    pub fn draw(
        &mut self,
        buf: &mut Vec<u16>,
        dest: ImgView,
        color: LightColor,
        state: bool,
        assets: &LightAssets,
    )
        requires
            assets.wf(),
            dest.fits(old(buf)@.len() as int),
            dest.can_sub(4, 4, 16, 16),
        ensures
            final(buf)@ == assets.light_result(old(buf)@, dest, color, state),
            final(self).luminosity() == old(self).luminosity(),
    {
        let palette = get_palette(assets, color, state);

        let lamp = dest.sub_image(4, 4, 16, 16);
        assets.light.draw_paletted_transparent(buf, lamp, palette);

        if state {
            let active_color = palette[1];
            let percent: u16 = match color {
                LightColor::Red => 100,
                LightColor::Green => 120,
                LightColor::Yellow => 140,
            };
            let mask = scale_mask(&assets.glow_mask_alphas, percent);
            assert(mask@ =~= assets.glow_alphas(color));
            assets.glow_mask.draw_blend(buf, dest, &mask, active_color);
        }
    }
}

} // verus!
