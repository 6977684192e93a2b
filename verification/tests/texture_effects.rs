use baam_3ds::blend::blend_rgb565;
use baam_3ds::effects::{lineblur, lineblur_kernel, scanlines};
use baam_3ds::image::ImgView;
use baam_3ds::texture::{Tex1Data, Tex2Data, Tex4Data, Transform};

fn leak(bytes: Vec<u8>) -> &'static [u8] {
    Box::leak(bytes.into_boxed_slice())
}

#[test]
fn texels_are_read_low_bits_first() {
    let tex = Tex2Data { width: 4, height: 2, data: leak(vec![0b11_10_01_00, 0b00_01_10_11]) };
    assert_eq!(tex.get_value_at_unchecked(0, 0), 0);
    assert_eq!(tex.get_value_at_unchecked(1, 0), 1);
    assert_eq!(tex.get_value_at_unchecked(2, 0), 2);
    assert_eq!(tex.get_value_at_unchecked(3, 0), 3);
    assert_eq!(tex.get_value_at_unchecked(0, 1), 3);
    assert_eq!(tex.get_value_at_unchecked(3, 1), 0);
    let tex1 = Tex1Data { width: 8, height: 1, data: leak(vec![0b1000_0001]) };
    assert_eq!(tex1.get_value_at_unchecked(0, 0), 1);
    assert_eq!(tex1.get_value_at_unchecked(1, 0), 0);
    assert_eq!(tex1.get_value_at_unchecked(7, 0), 1);
    let tex4 = Tex4Data { width: 2, height: 1, data: leak(vec![0xa5]) };
    assert_eq!(tex4.get_value_at_unchecked(0, 0), 5);
    assert_eq!(tex4.get_value_at_unchecked(1, 0), 10);
}

#[test]
fn sub_image_offsets_and_clips() {
    let view = ImgView::new(12, 4, 3);
    let sub = view.sub_image(1, 1, 2, 2);
    assert_eq!((sub.offset, sub.width, sub.height, sub.stride), (5, 2, 2, 4));
    assert_eq!(sub.len, 6);
    let last = view.sub_image(2, 2, 2, 1);
    assert_eq!((last.offset, last.len), (10, 2));
}

#[test]
fn paletted_draw_with_transform_and_transparency() {
    // 2x2 texture: values 0 1 / 2 3
    let tex = Tex2Data { width: 2, height: 2, data: leak(vec![0b11_10_01_00]) };
    let palette = [100u16, 101, 102, 103];
    let mut buf = vec![7u16; 9];
    let view = ImgView::new(9, 3, 3);
    tex.draw_paletted_transparent_with_transform(&mut buf, view, &palette, Transform { flip_x: false, flip_y: false });
    assert_eq!(buf, vec![7, 101, 7, 102, 103, 7, 7, 7, 7]);

    let mut buf = vec![7u16; 9];
    tex.draw_paletted_transparent_with_transform(&mut buf, view, &palette, Transform { flip_x: true, flip_y: true });
    assert_eq!(buf, vec![103, 102, 7, 101, 7, 7, 7, 7, 7]);
}

#[test]
fn opaque_tinted_blend_and_fill_draws() {
    let tex1 = Tex1Data { width: 3, height: 1, data: leak(vec![0b101]) };
    let mut buf = vec![9u16; 3];
    tex1.draw_opaque(&mut buf, ImgView::new(3, 3, 1), &[1, 2]);
    assert_eq!(buf, vec![2, 1, 2]);
    let mut buf = vec![9u16; 3];
    tex1.draw_transparent(&mut buf, ImgView::new(3, 3, 1), 5);
    assert_eq!(buf, vec![5, 9, 5]);

    let tex2 = Tex2Data { width: 2, height: 1, data: leak(vec![0b11_00]) };
    let mut buf = vec![0x1234u16; 2];
    tex2.draw_tinted(&mut buf, ImgView::new(2, 2, 1), &[0, 0, 0, 255], 0x0000, 0xffff);
    assert_eq!(buf, vec![0x0000, 0xffff]);
    let mut buf = vec![0x1234u16; 2];
    tex2.draw_blend(&mut buf, ImgView::new(2, 2, 1), &[0, 0, 0, 0x80], 0xffff);
    assert_eq!(buf, vec![0x1234, blend_rgb565(0x1234, 0xffff, 0x80)]);

    let tex4 = Tex4Data { width: 2, height: 1, data: leak(vec![0x50]) };
    let palette: [u16; 16] = core::array::from_fn(|i| 1000 + i as u16);
    let mut buf = vec![1u16; 2];
    tex4.draw_paletted_transparent(&mut buf, ImgView::new(2, 2, 1), &palette);
    assert_eq!(buf, vec![1, 1005]);
    let mut buf = vec![1u16; 2];
    tex4.draw_paletted_opaque(&mut buf, ImgView::new(2, 2, 1), &palette);
    assert_eq!(buf, vec![1000, 1005]);
}

#[test]
fn draw_with_shadow_paints_right_and_below() {
    // one set texel at (0, 0) of a 2x2 texture, drawn into a 3x3 view
    let tex = Tex1Data { width: 2, height: 2, data: leak(vec![0b0001]) };
    let mut buf = vec![0u16; 9];
    tex.draw_with_shadow(&mut buf, ImgView::new(9, 3, 3), 0xffff, 0x7bcf);
    assert_eq!(buf, vec![0, 0xffff, 0, 0x7bcf, 0, 0, 0, 0, 0]);
}

#[test]
fn scanlines_darken_every_third_row() {
    let mut buf = vec![0xffffu16; 4];
    scanlines(&mut buf, ImgView::new(4, 1, 4), 0);
    assert_eq!(buf, vec![0xffff, 0xffff, 0x0000, 0xffff]);
}

#[test]
fn lineblur_only_brightens_inner_pixels() {
    let mut buf = vec![0xffffu16, 0x0000, 0xffff, 0x0000];
    lineblur(&mut buf, ImgView::new(4, 4, 1));
    // inner pixel 1 becomes the average (31+0+31)/4 = 15 etc.; pixel 2 would get darker and stays
    assert_eq!(buf, vec![0xffff, (15 << 11) | (31 << 5) | 15, 0xffff, 0x0000]);
}

#[test]
fn lineblur_kernel_blends_then_blurs() {
    let alphas = [0u8, 255];
    // center dark, neighbours lit: the average brightens the center
    let c = lineblur_kernel([1, 0, 1], &alphas, 0xffff, 0x0000);
    assert_eq!(c, (15 << 11) | (31 << 5) | 15);
    // center lit: kept
    assert_eq!(lineblur_kernel([0, 1, 0], &alphas, 0xffff, 0x0000), 0xffff);
}

#[test]
fn texture_and_view_checks() {
    assert!(Tex1Data { width: 8, height: 2, data: leak(vec![0, 0]) }.is_valid());
    assert!(!Tex1Data { width: 8, height: 3, data: leak(vec![0, 0]) }.is_valid());
    assert!(Tex4Data { width: 2, height: 2, data: leak(vec![0, 0]) }.is_valid());
    assert!(!Tex4Data { width: 3, height: 2, data: leak(vec![0, 0]) }.is_valid());

    let view = ImgView::new(9, 3, 3);
    assert!(view.fits_in(9));
    assert!(!view.fits_in(8));
    assert!(!ImgView { offset: 0, len: 8, width: 3, height: 3, stride: 3 }.fits_in(9));
    assert!(!ImgView { offset: 0, len: 9, width: 4, height: 2, stride: 3 }.fits_in(9));
    assert!(view.can_sub_image(1, 1, 2, 2));
    assert!(!view.can_sub_image(2, 0, 2, 1));
    assert!(!view.can_sub_image(0, 2, 1, 2));
    assert!(!view.can_sub_image(0, 4, 0, 0));
}

#[test]
fn shadow_fit_check() {
    // one set texel at (0, 0): its foreground lands at 1 and its shadow one row below
    let tex = Tex1Data { width: 2, height: 2, data: leak(vec![0b0001]) };
    assert!(tex.shadow_fits_in(ImgView::new(9, 3, 3)));
    // a 1-wide view: the foreground one pixel to the right lands on the shadow position, inside
    assert!(tex.shadow_fits_in(ImgView::new(2, 1, 2)));
    // a view of a single pixel: the foreground lands past its slice
    assert!(!tex.shadow_fits_in(ImgView::new(1, 1, 1)));
    // no set texel: anything fits
    let blank = Tex1Data { width: 2, height: 2, data: leak(vec![0]) };
    assert!(blank.shadow_fits_in(ImgView::new(1, 1, 1)));
}
