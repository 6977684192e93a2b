use baam_3ds::image::ImgView;
use baam_3ds::lights::{LightAssets, LightColor, LightState};
use baam_3ds::scene::terminal::buffer::{FontAtlas, SCREEN_BYTES};
use baam_3ds::scene::{
    BreadcrumbRequest, CameraQrTestRequest, CameraRequest, LightsState, NetworkRequest, SceneAssets,
    SceneRequest, SceneState,
};
use baam_3ds::texture::{Tex1Data, Tex2Data, Tex4Data};

fn leak(bytes: Vec<u8>) -> &'static [u8] {
    Box::leak(bytes.into_boxed_slice())
}

fn palette(base: u16) -> [u16; 16] {
    core::array::from_fn(|i| base + i as u16)
}

fn light_assets() -> LightAssets {
    LightAssets {
        // every lamp texel is 1
        light: Tex4Data { width: 16, height: 16, data: leak(vec![0x11; 128]) },
        // every glow texel is 3
        glow_mask: Tex2Data { width: 24, height: 24, data: leak(vec![0xff; 144]) },
        glow_mask_alphas: [0, 0, 0, 200],
        red_on: palette(0x100),
        red_off: palette(0x200),
        green_on: palette(0x300),
        green_off: palette(0x400),
        yellow_on: palette(0x500),
        yellow_off: palette(0x600),
    }
}

#[test]
fn lamps_and_glow() {
    let assets = light_assets();
    let mut light = LightState::new();
    let mut buf = vec![0u16; 24 * 24];
    let view = ImgView::new(24 * 24, 24, 24);
    light.draw(&mut buf, view, LightColor::Red, false, &assets);
    // an unlit lamp is drawn in palette entry 1 of the off palette, without glow
    assert_eq!(buf[4 * 24 + 4], 0x201);
    assert_eq!(buf[0], 0);

    let mut buf = vec![0u16; 24 * 24];
    light.draw(&mut buf, view, LightColor::Green, true, &assets);
    // a lit green light glows at 200 * 120 / 100 = 240, truncated to 8 bits
    let glow = baam_3ds::blend::blend_rgb565(0, 0x301, 240);
    assert_eq!(buf[0], glow);
    assert_eq!(buf[4 * 24 + 4], baam_3ds::blend::blend_rgb565(0x301, 0x301, 240));

    let mut buf = vec![0u16; 24 * 24];
    light.draw(&mut buf, view, LightColor::Yellow, true, &assets);
    // 200 * 140 / 100 = 280, which keeps 24 in 8 bits
    assert_eq!(buf[0], baam_3ds::blend::blend_rgb565(0, 0x501, 24));
}

fn request(breadcrumb: BreadcrumbRequest, scan: CameraQrTestRequest) -> SceneRequest {
    SceneRequest {
        tick: 0,
        breadcrumb_request: breadcrumb,
        network_request: NetworkRequest { active: true, error: false },
        camera_request: CameraRequest { active: false, scan },
    }
}

#[test]
fn panel_lights_follow_the_request() {
    let assets = light_assets();
    let mut lights = LightsState::new();
    let mut buf = vec![0u16; 240 * 320];
    let view = ImgView::new(240 * 320, 240, 320);
    lights.draw(&mut buf, view, &request(BreadcrumbRequest::Mark(false), CameraQrTestRequest::Rejected), &assets);
    let lamp = |left: usize, top: usize| buf[(top + 4 + 8) * 240 + left + 4 + 12];
    assert_eq!(lamp(214, 3), 0x301); // login: green, on
    assert_eq!(lamp(214, 69), 0x101); // mark: red, on
    assert_eq!(lamp(214, 131), 0x401); // success: green, off
    assert_eq!(lamp(192, 258), 0x501); // net act: yellow, on
    assert_eq!(lamp(177, 258), 0x201); // net err: red, off
    assert_eq!(lamp(141, 258), 0x601); // cam act: yellow, off
    assert_eq!(lamp(126, 258), 0x101); // cam scn: red, on
}

fn test_font() -> FontAtlas {
    FontAtlas {
        glyphs: Tex1Data { width: 128, height: 224, data: leak(vec![0u8; 128 * 224 / 8]) },
        glyphs_per_row: 16,
    }
}

fn scene_assets() -> SceneAssets {
    SceneAssets {
        decor: Tex4Data { width: 240, height: 320, data: leak(vec![0x22; 240 * 320 / 2]) },
        decor_palette: palette(0x700),
        text_breadcrumbs: Tex1Data { width: 8, height: 10, data: leak(vec![0, 0, 0, 0, 0, 0x01, 0, 0, 0, 0]) },
        text_panel: Tex1Data { width: 8, height: 1, data: leak(vec![0x00]) },
        screen_overlay: Tex2Data { width: 3, height: 4, data: leak(vec![0x55, 0x55, 0x55]) },
        screen_overlay_palette: [0, 0x800, 0, 0],
        screen_overlay_palette_bot_right: [0, 0x900, 0, 0],
        screen_logo: Tex2Data { width: 216, height: 182, data: leak(vec![0u8; SCREEN_BYTES]) },
        font: test_font(),
        lights: light_assets(),
    }
}

#[test]
fn scene_draws_decor_labels_display_corners_and_lights() {
    let mut scene = SceneState::new(scene_assets());
    scene.terminal.push_string("hi\n");
    let mut buf = vec![0u16; 240 * 320];
    let view = ImgView::new(240 * 320, 240, 320);
    scene.draw(&mut buf, view, &request(BreadcrumbRequest::Success, CameraQrTestRequest::Idle));
    // decor everywhere else
    assert_eq!(buf[0], 0x702);
    // breadcrumb label: set texel (0, 5) at (220, 29) paints one pixel right, shadow below
    assert_eq!(buf[29 * 240 + 221], 0xffff);
    assert_eq!(buf[30 * 240 + 220], 0x7bcf);
    // rounded corners, top left and bottom right
    assert_eq!(buf[12 * 240 + 206], 0x800);
    assert_eq!(buf[232 * 240 + 13], 0x900);
    // lights
    assert_eq!(buf[(131 + 4) * 240 + 214 + 4], 0x301);
}

#[test]
fn scene_frame_does_not_depend_on_the_old_pixels() {
    let view = ImgView::new(240 * 320, 240, 320);
    let req = request(BreadcrumbRequest::Mark(false), CameraQrTestRequest::Rejected);
    let mut first = SceneState::new(scene_assets());
    let mut second = SceneState::new(scene_assets());
    first.terminal.push_string("ok\n");
    second.terminal.push_string("ok\n");
    let mut zeros = vec![0u16; 240 * 320];
    let mut noise: Vec<u16> = (0..240 * 320).map(|i| (i as u16).wrapping_mul(40503)).collect();
    first.draw(&mut zeros, view, &req);
    second.draw(&mut noise, view, &req);
    assert!(zeros == noise);
}

#[test]
fn scene_checks_before_drawing() {
    let assets = scene_assets();
    assert!(assets.is_valid());
    let mut broken = scene_assets();
    broken.screen_logo = Tex2Data { width: 216, height: 181, data: leak(vec![0u8; SCREEN_BYTES]) };
    assert!(!broken.is_valid());

    let scene = SceneState::new(assets);
    let req = request(BreadcrumbRequest::Login(true), CameraQrTestRequest::Idle);
    assert!(scene.can_draw(240 * 320, ImgView::new(240 * 320, 240, 320), &req));
    // a buffer shorter than the view
    assert!(!scene.can_draw(240 * 319, ImgView::new(240 * 320, 240, 320), &req));
    // a view too small for the lights
    assert!(!scene.can_draw(200 * 320, ImgView::new(200 * 320, 200, 320), &req));
    // a clock too late for the cursor's next blink
    let mut late = request(BreadcrumbRequest::Login(true), CameraQrTestRequest::Idle);
    late.tick = u32::MAX - 100;
    assert!(!scene.can_draw(240 * 320, ImgView::new(240 * 320, 240, 320), &late));
}
