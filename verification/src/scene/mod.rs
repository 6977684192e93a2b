//! The bottom screen scene: decorations, the terminal and the status lights.

pub mod terminal;

use vstd::prelude::*;

use crate::image::ImgView;
use crate::lights::{LightAssets, LightColor, LightState};
use crate::texture::{PixelRule, Tex1Data, Tex2Data, Tex4Data, Transform};
use terminal::buffer::FontAtlas;
use terminal::{blinked, display_result, typed_until, TerminalState, CURSOR_PERIOD};

verus! {

/// Progress shown by the three breadcrumb lights.
#[derive(Clone, Copy)]
pub enum BreadcrumbRequest {
    Login(bool),
    Mark(bool),
    Success,
}

/// State of the network lights.
pub struct NetworkRequest {
    pub active: bool,
    pub error: bool,
}

/// Outcome of the latest QR test, shown by the scan light.
pub enum CameraQrTestRequest {
    /// No QR test result to show.
    Idle,
    Accepted,
    Rejected,
}

/// State of the camera lights.
pub struct CameraRequest {
    pub active: bool,
    pub scan: CameraQrTestRequest,
}

/// Everything a frame of the scene shows beyond its own state.
pub struct SceneRequest {
    pub tick: u32,
    pub breadcrumb_request: BreadcrumbRequest,
    pub network_request: NetworkRequest,
    pub camera_request: CameraRequest,
}

/// A light slot: the 24 x 24 rectangle at `(left, top)` of the screen.
pub open spec fn light_rect(dest: ImgView, left: int, top: int) -> ImgView {
    dest.sub(left, top, 24, 24)
}

/// The light slot at `(left, top)` and the lamp inside it may be taken from `dest`.
pub open spec fn light_fits(dest: ImgView, left: int, top: int) -> bool {
    dest.can_sub(left, top, 24, 24) && light_rect(dest, left, top).can_sub(4, 4, 16, 16)
}

/// Colors and states of the login, mark and success breadcrumb lights.
pub open spec fn breadcrumb_lights(request: BreadcrumbRequest) -> (LightColor, bool, LightColor, bool, bool) {
    match request {
        BreadcrumbRequest::Login(true) => (LightColor::Green, true, LightColor::Green, false, false),
        BreadcrumbRequest::Login(false) => (LightColor::Red, true, LightColor::Green, false, false),
        BreadcrumbRequest::Mark(true) => (LightColor::Green, true, LightColor::Green, true, false),
        BreadcrumbRequest::Mark(false) => (LightColor::Green, true, LightColor::Red, true, false),
        BreadcrumbRequest::Success => (LightColor::Green, true, LightColor::Green, true, true),
    }
}

/// Color and state of the scan light.
pub open spec fn scan_light(scan: CameraQrTestRequest) -> (LightColor, bool) {
    match scan {
        CameraQrTestRequest::Idle => (LightColor::Green, false),
        CameraQrTestRequest::Accepted => (LightColor::Green, true),
        CameraQrTestRequest::Rejected => (LightColor::Red, true),
    }
}

/// Every light slot of the scene fits in `dest`.
pub open spec fn lights_fit(dest: ImgView) -> bool {
    &&& light_fits(dest, 214, 3)
    &&& light_fits(dest, 214, 69)
    &&& light_fits(dest, 214, 131)
    &&& light_fits(dest, 192, 258)
    &&& light_fits(dest, 177, 258)
    &&& light_fits(dest, 141, 258)
    &&& light_fits(dest, 126, 258)
}

/// `old` with all the lights drawn into `dest`, in order: the login, mark and success
/// breadcrumbs, "NET ACT", "NET ERR", "CAM ACT" and "CAM SCN".
pub open spec fn lights_result(
    old: Seq<u16>,
    dest: ImgView,
    request: SceneRequest,
    assets: LightAssets,
) -> Seq<u16> {
    let (login_color, login_state, mark_color, mark_state, success_state) = breadcrumb_lights(
        request.breadcrumb_request,
    );
    let (scan_color, scan_state) = scan_light(request.camera_request.scan);
    let s1 = assets.light_result(old, light_rect(dest, 214, 3), login_color, login_state);
    let s2 = assets.light_result(s1, light_rect(dest, 214, 69), mark_color, mark_state);
    let s3 = assets.light_result(s2, light_rect(dest, 214, 131), LightColor::Green, success_state);
    let s4 = assets.light_result(
        s3,
        light_rect(dest, 192, 258),
        LightColor::Yellow,
        request.network_request.active,
    );
    let s5 = assets.light_result(
        s4,
        light_rect(dest, 177, 258),
        LightColor::Red,
        request.network_request.error,
    );
    let s6 = assets.light_result(
        s5,
        light_rect(dest, 141, 258),
        LightColor::Yellow,
        request.camera_request.active,
    );
    assets.light_result(s6, light_rect(dest, 126, 258), scan_color, scan_state)
}

/// The seven indicator lights of the scene.
pub struct LightsState {
    // breadcrumb LEDs
    breadcrumb_login: LightState,
    breadcrumb_mark: LightState,
    breadcrumb_success: LightState,
    // NET panel
    net_act: LightState,
    net_err: LightState,
    // CAM panel
    cam_act: LightState,
    cam_scn: LightState,
}

impl LightsState {
    /// The brightness kept by each light, in drawing order.
    pub closed spec fn luminosities(self) -> Seq<u8> {
        seq![
            self.breadcrumb_login.luminosity(),
            self.breadcrumb_mark.luminosity(),
            self.breadcrumb_success.luminosity(),
            self.net_act.luminosity(),
            self.net_err.luminosity(),
            self.cam_act.luminosity(),
            self.cam_scn.luminosity(),
        ]
    }

    /// The lights of a new scene, all at zero brightness.
    pub fn new() -> (lights: Self)
        ensures
            lights.luminosities() == seq![0u8, 0u8, 0u8, 0u8, 0u8, 0u8, 0u8],
    {
        Self {
            breadcrumb_login: LightState::new(),
            breadcrumb_mark: LightState::new(),
            breadcrumb_success: LightState::new(),
            net_act: LightState::new(),
            net_err: LightState::new(),
            cam_act: LightState::new(),
            cam_scn: LightState::new(),
        }
    }

    /// Draws the lights as `request` sets them.
    pub fn draw(&mut self, buf: &mut Vec<u16>, dest: ImgView, request: &SceneRequest, assets: &LightAssets)
        requires
            assets.wf(),
            dest.fits(old(buf)@.len() as int),
            lights_fit(dest),
        ensures
            final(buf)@ == lights_result(old(buf)@, dest, *request, *assets),
            final(self).luminosities() == old(self).luminosities(),
    {
        let (login_color, login_state, mark_color, mark_state, success_state) =
            match request.breadcrumb_request {
                BreadcrumbRequest::Login(true) => (LightColor::Green, true, LightColor::Green, false, false),
                BreadcrumbRequest::Login(false) => (LightColor::Red, true, LightColor::Green, false, false),
                BreadcrumbRequest::Mark(true) => (LightColor::Green, true, LightColor::Green, true, false),
                BreadcrumbRequest::Mark(false) => (LightColor::Green, true, LightColor::Red, true, false),
                BreadcrumbRequest::Success => (LightColor::Green, true, LightColor::Green, true, true),
            };

        self.breadcrumb_login.draw(buf, dest.sub_image(214, 3, 24, 24), login_color, login_state, assets);
        self.breadcrumb_mark.draw(buf, dest.sub_image(214, 69, 24, 24), mark_color, mark_state, assets);
        self.breadcrumb_success.draw(buf, dest.sub_image(214, 131, 24, 24), LightColor::Green, success_state, assets);

        // "NET ACT" LED
        self.net_act.draw(buf, dest.sub_image(192, 258, 24, 24), LightColor::Yellow, request.network_request.active, assets);
        // "NET ERR" LED
        self.net_err.draw(buf, dest.sub_image(177, 258, 24, 24), LightColor::Red, request.network_request.error, assets);

        // "CAM ACT" LED
        self.cam_act.draw(buf, dest.sub_image(141, 258, 24, 24), LightColor::Yellow, request.camera_request.active, assets);

        let (cam_scn_color, cam_scn_state) = match request.camera_request.scan {
            CameraQrTestRequest::Idle => (LightColor::Green, false),
            CameraQrTestRequest::Accepted => (LightColor::Green, true),
            CameraQrTestRequest::Rejected => (LightColor::Red, true),
        };

        // "CAM SCN" LED
        self.cam_scn.draw(buf, dest.sub_image(126, 258, 24, 24), cam_scn_color, cam_scn_state, assets);
    }
}

/// Textures and palettes of the scene.
pub struct SceneAssets {
    /// The full-screen decoration.
    pub decor: Tex4Data<'static>,
    pub decor_palette: [u16; 16],
    /// Labels of the breadcrumb lights.
    pub text_breadcrumbs: Tex1Data<'static>,
    /// Labels of the light panel.
    pub text_panel: Tex1Data<'static>,
    /// A rounded inner corner of the display.
    pub screen_overlay: Tex2Data<'static>,
    pub screen_overlay_palette: [u16; 4],
    pub screen_overlay_palette_bot_right: [u16; 4],
    /// The picture the terminal starts with.
    pub screen_logo: Tex2Data<'static>,
    /// The terminal's font.
    pub font: FontAtlas,
    /// The indicator lights.
    pub lights: LightAssets,
}

impl SceneAssets {
    /// Every texture holds all its texels, the logo fills the terminal screen and the font holds
    /// every glyph.
    pub open spec fn wf(self) -> bool {
        &&& self.decor.wf()
        &&& self.text_breadcrumbs.wf()
        &&& self.text_panel.wf()
        &&& self.screen_overlay.wf()
        &&& self.screen_logo.width == terminal::buffer::WIDTH
        &&& self.screen_logo.height == terminal::buffer::HEIGHT
        &&& self.screen_logo.data@.len() == terminal::buffer::SCREEN_BYTES
        &&& self.font.wf()
        &&& self.lights.wf()
    }

    /// Whether the assets are usable: see [`SceneAssets::wf`].
    pub fn is_valid(&self) -> (ok: bool)
        ensures
            ok == self.wf(),
    {
        self.decor.is_valid() && self.text_breadcrumbs.is_valid() && self.text_panel.is_valid()
            && self.screen_overlay.is_valid() && self.screen_logo.width == terminal::buffer::WIDTH
            && self.screen_logo.height == terminal::buffer::HEIGHT
            && self.screen_logo.data.len() == terminal::buffer::SCREEN_BYTES && self.font.is_valid()
            && self.lights.is_valid()
    }
}

/// Whether the light slot at `(left, top)` and the lamp inside it may be taken from `dest`.
fn light_fits_in(dest: &ImgView, left: usize, top: usize) -> (ok: bool)
    requires
        dest.wf(),
    ensures
        ok == light_fits(*dest, left as int, top as int),
{
    if !dest.can_sub_image(left, top, 24, 24) {
        return false;
    }
    let slot = dest.sub_image(left, top, 24, 24);
    slot.can_sub_image(4, 4, 16, 16)
}

/// Whether every light slot of the scene fits in `dest`.
fn lights_fit_in(dest: &ImgView) -> (ok: bool)
    requires
        dest.wf(),
    ensures
        ok == lights_fit(*dest),
{
    light_fits_in(dest, 214, 3) && light_fits_in(dest, 214, 69) && light_fits_in(dest, 214, 131)
        && light_fits_in(dest, 192, 258) && light_fits_in(dest, 177, 258) && light_fits_in(
        dest,
        141,
        258,
    ) && light_fits_in(dest, 126, 258)
}

/// Text color of the labels.
pub const LABEL_COLOR: u16 = 0xffff;

/// Shadow color of the labels.
pub const LABEL_SHADOW: u16 = 0x7bcf;

/// Every part of the scene fits in `dest`, and the labels' shadows stay inside their areas.
pub open spec fn scene_fits(dest: ImgView, assets: SceneAssets) -> bool {
    &&& dest.can_sub(220, 24, 12, 177)
    &&& dest.can_sub(126, 258, 97, 48)
    &&& assets.text_breadcrumbs.shadow_fits(dest.sub(220, 24, 12, 177))
    &&& assets.text_panel.shadow_fits(dest.sub(126, 258, 97, 48))
    &&& 13 + terminal::DISPLAY_WIDTH <= dest.width
    &&& 12 + terminal::DISPLAY_HEIGHT <= dest.height
    &&& dest.stride * (12 + terminal::DISPLAY_HEIGHT) + 13 <= usize::MAX
    &&& dest.can_sub(206, 12, 3, 4)
    &&& dest.can_sub(13, 12, 3, 4)
    &&& dest.can_sub(206, 232, 3, 4)
    &&& dest.can_sub(13, 232, 3, 4)
    &&& lights_fit(dest)
}

/// `old` with the whole scene drawn into `dest`, the terminal showing `screen`: decoration,
/// labels, the terminal's display, the display's rounded corners, and the lights.
pub open spec fn scene_result(
    old: Seq<u16>,
    dest: ImgView,
    request: SceneRequest,
    assets: SceneAssets,
    screen: Seq<u8>,
) -> Seq<u16> {
    let no_flip = Transform { flip_x: false, flip_y: false };
    let s1 = assets.decor.draw_result(old, dest, no_flip, PixelRule::Palette(assets.decor_palette@));
    scene_layers(s1, dest, request, assets, screen)
}

/// `s1` with everything the scene draws over its decoration: labels, the terminal's display, the
/// display's rounded corners, and the lights.
pub open spec fn scene_layers(
    s1: Seq<u16>,
    dest: ImgView,
    request: SceneRequest,
    assets: SceneAssets,
    screen: Seq<u8>,
) -> Seq<u16> {
    let s2 = assets.text_breadcrumbs.shadow_walk(
        s1,
        dest.sub(220, 24, 12, 177),
        LABEL_COLOR,
        LABEL_SHADOW,
        (assets.text_breadcrumbs.width * assets.text_breadcrumbs.height) as nat,
    );
    let s3 = assets.text_panel.shadow_walk(
        s2,
        dest.sub(126, 258, 97, 48),
        LABEL_COLOR,
        LABEL_SHADOW,
        (assets.text_panel.width * assets.text_panel.height) as nat,
    );
    display_and_lights(s3, dest, request, assets, screen)
}

/// `s3` with the terminal's display, the display's rounded corners and the lights drawn over it.
pub open spec fn display_and_lights(
    s3: Seq<u16>,
    dest: ImgView,
    request: SceneRequest,
    assets: SceneAssets,
    screen: Seq<u8>,
) -> Seq<u16> {
    let s4 = display_result(s3, dest, screen);
    let s5 = assets.screen_overlay.draw_result(
        s4,
        dest.sub(206, 12, 3, 4),
        Transform { flip_x: false, flip_y: false },
        PixelRule::PaletteKeyed(assets.screen_overlay_palette@),
    );
    let s6 = assets.screen_overlay.draw_result(
        s5,
        dest.sub(13, 12, 3, 4),
        Transform { flip_x: true, flip_y: false },
        PixelRule::PaletteKeyed(assets.screen_overlay_palette@),
    );
    let s7 = assets.screen_overlay.draw_result(
        s6,
        dest.sub(206, 232, 3, 4),
        Transform { flip_x: false, flip_y: true },
        PixelRule::PaletteKeyed(assets.screen_overlay_palette@),
    );
    let s8 = assets.screen_overlay.draw_result(
        s7,
        dest.sub(13, 232, 3, 4),
        Transform { flip_x: true, flip_y: true },
        PixelRule::PaletteKeyed(assets.screen_overlay_palette_bot_right@),
    );
    lights_result(s8, dest, request, assets.lights)
}

/// The bottom screen: the terminal, the lights, and the assets they are drawn with.
pub struct SceneState {
    pub terminal: TerminalState,
    lights: LightsState,
    assets: SceneAssets,
}

impl SceneState {
    /// The scene's terminal.
    pub closed spec fn terminal_state(self) -> TerminalState {
        self.terminal
    }

    /// The scene's lights.
    pub closed spec fn lights_state(self) -> LightsState {
        self.lights
    }

    /// The scene's assets.
    pub closed spec fn assets(self) -> SceneAssets {
        self.assets
    }

    /// The assets are usable and the terminal is consistent with them.
    pub closed spec fn wf(self) -> bool {
        &&& self.assets.wf()
        &&& self.terminal.wf()
    }

    /// A scene drawn with `assets`, its terminal showing the logo with nothing queued.
    pub fn new(assets: SceneAssets) -> (scene: Self)
        requires
            assets.wf(),
        ensures
            scene.wf(),
            scene.assets() == assets,
            scene.terminal_state().font() == assets.font,
            scene.terminal_state().model().screen == assets.screen_logo.data@,
            scene.terminal_state().model().queue.len() == 0,
            scene.terminal_state().model().cursor == 0,
            scene.lights_state().luminosities() == seq![0u8, 0u8, 0u8, 0u8, 0u8, 0u8, 0u8],
    {
        Self {
            terminal: TerminalState::new(assets.screen_logo, assets.font),
            lights: LightsState::new(),
            assets,
        }
    }

    /// Whether [`SceneState::draw`] may draw `request` into `dest` of a buffer of `buf_len`
    /// pixels: the view fits the buffer, the scene fits the view, the cursor's next blink tick
    /// fits a `u32`, and typing the queue keeps the cursor within a `usize`.
    pub fn can_draw(&self, buf_len: usize, dest: ImgView, request: &SceneRequest) -> (ok: bool)
        requires
            self.wf(),
        ensures
            ok == (dest.fits(buf_len as int) && scene_fits(dest, self.assets()) && request.tick
                + CURSOR_PERIOD <= u32::MAX && self.terminal_state().model().cursor
                + self.terminal_state().model().queue.len() <= usize::MAX),
    {
        if !dest.fits_in(buf_len) || request.tick > u32::MAX - CURSOR_PERIOD
            || !self.terminal.queue_fits() {
            return false;
        }
        let assets = &self.assets;
        if !dest.can_sub_image(220, 24, 12, 177) || !dest.can_sub_image(126, 258, 97, 48) {
            return false;
        }
        let labels = assets.text_breadcrumbs.shadow_fits_in(dest.sub_image(220, 24, 12, 177))
            && assets.text_panel.shadow_fits_in(dest.sub_image(126, 258, 97, 48));
        let display = 13 + terminal::DISPLAY_WIDTH <= dest.width
            && 12 + terminal::DISPLAY_HEIGHT <= dest.height
            && match dest.stride.checked_mul(12 + terminal::DISPLAY_HEIGHT) {
            Some(rows) => rows <= usize::MAX - 13,
            None => false,
        };
        labels && display && dest.can_sub_image(206, 12, 3, 4) && dest.can_sub_image(13, 12, 3, 4)
            && dest.can_sub_image(206, 232, 3, 4) && dest.can_sub_image(13, 232, 3, 4)
            && lights_fit_in(&dest)
    }

    /// Brings the terminal up to `request.tick` and draws the whole scene into `dest`.
    pub fn draw(&mut self, buf: &mut Vec<u16>, dest: ImgView, request: &SceneRequest)
        requires
            old(self).wf(),
            dest.fits(old(buf)@.len() as int),
            scene_fits(dest, old(self).assets()),
            request.tick + CURSOR_PERIOD <= u32::MAX,
            old(self).terminal_state().model().cursor + old(self).terminal_state().model().queue.len() <= usize::MAX,
        ensures
            final(self).wf(),
            final(self).assets() == old(self).assets(),
            final(self).lights_state().luminosities() == old(self).lights_state().luminosities(),
            final(self).terminal_state().font() == old(self).terminal_state().font(),
            final(self).terminal_state().model() == blinked(
                typed_until(old(self).terminal_state().model(), old(self).terminal_state().font(), request.tick as int),
                request.tick as int,
            ),
            final(buf)@ == scene_result(
                old(buf)@,
                dest,
                *request,
                old(self).assets(),
                final(self).terminal_state().model().screen,
            ),
    {
        let assets = &self.assets;
        assets.decor.draw_paletted_opaque(buf, dest, &assets.decor_palette);
        assets.text_breadcrumbs.draw_with_shadow(
            buf,
            dest.sub_image(220, 24, 12, 177),
            LABEL_COLOR,
            LABEL_SHADOW,
        );
        assets.text_panel.draw_with_shadow(
            buf,
            dest.sub_image(126, 258, 97, 48),
            LABEL_COLOR,
            LABEL_SHADOW,
        );

        // display contents
        self.terminal.draw(buf, dest, request);

        // display overlay (inner rounded corners)
        let assets = &self.assets;
        // top left
        assets.screen_overlay.draw_paletted_transparent_with_transform(
            buf,
            dest.sub_image(206, 12, 3, 4),
            &assets.screen_overlay_palette,
            Transform { flip_x: false, flip_y: false },
        );
        // bottom left
        assets.screen_overlay.draw_paletted_transparent_with_transform(
            buf,
            dest.sub_image(13, 12, 3, 4),
            &assets.screen_overlay_palette,
            Transform { flip_x: true, flip_y: false },
        );
        // top right
        assets.screen_overlay.draw_paletted_transparent_with_transform(
            buf,
            dest.sub_image(206, 232, 3, 4),
            &assets.screen_overlay_palette,
            Transform { flip_x: false, flip_y: true },
        );
        // bottom right
        assets.screen_overlay.draw_paletted_transparent_with_transform(
            buf,
            dest.sub_image(13, 232, 3, 4),
            &assets.screen_overlay_palette_bot_right,
            Transform { flip_x: true, flip_y: true },
        );

        // lights
        self.lights.draw(buf, dest, request, &self.assets.lights);
    }
}

/// Each light is drawn pixel by pixel: a position that held the same value in two buffers of the
/// same length holds the same value after all the lights are drawn.
proof fn lemma_lights_result_pointwise(
    a: Seq<u16>,
    b: Seq<u16>,
    dest: ImgView,
    request: SceneRequest,
    assets: LightAssets,
    i: int,
)
    requires
        a.len() == b.len(),
        0 <= i < a.len(),
        a[i] == b[i],
    ensures
        lights_result(a, dest, request, assets).len() == a.len(),
        lights_result(b, dest, request, assets).len() == b.len(),
        lights_result(a, dest, request, assets)[i] == lights_result(b, dest, request, assets)[i],
{
    let (login_color, login_state, mark_color, mark_state, success_state) = breadcrumb_lights(
        request.breadcrumb_request,
    );
    let (scan_color, scan_state) = scan_light(request.camera_request.scan);
    let r1 = light_rect(dest, 214, 3);
    let r2 = light_rect(dest, 214, 69);
    let r3 = light_rect(dest, 214, 131);
    let r4 = light_rect(dest, 192, 258);
    let r5 = light_rect(dest, 177, 258);
    let r6 = light_rect(dest, 141, 258);
    let r7 = light_rect(dest, 126, 258);
    let a1 = assets.light_result(a, r1, login_color, login_state);
    let b1 = assets.light_result(b, r1, login_color, login_state);
    assets.lemma_light_result_pointwise(a, b, r1, login_color, login_state, i);
    let a2 = assets.light_result(a1, r2, mark_color, mark_state);
    let b2 = assets.light_result(b1, r2, mark_color, mark_state);
    assets.lemma_light_result_pointwise(a1, b1, r2, mark_color, mark_state, i);
    let a3 = assets.light_result(a2, r3, LightColor::Green, success_state);
    let b3 = assets.light_result(b2, r3, LightColor::Green, success_state);
    assets.lemma_light_result_pointwise(a2, b2, r3, LightColor::Green, success_state, i);
    let on4 = request.network_request.active;
    let a4 = assets.light_result(a3, r4, LightColor::Yellow, on4);
    let b4 = assets.light_result(b3, r4, LightColor::Yellow, on4);
    assets.lemma_light_result_pointwise(a3, b3, r4, LightColor::Yellow, on4, i);
    let on5 = request.network_request.error;
    let a5 = assets.light_result(a4, r5, LightColor::Red, on5);
    let b5 = assets.light_result(b4, r5, LightColor::Red, on5);
    assets.lemma_light_result_pointwise(a4, b4, r5, LightColor::Red, on5, i);
    let on6 = request.camera_request.active;
    let a6 = assets.light_result(a5, r6, LightColor::Yellow, on6);
    let b6 = assets.light_result(b5, r6, LightColor::Yellow, on6);
    assets.lemma_light_result_pointwise(a5, b5, r6, LightColor::Yellow, on6, i);
    assets.lemma_light_result_pointwise(a6, b6, r7, scan_color, scan_state, i);
}

/// Everything drawn over the decoration is drawn pixel by pixel: a position that held the same
/// value in two buffers of the same length holds the same value afterwards.
proof fn lemma_scene_layers_pointwise(
    a: Seq<u16>,
    b: Seq<u16>,
    dest: ImgView,
    request: SceneRequest,
    assets: SceneAssets,
    screen: Seq<u8>,
    i: int,
)
    requires
        dest.fits(a.len() as int),
        scene_fits(dest, assets),
        a.len() == b.len(),
        0 <= i < a.len(),
        a[i] == b[i],
    ensures
        scene_layers(a, dest, request, assets, screen).len() == a.len(),
        scene_layers(b, dest, request, assets, screen).len() == b.len(),
        scene_layers(a, dest, request, assets, screen)[i] == scene_layers(
            b,
            dest,
            request,
            assets,
            screen,
        )[i],
{
    let d1 = dest.sub(220, 24, 12, 177);
    let d2 = dest.sub(126, 258, 97, 48);
    let k1 = (assets.text_breadcrumbs.width * assets.text_breadcrumbs.height) as nat;
    let k2 = (assets.text_panel.width * assets.text_panel.height) as nat;
    dest.lemma_sub_fits(220, 24, 12, 177);
    dest.lemma_sub_fits(126, 258, 97, 48);
    let a2 = assets.text_breadcrumbs.shadow_walk(a, d1, LABEL_COLOR, LABEL_SHADOW, k1);
    let b2 = assets.text_breadcrumbs.shadow_walk(b, d1, LABEL_COLOR, LABEL_SHADOW, k1);
    assets.text_breadcrumbs.lemma_shadow_walk_pointwise(a, b, d1, LABEL_COLOR, LABEL_SHADOW, k1, i);
    let a3 = assets.text_panel.shadow_walk(a2, d2, LABEL_COLOR, LABEL_SHADOW, k2);
    let b3 = assets.text_panel.shadow_walk(b2, d2, LABEL_COLOR, LABEL_SHADOW, k2);
    assets.text_panel.lemma_shadow_walk_pointwise(a2, b2, d2, LABEL_COLOR, LABEL_SHADOW, k2, i);
    let a4 = display_result(a3, dest, screen);
    let b4 = display_result(b3, dest, screen);
    assert(a4.len() == a.len() && b4.len() == b.len() && a4[i] == b4[i]);
    let a5 = assets.screen_overlay.draw_result(
        a4,
        dest.sub(206, 12, 3, 4),
        Transform { flip_x: false, flip_y: false },
        PixelRule::PaletteKeyed(assets.screen_overlay_palette@),
    );
    let b5 = assets.screen_overlay.draw_result(
        b4,
        dest.sub(206, 12, 3, 4),
        Transform { flip_x: false, flip_y: false },
        PixelRule::PaletteKeyed(assets.screen_overlay_palette@),
    );
    assert(a5.len() == a.len() && b5.len() == b.len() && a5[i] == b5[i]);
    let a6 = assets.screen_overlay.draw_result(
        a5,
        dest.sub(13, 12, 3, 4),
        Transform { flip_x: true, flip_y: false },
        PixelRule::PaletteKeyed(assets.screen_overlay_palette@),
    );
    let b6 = assets.screen_overlay.draw_result(
        b5,
        dest.sub(13, 12, 3, 4),
        Transform { flip_x: true, flip_y: false },
        PixelRule::PaletteKeyed(assets.screen_overlay_palette@),
    );
    assert(a6.len() == a.len() && b6.len() == b.len() && a6[i] == b6[i]);
    let a7 = assets.screen_overlay.draw_result(
        a6,
        dest.sub(206, 232, 3, 4),
        Transform { flip_x: false, flip_y: true },
        PixelRule::PaletteKeyed(assets.screen_overlay_palette@),
    );
    let b7 = assets.screen_overlay.draw_result(
        b6,
        dest.sub(206, 232, 3, 4),
        Transform { flip_x: false, flip_y: true },
        PixelRule::PaletteKeyed(assets.screen_overlay_palette@),
    );
    assert(a7.len() == a.len() && b7.len() == b.len() && a7[i] == b7[i]);
    let a8 = assets.screen_overlay.draw_result(
        a7,
        dest.sub(13, 232, 3, 4),
        Transform { flip_x: true, flip_y: true },
        PixelRule::PaletteKeyed(assets.screen_overlay_palette_bot_right@),
    );
    let b8 = assets.screen_overlay.draw_result(
        b7,
        dest.sub(13, 232, 3, 4),
        Transform { flip_x: true, flip_y: true },
        PixelRule::PaletteKeyed(assets.screen_overlay_palette_bot_right@),
    );
    assert(a8.len() == a.len() && b8.len() == b.len() && a8[i] == b8[i]);
    lemma_lights_result_pointwise(a8, b8, dest, request, assets.lights, i);
}

/// With a decoration at least as large as `dest`, which paints every pixel of `dest` from its
/// palette, the frame does not depend on what the buffer held before: from two buffers of the
/// same length that `dest` fits in, the scene draws the same pixels everywhere inside `dest`.
pub proof fn lemma_scene_frame_ignores_old_pixels(
    old1: Seq<u16>,
    old2: Seq<u16>,
    dest: ImgView,
    request: SceneRequest,
    assets: SceneAssets,
    screen: Seq<u8>,
)
    requires
        dest.fits(old1.len() as int),
        scene_fits(dest, assets),
        old1.len() == old2.len(),
        dest.width <= assets.decor.width,
        dest.height <= assets.decor.height,
    ensures
        forall|i: int|
            0 <= i < old1.len() && dest.covers(i) ==> #[trigger] scene_result(
                old1,
                dest,
                request,
                assets,
                screen,
            )[i] == scene_result(old2, dest, request, assets, screen)[i],
{
    let no_flip = Transform { flip_x: false, flip_y: false };
    let a1 = assets.decor.draw_result(old1, dest, no_flip, PixelRule::Palette(assets.decor_palette@));
    let b1 = assets.decor.draw_result(old2, dest, no_flip, PixelRule::Palette(assets.decor_palette@));
    assert forall|i: int|
        0 <= i < old1.len() && dest.covers(i) implies #[trigger] scene_result(
            old1,
            dest,
            request,
            assets,
            screen,
        )[i] == scene_result(old2, dest, request, assets, screen)[i] by {
        assert(a1[i] == b1[i]);
        lemma_scene_layers_pointwise(a1, b1, dest, request, assets, screen, i);
    }
}

/// The breadcrumb lights show the flow's progress: the login light is always on, the mark light
/// is on from the mark step on and the success light only on success; a breadcrumb light is red
/// exactly when the step it stands for has failed (the login light for a failed login check, the
/// mark light for a failed mark) and green otherwise. The scan light is on exactly when a
/// scanned code was judged, and red exactly when it was rejected.
pub proof fn lemma_lights_show_progress(request: BreadcrumbRequest, scan: CameraQrTestRequest)
    ensures
        ({
            let (login_color, login_on, mark_color, mark_on, success_on) = breadcrumb_lights(request);
            &&& login_on
            &&& mark_on <==> !(request is Login)
            &&& success_on <==> request is Success
            &&& (login_color == LightColor::Red) <==> request == BreadcrumbRequest::Login(false)
            &&& login_color != LightColor::Red ==> login_color == LightColor::Green
            &&& (mark_color == LightColor::Red) <==> request == BreadcrumbRequest::Mark(false)
            &&& mark_color != LightColor::Red ==> mark_color == LightColor::Green
        }),
        ({
            let (scan_color, scan_on) = scan_light(scan);
            &&& scan_on <==> !(scan is Idle)
            &&& (scan_color == LightColor::Red) <==> scan is Rejected
            &&& scan_color != LightColor::Red ==> scan_color == LightColor::Green
        }),
{
}

/// Whether pixel `(x, y)` lies in the 24 x 24 light slot at `(left, top)`.
pub open spec fn in_light_slot(x: int, y: int, left: int, top: int) -> bool {
    left <= x < left + 24 && top <= y < top + 24
}

/// Drawing the lights changes no pixel of `dest` outside the seven light slots.
proof fn lemma_lights_keep_outside(
    buf: Seq<u16>,
    dest: ImgView,
    request: SceneRequest,
    assets: LightAssets,
    x: int,
    y: int,
)
    requires
        dest.wf(),
        lights_fit(dest),
        0 <= x < dest.stride,
        0 <= y,
        0 <= dest.index(x, y) < buf.len(),
        !in_light_slot(x, y, 214, 3),
        !in_light_slot(x, y, 214, 69),
        !in_light_slot(x, y, 214, 131),
        !in_light_slot(x, y, 192, 258),
        !in_light_slot(x, y, 177, 258),
        !in_light_slot(x, y, 141, 258),
        !in_light_slot(x, y, 126, 258),
    ensures
        lights_result(buf, dest, request, assets)[dest.index(x, y)] == buf[dest.index(x, y)],
{
    let (login_color, login_state, mark_color, mark_state, success_state) = breadcrumb_lights(
        request.breadcrumb_request,
    );
    let (scan_color, scan_state) = scan_light(request.camera_request.scan);
    let s1 = assets.light_result(buf, light_rect(dest, 214, 3), login_color, login_state);
    assets.lemma_light_keeps_outside(buf, dest, 214, 3, login_color, login_state, x, y);
    let s2 = assets.light_result(s1, light_rect(dest, 214, 69), mark_color, mark_state);
    assets.lemma_light_keeps_outside(s1, dest, 214, 69, mark_color, mark_state, x, y);
    let s3 = assets.light_result(s2, light_rect(dest, 214, 131), LightColor::Green, success_state);
    assets.lemma_light_keeps_outside(s2, dest, 214, 131, LightColor::Green, success_state, x, y);
    let on4 = request.network_request.active;
    let s4 = assets.light_result(s3, light_rect(dest, 192, 258), LightColor::Yellow, on4);
    assets.lemma_light_keeps_outside(s3, dest, 192, 258, LightColor::Yellow, on4, x, y);
    let on5 = request.network_request.error;
    let s5 = assets.light_result(s4, light_rect(dest, 177, 258), LightColor::Red, on5);
    assets.lemma_light_keeps_outside(s4, dest, 177, 258, LightColor::Red, on5, x, y);
    let on6 = request.camera_request.active;
    let s6 = assets.light_result(s5, light_rect(dest, 141, 258), LightColor::Yellow, on6);
    assets.lemma_light_keeps_outside(s5, dest, 141, 258, LightColor::Yellow, on6, x, y);
    assets.lemma_light_keeps_outside(s6, dest, 126, 258, scan_color, scan_state, x, y);
}

/// The panel labels are drawn in the label color: in the finished frame, the pixel one to the
/// right of every set texel of the panel-label texture shows `LABEL_COLOR` (in the panel's rows
/// below its lamps, which no later layer covers).
pub proof fn lemma_panel_labels_in_label_color(
    old: Seq<u16>,
    dest: ImgView,
    request: SceneRequest,
    assets: SceneAssets,
    screen: Seq<u8>,
    x: int,
    y: int,
)
    requires
        dest.fits(old.len() as int),
        scene_fits(dest, assets),
        0 <= x < assets.text_panel.width,
        x + 1 < 97,
        25 <= y < assets.text_panel.height,
        assets.text_panel.texel(x, y) != 0,
    ensures
        scene_result(old, dest, request, assets, screen)[dest.index(126 + x + 1, 258 + y)]
            == LABEL_COLOR,
{
    let s = dest.stride as int;
    let no_flip = Transform { flip_x: false, flip_y: false };
    let a1 = assets.decor.draw_result(old, dest, no_flip, PixelRule::Palette(assets.decor_palette@));
    let d1 = dest.sub(220, 24, 12, 177);
    let d2 = dest.sub(126, 258, 97, 48);
    let k1 = (assets.text_breadcrumbs.width * assets.text_breadcrumbs.height) as nat;
    let k2 = (assets.text_panel.width * assets.text_panel.height) as nat;
    dest.lemma_sub_fits(220, 24, 12, 177);
    dest.lemma_sub_fits(126, 258, 97, 48);
    let a2 = assets.text_breadcrumbs.shadow_walk(a1, d1, LABEL_COLOR, LABEL_SHADOW, k1);
    assets.text_breadcrumbs.lemma_shadow_walk_pointwise(a1, a1, d1, LABEL_COLOR, LABEL_SHADOW, k1, 0);
    let a3 = assets.text_panel.shadow_walk(a2, d2, LABEL_COLOR, LABEL_SHADOW, k2);
    assets.text_panel.lemma_shadow_walk_pointwise(a2, a2, d2, LABEL_COLOR, LABEL_SHADOW, k2, 0);
    assets.text_panel.lemma_shadow_walk_foreground(a2, d2, LABEL_COLOR, LABEL_SHADOW, x, y);
    let p = dest.index(127 + x, 258 + y);
    assert(Tex1Data::shadow_fg_pos(d2, x, y) == p) by (nonlinear_arith)
        requires
            d2.offset == dest.offset + s * 258 + 126,
            d2.stride == s,
            p == dest.offset + (258 + y) * s + 127 + x,
    ;
    assert(a3[p] == LABEL_COLOR);
    lemma_rows_below_lamps_kept(a3, dest, request, assets, screen, 127 + x, 258 + y);
}

/// In the frame, the login light's slot shows the login light lit, red when the login check has
/// failed (`Login(false)`) and green for every other request: the other lights leave the slot
/// as drawing the login light left it.
pub proof fn lemma_login_light_in_frame(
    buf: Seq<u16>,
    dest: ImgView,
    request: SceneRequest,
    assets: LightAssets,
    x: int,
    y: int,
)
    requires
        dest.wf(),
        lights_fit(dest),
        in_light_slot(x, y, 214, 3),
        0 <= dest.index(x, y) < buf.len(),
    ensures
        lights_result(buf, dest, request, assets)[dest.index(x, y)] == assets.light_result(
            buf,
            light_rect(dest, 214, 3),
            if request.breadcrumb_request == BreadcrumbRequest::Login(false) {
                LightColor::Red
            } else {
                LightColor::Green
            },
            true,
        )[dest.index(x, y)],
{
    lemma_lights_show_progress(request.breadcrumb_request, request.camera_request.scan);
    let (login_color, login_state, mark_color, mark_state, success_state) = breadcrumb_lights(
        request.breadcrumb_request,
    );
    let (scan_color, scan_state) = scan_light(request.camera_request.scan);
    let s1 = assets.light_result(buf, light_rect(dest, 214, 3), login_color, login_state);
    assets.lemma_light_result_pointwise(buf, buf, light_rect(dest, 214, 3), login_color, login_state, dest.index(x, y));
    let s2 = assets.light_result(s1, light_rect(dest, 214, 69), mark_color, mark_state);
    assets.lemma_light_keeps_outside(s1, dest, 214, 69, mark_color, mark_state, x, y);
    let s3 = assets.light_result(s2, light_rect(dest, 214, 131), LightColor::Green, success_state);
    assets.lemma_light_keeps_outside(s2, dest, 214, 131, LightColor::Green, success_state, x, y);
    let on4 = request.network_request.active;
    let s4 = assets.light_result(s3, light_rect(dest, 192, 258), LightColor::Yellow, on4);
    assets.lemma_light_keeps_outside(s3, dest, 192, 258, LightColor::Yellow, on4, x, y);
    let on5 = request.network_request.error;
    let s5 = assets.light_result(s4, light_rect(dest, 177, 258), LightColor::Red, on5);
    assets.lemma_light_keeps_outside(s4, dest, 177, 258, LightColor::Red, on5, x, y);
    let on6 = request.camera_request.active;
    let s6 = assets.light_result(s5, light_rect(dest, 141, 258), LightColor::Yellow, on6);
    assets.lemma_light_keeps_outside(s5, dest, 141, 258, LightColor::Yellow, on6, x, y);
    assets.lemma_light_keeps_outside(s6, dest, 126, 258, scan_color, scan_state, x, y);
}

/// The display, its corners and the lights leave the rows below the panel's lamps as they were.
proof fn lemma_rows_below_lamps_kept(
    s3: Seq<u16>,
    dest: ImgView,
    request: SceneRequest,
    assets: SceneAssets,
    screen: Seq<u8>,
    x: int,
    y: int,
)
    requires
        dest.wf(),
        scene_fits(dest, assets),
        0 <= x < dest.stride,
        282 <= y,
        0 <= dest.index(x, y) < s3.len(),
    ensures
        display_and_lights(s3, dest, request, assets, screen)[dest.index(x, y)] == s3[dest.index(x, y)],
{
    let p = dest.index(x, y);
    dest.lemma_coords_of_index(x, y);
    let a4 = display_result(s3, dest, screen);
    assert(a4[p] == s3[p]);
    let a5 = assets.screen_overlay.draw_result(
        a4,
        dest.sub(206, 12, 3, 4),
        Transform { flip_x: false, flip_y: false },
        PixelRule::PaletteKeyed(assets.screen_overlay_palette@),
    );
    dest.lemma_sub_fits(206, 12, 3, 4);
    dest.lemma_outside_sub(x, y, 206, 12, 3, 4);
    assert(a5[p] == a4[p]);
    let a6 = assets.screen_overlay.draw_result(
        a5,
        dest.sub(13, 12, 3, 4),
        Transform { flip_x: true, flip_y: false },
        PixelRule::PaletteKeyed(assets.screen_overlay_palette@),
    );
    dest.lemma_sub_fits(13, 12, 3, 4);
    dest.lemma_outside_sub(x, y, 13, 12, 3, 4);
    assert(a6[p] == a5[p]);
    let a7 = assets.screen_overlay.draw_result(
        a6,
        dest.sub(206, 232, 3, 4),
        Transform { flip_x: false, flip_y: true },
        PixelRule::PaletteKeyed(assets.screen_overlay_palette@),
    );
    dest.lemma_sub_fits(206, 232, 3, 4);
    dest.lemma_outside_sub(x, y, 206, 232, 3, 4);
    assert(a7[p] == a6[p]);
    let a8 = assets.screen_overlay.draw_result(
        a7,
        dest.sub(13, 232, 3, 4),
        Transform { flip_x: true, flip_y: true },
        PixelRule::PaletteKeyed(assets.screen_overlay_palette_bot_right@),
    );
    dest.lemma_sub_fits(13, 232, 3, 4);
    dest.lemma_outside_sub(x, y, 13, 232, 3, 4);
    assert(a8[p] == a7[p]);
    lemma_lights_keep_outside(a8, dest, request, assets.lights, x, y);
}

/// The panel labels' shadows are drawn in the shadow color: in the finished frame, the pixel one
/// row below every set texel of the panel-label texture (in the panel's rows below its lamps)
/// shows `LABEL_SHADOW`, unless the texel below-left of it is set and its label pixel takes it.
pub proof fn lemma_panel_label_shadows_in_shadow_color(
    old: Seq<u16>,
    dest: ImgView,
    request: SceneRequest,
    assets: SceneAssets,
    screen: Seq<u8>,
    x: int,
    y: int,
)
    requires
        dest.fits(old.len() as int),
        scene_fits(dest, assets),
        assets.text_panel.width <= 97,
        0 <= x < assets.text_panel.width,
        25 <= y < assets.text_panel.height,
        y + 1 < 48,
        assets.text_panel.texel(x, y) != 0,
        x == 0 || y + 1 >= assets.text_panel.height || assets.text_panel.texel(x - 1, y + 1) == 0,
    ensures
        scene_result(old, dest, request, assets, screen)[dest.index(126 + x, 258 + y + 1)]
            == LABEL_SHADOW,
{
    let s = dest.stride as int;
    let no_flip = Transform { flip_x: false, flip_y: false };
    let a1 = assets.decor.draw_result(old, dest, no_flip, PixelRule::Palette(assets.decor_palette@));
    let d1 = dest.sub(220, 24, 12, 177);
    let d2 = dest.sub(126, 258, 97, 48);
    let k1 = (assets.text_breadcrumbs.width * assets.text_breadcrumbs.height) as nat;
    let k2 = (assets.text_panel.width * assets.text_panel.height) as nat;
    dest.lemma_sub_fits(220, 24, 12, 177);
    dest.lemma_sub_fits(126, 258, 97, 48);
    let a2 = assets.text_breadcrumbs.shadow_walk(a1, d1, LABEL_COLOR, LABEL_SHADOW, k1);
    assets.text_breadcrumbs.lemma_shadow_walk_pointwise(a1, a1, d1, LABEL_COLOR, LABEL_SHADOW, k1, 0);
    let a3 = assets.text_panel.shadow_walk(a2, d2, LABEL_COLOR, LABEL_SHADOW, k2);
    assets.text_panel.lemma_shadow_walk_pointwise(a2, a2, d2, LABEL_COLOR, LABEL_SHADOW, k2, 0);
    assets.text_panel.lemma_shadow_walk_shadow(a2, d2, LABEL_COLOR, LABEL_SHADOW, x, y);
    let p = dest.index(126 + x, 258 + y + 1);
    assert(Tex1Data::shadow_pos(d2, x, y) == p) by (nonlinear_arith)
        requires
            d2.offset == dest.offset + s * 258 + 126,
            d2.stride == s,
            p == dest.offset + (258 + y + 1) * s + 126 + x,
    ;
    assert(a3[p] == LABEL_SHADOW);
    lemma_rows_below_lamps_kept(a3, dest, request, assets, screen, 126 + x, 258 + y + 1);
}

} // verus!
