use baam_3ds::image::ImgView;
use baam_3ds::scene::terminal::buffer::{FontAtlas, ScreenBuffer, SCREEN_BYTES};
use baam_3ds::scene::terminal::{TerminalCommand, TerminalState};
use baam_3ds::scene::{
    BreadcrumbRequest, CameraQrTestRequest, CameraRequest, NetworkRequest, SceneRequest,
};
use baam_3ds::texture::{Tex1Data, Tex2Data};

fn leak(bytes: Vec<u8>) -> &'static [u8] {
    Box::leak(bytes.into_boxed_slice())
}

/// A font of 16 glyphs per row whose glyph `code` has every row equal to `code`.
fn test_font() -> FontAtlas {
    let width = 128;
    let height = 16 * 14;
    let mut data = vec![0u8; width * height / 8];
    for code in 0..256usize {
        let gx = code % 16;
        let gy = code / 16;
        for r in 0..14 {
            let y = gy * 14 + r;
            data[(y * width + gx * 8) / 8] = code as u8;
        }
    }
    FontAtlas { glyphs: Tex1Data { width, height, data: leak(data) }, glyphs_per_row: 16 }
}

fn blank_logo() -> Tex2Data<'static> {
    Tex2Data { width: 216, height: 182, data: leak(vec![0u8; SCREEN_BYTES]) }
}

fn screen_bytes(buffer: &ScreenBuffer) -> Vec<u8> {
    buffer.as_tex2().data.to_vec()
}

fn request(tick: u32) -> SceneRequest {
    SceneRequest {
        tick,
        breadcrumb_request: BreadcrumbRequest::Login(true),
        network_request: NetworkRequest { active: false, error: false },
        camera_request: CameraRequest { active: false, scan: CameraQrTestRequest::Idle },
    }
}

#[test]
fn blit_cell_doubles_the_glyph_bits() {
    let mut screen = ScreenBuffer::new(blank_logo(), test_font());
    // 'A' is ASCII 0x41 = 0b0100_0001: bits 0 and 6 set
    screen.blit_cell(1, 0, 'A');
    let bytes = screen_bytes(&screen);
    for r in 0..14 {
        let start = r * 54 + 2;
        assert_eq!(bytes[start], 0b0000_0011);
        assert_eq!(bytes[start + 1], 0b0011_0000);
    }
    assert_eq!(bytes[0], 0);
    assert_eq!(bytes[14 * 54 + 2], 0);
}

#[test]
fn blit_cell_uses_cp866_and_a_square_for_unknown_characters() {
    let mut screen = ScreenBuffer::new(blank_logo(), test_font());
    screen.blit_cell(0, 0, 'Ж'); // IBM866 0x86 = 0b1000_0110
    screen.blit_cell(1, 0, '日'); // not in IBM866: glyph 254 = 0b1111_1110
    let bytes = screen_bytes(&screen);
    assert_eq!(bytes[0], 0b0011_1100);
    assert_eq!(bytes[1], 0b1100_0000);
    assert_eq!(bytes[2], 0b1111_1100);
    assert_eq!(bytes[3], 0b1111_1111);
}

#[test]
fn invert_cell_twice_restores_the_screen() {
    let mut screen = ScreenBuffer::new(blank_logo(), test_font());
    screen.blit_cell(5, 12, 'x');
    let before = screen_bytes(&screen);
    screen.invert_cell(5, 12);
    let inverted = screen_bytes(&screen);
    assert_ne!(before, inverted);
    let start = (12 * 14) * 54 + 10;
    assert_eq!(inverted[start], before[start] ^ 0xff);
    assert_eq!(inverted[start + 1], before[start + 1] ^ 0xff);
    screen.invert_cell(5, 12);
    assert_eq!(screen_bytes(&screen), before);
}

#[test]
fn scroll_moves_rows_up_and_clears_the_bottom() {
    let mut logo = vec![0u8; SCREEN_BYTES];
    for (i, b) in logo.iter_mut().enumerate() {
        *b = (i % 251) as u8;
    }
    let logo = Tex2Data { width: 216, height: 182, data: leak(logo.clone()) };
    let mut screen = ScreenBuffer::new(logo, test_font());
    screen.scroll();
    let bytes = screen_bytes(&screen);
    for k in 0..9072 {
        assert_eq!(bytes[k], ((k + 756) % 251) as u8);
    }
    // space is 0x20 = bit 5: doubled to 0b0000_1100_0000_0000 -> low byte 0, high byte 0x0c
    for k in 9072..SCREEN_BYTES {
        let expected = if (k - 9072) % 2 == 0 { 0 } else { 0x0c };
        assert_eq!(bytes[k], expected);
    }
}

#[test]
fn terminal_types_commands_as_they_come_due() {
    let mut terminal = TerminalState::new(blank_logo(), test_font());
    terminal.push_string("ab\nc");
    terminal.push_command(TerminalCommand::WriteChar('d'));
    let mut buf = vec![0u16; 240 * 320];
    let view = ImgView::new(240 * 320, 240, 320);
    // at tick 0 only 'a' is typed (the next command is due at 15)
    terminal.draw(&mut buf, view, &request(0));
    let at_0 = buf.clone();
    terminal.draw(&mut buf, view, &request(14));
    assert_eq!(buf, at_0);
    terminal.draw(&mut buf, view, &request(15));
    assert_ne!(buf, at_0);
}

#[test]
fn terminal_display_pixels_follow_the_palette() {
    let mut terminal = TerminalState::new(blank_logo(), test_font());
    let mut buf = vec![0x1111u16; 240 * 320];
    let view = ImgView::new(240 * 320, 240, 320);
    // the cursor blinks at tick 0, lighting the cell of column 0 on the bottom row
    terminal.draw(&mut buf, view, &request(0));
    // outside the display area nothing changes
    assert_eq!(buf[0], 0x1111);
    assert_eq!(buf[12 * 240 + 12], 0x1111);
    // the display's surround is the passive background
    let passive = baam_3ds::blend::blend_rgb565(0, 0x17e9, 0x18);
    assert_eq!(buf[12 * 240 + 13], passive);
}
