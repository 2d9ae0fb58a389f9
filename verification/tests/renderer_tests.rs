use no_os::boot_info::FrameData;
use no_os::psf::{PsfFont, PsfHeader};
use no_os::renderer::{
    fill_framebuffer, BasicRenderer, Clear, Colour, Next, Point, Print, PutChar, PutPix, RenderState,
    DEFAULT_COLOUR,
};

fn frame(width: usize, height: usize, pps: usize, count: usize) -> FrameData {
    FrameData { width, height, size_per_pixel: count, size: width * height * 4, pixels_per_scan_line: pps }
}

/// A 256-glyph font of 16-byte glyphs; glyph 'A' has its top row set at both
/// ends, glyph 'B' has every row's leftmost pixel set, all others are blank.
fn font() -> PsfFont {
    let mut buffer = vec![0u8; 256 * 16];
    buffer[65 * 16] = 0b1000_0001;
    for r in 0..16 {
        buffer[66 * 16 + r] = 0b1000_0000;
    }
    PsfFont { header: PsfHeader { magic: [0x36, 0x04], mode: 0, charsize: 16 }, buffer }
}

fn state(width: usize, height: usize, words: usize) -> RenderState {
    BasicRenderer(frame(width, height, width, 0), font(), vec![0u32; words])
}

fn lit(st: &RenderState) -> Vec<usize> {
    st.screen.iter().enumerate().filter(|(_, w)| **w != 0).map(|(i, _)| i).collect()
}

#[test]
fn basic_renderer_starts_white_at_origin() {
    let st = state(16, 16, 256);
    assert_eq!(st.cursor, Point { X: 0, Y: 0 });
    assert_eq!(st.colour, DEFAULT_COLOUR);
    assert_eq!(st.colour, 0xFFFFFF);
    assert_eq!(st.screen.len(), 256);
}

#[test]
fn put_pix_writes_one_word() {
    let mut st = BasicRenderer(frame(10, 10, 12, 0), font(), vec![0u32; 120]);
    PutPix(&mut st, 3, 2, 0xABCDEF);
    assert_eq!(st.screen[3 + 2 * 12], 0xABCDEF);
    assert_eq!(lit(&st), vec![27]);
}

#[test]
fn colour_changes_only_colour() {
    let mut st = state(16, 16, 256);
    Colour(&mut st, 0x123456);
    assert_eq!(st.colour, 0x123456);
    assert_eq!(st.cursor, Point { X: 0, Y: 0 });
    assert!(st.screen.iter().all(|w| *w == 0));
}

#[test]
fn next_moves_down_a_line() {
    let mut st = state(64, 64, 4096);
    st.cursor = Point { X: 40, Y: 16 };
    Next(&mut st);
    assert_eq!(st.cursor, Point { X: 0, Y: 32 });
}

#[test]
fn next_stays_on_last_line() {
    let mut st = state(64, 64, 4096);
    st.cursor = Point { X: 40, Y: 48 };
    Next(&mut st);
    assert_eq!(st.cursor, Point { X: 0, Y: 48 });
}

#[test]
fn clear_fills_every_visible_pixel() {
    let mut st = BasicRenderer(frame(2, 2, 2, 4), font(), vec![0u32; 4]);
    Clear(&mut st, 0xFF);
    assert_eq!(st.screen, vec![0xFF, 0xFF, 0xFF, 0xFF]);
}

#[test]
fn clear_full_hd_visits_every_pixel() {
    let mut st = BasicRenderer(frame(1920, 1080, 1920, 4), font(), vec![1u32; 1920 * 1080 + 3]);
    Clear(&mut st, 0);
    assert_eq!(st.screen.iter().filter(|w| **w == 0).count(), 2073600);
    assert_eq!(&st.screen[1920 * 1080..], &[1, 1, 1]);
}

#[test]
fn clear_leaves_words_past_the_visible_width() {
    // stride 3, width 2: the third word of each row is not on screen
    let mut st = BasicRenderer(frame(2, 2, 3, 4), font(), vec![0u32; 7]);
    Clear(&mut st, 9);
    assert_eq!(st.screen, vec![9, 9, 0, 9, 9, 0, 0]);
}

#[test]
fn clear_keeps_cursor_and_colour() {
    let mut st = BasicRenderer(frame(2, 2, 2, 4), font(), vec![0u32; 4]);
    st.cursor = Point { X: 8, Y: 16 };
    Clear(&mut st, 5);
    assert_eq!(st.cursor, Point { X: 8, Y: 16 });
    assert_eq!(st.colour, DEFAULT_COLOUR);
}

#[test]
fn clear_empty_screen_changes_nothing() {
    let mut st = BasicRenderer(frame(0, 2, 2, 4), font(), vec![1u32; 4]);
    Clear(&mut st, 9);
    assert_eq!(st.screen, vec![1, 1, 1, 1]);
}

#[test]
fn put_char_draws_glyph_bits() {
    let mut st = state(16, 16, 256);
    PutChar(&mut st, 'A', 0, 0);
    assert_eq!(lit(&st), vec![0, 7]);
    assert_eq!(st.screen[7], DEFAULT_COLOUR);
    assert_eq!(st.cursor, Point { X: 0, Y: 0 });
}

#[test]
fn put_char_uses_current_colour() {
    let mut st = state(16, 16, 256);
    Colour(&mut st, 0x00FF00);
    PutChar(&mut st, 'B', 8, 0);
    let expected: Vec<usize> = (0..16).map(|r| 8 + 16 * r).collect();
    assert_eq!(lit(&st), expected);
    assert!(expected.iter().all(|i| st.screen[*i] == 0x00FF00));
}

#[test]
fn put_char_clips_at_the_bottom_edge() {
    let mut st = state(16, 20, 320);
    PutChar(&mut st, 'B', 0, 16);
    assert_eq!(lit(&st), vec![256, 272, 288, 304]);
}

#[test]
fn put_char_clips_at_the_right_edge() {
    let mut st = state(12, 16, 192);
    PutChar(&mut st, 'A', 8, 0);
    // the right end of the glyph row (x = 15) is past the width
    assert_eq!(lit(&st), vec![8]);
}

#[test]
fn put_char_blank_glyph_draws_nothing() {
    let mut st = state(16, 16, 256);
    PutChar(&mut st, ' ', 0, 0);
    assert!(lit(&st).is_empty());
}

#[test]
fn print_advances_and_wraps() {
    let mut st = state(16, 20, 320);
    Print(&mut st, "BBB");
    assert_eq!(st.cursor, Point { X: 8, Y: 16 });
    let mut expected: Vec<usize> = (0..16).map(|r| 16 * r).collect();
    expected.extend((0..16).map(|r| 8 + 16 * r));
    expected.extend([256, 272, 288, 304]);
    expected.sort();
    assert_eq!(lit(&st), expected);
}

#[test]
fn print_off_screen_only_moves_cursor() {
    let mut st = state(16, 16, 256);
    st.cursor = Point { X: 0, Y: 32 };
    Print(&mut st, "B");
    assert!(lit(&st).is_empty());
    assert_eq!(st.cursor, Point { X: 8, Y: 32 });
}

#[test]
fn print_empty_changes_nothing() {
    let mut st = state(16, 16, 256);
    Print(&mut st, "");
    assert_eq!(st.cursor, Point { X: 0, Y: 0 });
    assert!(lit(&st).is_empty());
}

#[test]
fn print_in_two_parts_equals_print_whole() {
    let mut a = state(24, 40, 960);
    Print(&mut a, "AB");
    Print(&mut a, "BAB");
    let mut b = state(24, 40, 960);
    Print(&mut b, "ABBAB");
    assert_eq!(a.cursor, b.cursor);
    assert_eq!(a.screen, b.screen);
}

#[test]
fn print_moves_cursor_down_by_whole_lines() {
    let mut st = state(16, 64, 1024);
    st.cursor = Point { X: 8, Y: 16 };
    Print(&mut st, "ABAB");
    assert!(st.cursor.Y >= 16 && (st.cursor.Y - 16) % 16 == 0);
    assert_eq!(st.cursor, Point { X: 8, Y: 48 });
}

#[test]
fn put_pix_writes_the_word_get_pixel_points_at() {
    let mut st = BasicRenderer(frame(10, 10, 12, 0), font(), vec![0u32; 120]);
    let offset = st.frame.get_pixel(7, 5);
    PutPix(&mut st, 7, 5, 0x55);
    assert_eq!(st.screen[offset / 4], 0x55);
    assert_eq!(offset % 4, 0);
}

#[test]
fn print_cursor_fits_row_after_printing() {
    let mut st = state(20, 64, 1280);
    for s in ["A", "AB", "ABA", "B"] {
        Print(&mut st, s);
        assert!(st.cursor.X == 0 || st.cursor.X + 8 <= 20);
    }
}

#[test]
fn fill_framebuffer_sets_all_bytes() {
    let mut buf = vec![0u8; 33];
    fill_framebuffer(&mut buf);
    assert!(buf.iter().all(|b| *b == 0xFF));
    let mut empty: Vec<u8> = vec![];
    fill_framebuffer(&mut empty);
    assert!(empty.is_empty());
}

#[test]
fn put_char_below_the_screen_draws_nothing() {
    let mut st = state(16, 16, 256);
    PutChar(&mut st, 'B', u32::MAX - 7, 16);
    assert!(lit(&st).is_empty());
}
