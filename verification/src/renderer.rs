//! The kernel's framebuffer text renderer: a text cursor, a drawing colour and
//! a PSF1 font over a linear framebuffer of 32-bit pixels.
//!
//! The screen memory is the `screen` vector of [`RenderState`]: word `i` is the
//! pixel whose byte offset from the start of the framebuffer is `4 * i`.

use vstd::prelude::*;
use crate::boot_info::FrameData;
use crate::psf::PsfFont;

verus! {

/// A cursor position in pixels.
#[derive(Clone, Copy, Debug, PartialEq, Eq, Structural)]
pub struct Point {
    pub X: u32,
    pub Y: u32,
}

/// Everything the renderer draws with and on.
#[derive(Debug)]
pub struct RenderState {
    pub frame: FrameData,
    pub font: PsfFont,
    pub cursor: Point,
    pub colour: u32,
    pub screen: Vec<u32>,
}

/// Colour the renderer starts with: white.
pub const DEFAULT_COLOUR: u32 = 0xFFFFFF;

/// Height of a character cell, in pixels.
pub const CHAR_HEIGHT: u32 = 16;

/// Width of a character cell, in pixels.
pub const CHAR_WIDTH: u32 = 8;

/// Pixels per scan line, as the renderer reads it (a 32-bit value).
pub open spec fn scan_line(f: FrameData) -> u32 {
    f.pixels_per_scan_line as u32
}

/// Visible width, as the renderer reads it (a 32-bit value).
pub open spec fn fb_width(f: FrameData) -> u32 {
    f.width as u32
}

/// Visible height, as the renderer reads it (a 32-bit value).
pub open spec fn fb_height(f: FrameData) -> u32 {
    f.height as u32
}

/// Index in the screen words of pixel (x, y).
pub open spec fn pixel_index(f: FrameData, x: int, y: int) -> int {
    x + y * scan_line(f)
}

/// Pixel (x, y) can be written: its 32-bit byte offset `4x + 4y * scan_line`
/// does not overflow and it lies inside a screen of `len` words.
pub open spec fn pixel_fits(f: FrameData, len: nat, x: int, y: int) -> bool {
    &&& 0 <= x && 0 <= y
    &&& 4 * x + 4 * (y * scan_line(f)) <= u32::MAX
    &&& pixel_index(f, x, y) < len
}

/// `screen` with every word whose index is in `targets` set to `colour`.
pub open spec fn paint(screen: Seq<u32>, targets: Set<int>, colour: u32) -> Seq<u32> {
    Seq::new(screen.len(), |i: int| if targets.contains(i) { colour } else { screen[i] })
}

/// Sets up a renderer over `framebuffer` (whose memory is `screen`) with
/// `PSF1_font`: the cursor at the top left, drawing in white.
pub fn BasicRenderer(FRAMEbuffer: FrameData, PSF1_font: PsfFont, screen: Vec<u32>) -> (st: RenderState)
    ensures
        st.frame == FRAMEbuffer,
        st.font == PSF1_font,
        st.screen@ == screen@,
        st.cursor == (Point { X: 0, Y: 0 }),
        st.colour == DEFAULT_COLOUR,
{
    RenderState {
        frame: FRAMEbuffer,
        font: PSF1_font,
        cursor: Point { X: 0, Y: 0 },
        colour: DEFAULT_COLOUR,
        screen,
    }
}

/// Writes `color` to pixel (x, y).
pub fn PutPix(st: &mut RenderState, x: u32, y: u32, color: u32)
    requires
        pixel_fits(old(st).frame, old(st).screen@.len(), x as int, y as int),
    ensures
        final(st).screen@ == old(st).screen@.update(pixel_index(old(st).frame, x as int, y as int), color),
        final(st).frame == old(st).frame,
        final(st).font == old(st).font,
        final(st).cursor == old(st).cursor,
        final(st).colour == old(st).colour,
{
    let scan = st.frame.pixels_per_scan_line as u32;
    let offset = ((x * 4) + (y * scan * 4)) as usize;
    st.screen.set(offset / 4, color);
}

/// Sets the colour later text is drawn in.
pub fn Colour(st: &mut RenderState, color: u32)
    ensures
        final(st).colour == color,
        final(st).screen@ == old(st).screen@,
        final(st).frame == old(st).frame,
        final(st).font == old(st).font,
        final(st).cursor == old(st).cursor,
{
    st.colour = color;
}

/// Starts a new line: the cursor goes back to the left edge and one character
/// height down, unless that would leave the screen, in which case it stays on
/// its line.
pub fn Next(st: &mut RenderState)
    requires
        old(st).cursor.Y + CHAR_HEIGHT <= u32::MAX,
    ensures
        final(st).cursor.X == 0,
        final(st).cursor.Y == if old(st).cursor.Y + CHAR_HEIGHT < fb_height(old(st).frame) {
            old(st).cursor.Y + CHAR_HEIGHT
        } else {
            old(st).cursor.Y as int
        },
        final(st).screen@ == old(st).screen@,
        final(st).frame == old(st).frame,
        final(st).font == old(st).font,
        final(st).colour == old(st).colour,
{
    st.cursor.X = 0;
    if st.cursor.Y + CHAR_HEIGHT < st.frame.height as u32 {
        st.cursor.Y += CHAR_HEIGHT;
    }
}

/// Pixel (x, y) lies on the visible screen.
pub open spec fn on_screen(f: FrameData, x: int, y: int) -> bool {
    0 <= x < fb_width(f) && 0 <= y < fb_height(f)
}

/// Screen indices of the visible pixels that come before pixel (xx, yy),
/// rows first.
pub open spec fn screen_targets_before(f: FrameData, xx: int, yy: int) -> Set<int> {
    Set::new(
        |i: int|
            exists|x: int, y: int|
                (y < yy || (y == yy && x < xx)) && #[trigger] on_screen(f, x, y) && pixel_index(f, x, y) == i,
    )
}

/// Screen indices of all visible pixels.
pub open spec fn screen_targets(f: FrameData) -> Set<int> {
    screen_targets_before(f, 0, fb_height(f) as int)
}

/// Every visible pixel can be written on a screen of `len` words.
pub open spec fn clear_fits(f: FrameData, len: nat) -> bool {
    forall|x: int, y: int| #[trigger] on_screen(f, x, y) ==> pixel_fits(f, len, x, y)
}

/// A pixel that can be written stays so when moved up or left.
proof fn lemma_pixel_fits_monotone(f: FrameData, len: nat, x: int, y: int, x2: int, y2: int)
    requires
        pixel_fits(f, len, x2, y2),
        0 <= x <= x2,
        0 <= y <= y2,
    ensures
        pixel_fits(f, len, x, y),
{
    let s = scan_line(f) as int;
    assert(y * s <= y2 * s) by (nonlinear_arith)
        requires 0 <= y <= y2, s >= 0;
}

proof fn lemma_paint_one_more(screen: Seq<u32>, targets: Set<int>, j: int, colour: u32)
    requires
        0 <= j < screen.len(),
    ensures
        paint(screen, targets, colour).update(j, colour) =~= paint(screen, targets.insert(j), colour),
{
}

/// Fills the screen with `clear_color`: every visible pixel (x < width,
/// y < height) gets that colour, row by row, and no other word changes.
pub fn Clear(st: &mut RenderState, clear_color: u32)
    requires
        clear_fits(old(st).frame, old(st).screen@.len()),
    ensures
        final(st).screen@ == paint(old(st).screen@, screen_targets(old(st).frame), clear_color),
        forall|x: int, y: int| #[trigger] on_screen(old(st).frame, x, y)
            ==> final(st).screen@[pixel_index(old(st).frame, x, y)] == clear_color,
        final(st).frame == old(st).frame,
        final(st).font == old(st).font,
        final(st).cursor == old(st).cursor,
        final(st).colour == old(st).colour,
{
    let ghost old_screen = st.screen@;
    let ghost f = st.frame;
    let width = st.frame.width as u32;
    let height = st.frame.height as u32;
    assert(paint(old_screen, screen_targets_before(f, 0, 0), clear_color) =~= old_screen);
    for y in 0..height
        invariant
            st.frame == f,
            st.font == old(st).font,
            st.cursor == old(st).cursor,
            st.colour == old(st).colour,
            width == fb_width(f),
            height == fb_height(f),
            st.screen@.len() == old_screen.len(),
            clear_fits(f, old_screen.len()),
            st.screen@ == paint(old_screen, screen_targets_before(f, 0, y as int), clear_color),
    {
        for x in 0..width
            invariant
                st.frame == f,
                st.font == old(st).font,
                st.cursor == old(st).cursor,
                st.colour == old(st).colour,
                width == fb_width(f),
                height == fb_height(f),
                y < height,
                st.screen@.len() == old_screen.len(),
                clear_fits(f, old_screen.len()),
                st.screen@ == paint(old_screen, screen_targets_before(f, x as int, y as int), clear_color),
        {
            assert(on_screen(f, x as int, y as int));
            let ghost j = pixel_index(f, x as int, y as int);
            PutPix(st, x, y, clear_color);
            proof {
                lemma_paint_one_more(old_screen, screen_targets_before(f, x as int, y as int), j, clear_color);
                assert(screen_targets_before(f, x as int, y as int).insert(j)
                    =~= screen_targets_before(f, x + 1, y as int));
            }
        }
        assert(screen_targets_before(f, width as int, y as int) =~= screen_targets_before(f, 0, y + 1));
    }
    proof {
        assert forall|x: int, y: int| #[trigger] on_screen(f, x, y)
            implies st.screen@[pixel_index(f, x, y)] == clear_color by {
            assert(pixel_fits(f, old_screen.len(), x, y));
            assert(screen_targets(f).contains(pixel_index(f, x, y)));
        }
    }
}

/// Offset in the glyph table of the bitmap of glyph `chr`.
pub open spec fn glyph_base(font: PsfFont, chr: char) -> int {
    (chr as u32) * (font.header.charsize as u32)
}

/// Row `r` of the bitmap of glyph `chr`.
pub open spec fn glyph_row(font: PsfFont, chr: char, r: int) -> u8 {
    font.buffer@[r + glyph_base(font, chr)]
}

/// Whether column `c` of a glyph row is set; the leftmost column is the top bit.
pub open spec fn glyph_bit(row: u8, c: int) -> bool {
    row & (128u8 >> (c as u32)) > 0
}

/// Cell (r, c) of a character placed with its top left corner at (xo, yo)
/// lies on the visible part of the screen.
pub open spec fn cell_visible(f: FrameData, xo: u32, yo: u32, r: int, c: int) -> bool {
    &&& 0 <= r < CHAR_HEIGHT
    &&& 0 <= c < CHAR_WIDTH
    &&& yo + r < fb_height(f)
    &&& xo + c < fb_width(f)
}

/// Cell (r, c) of character `chr` placed at (xo, yo) is painted.
pub open spec fn cell_drawn(f: FrameData, font: PsfFont, chr: char, xo: u32, yo: u32, r: int, c: int) -> bool {
    cell_visible(f, xo, yo, r, c) && glyph_bit(glyph_row(font, chr, r), c)
}

/// Screen indices of the painted cells of character `chr` at (xo, yo) that come
/// before cell (rr, cc), rows first.
pub open spec fn glyph_targets_before(
    f: FrameData,
    font: PsfFont,
    chr: char,
    xo: u32,
    yo: u32,
    rr: int,
    cc: int,
) -> Set<int> {
    Set::new(
        |i: int|
            exists|r: int, c: int|
                (r < rr || (r == rr && c < cc)) && #[trigger] cell_drawn(f, font, chr, xo, yo, r, c)
                    && pixel_index(f, xo + c, yo + r) == i,
    )
}

/// Screen indices of the painted cells of character `chr` at (xo, yo).
pub open spec fn glyph_targets(f: FrameData, font: PsfFont, chr: char, xo: u32, yo: u32) -> Set<int> {
    glyph_targets_before(f, font, chr, xo, yo, CHAR_HEIGHT as int, 0)
}

/// Character `chr` can be drawn at (xo, yo) on a screen of `len` words: the
/// cell's far edges do not overflow (the right one only matters when a row
/// of the cell is visible), the glyph table holds every row read for
/// a visible cell, and every painted cell can be written.
pub open spec fn put_char_fits(f: FrameData, font: PsfFont, len: nat, chr: char, xo: u32, yo: u32) -> bool {
    &&& yo < fb_height(f) ==> xo + CHAR_WIDTH <= u32::MAX
    &&& yo + CHAR_HEIGHT <= u32::MAX
    &&& forall|r: int, c: int| #[trigger] cell_visible(f, xo, yo, r, c)
        ==> r + glyph_base(font, chr) < font.buffer@.len()
    &&& forall|r: int, c: int| #[trigger] cell_drawn(f, font, chr, xo, yo, r, c)
        ==> pixel_fits(f, len, xo + c, yo + r)
}

/// Draws character `chr` in the current colour with its top left corner at
/// (xOff, yOff): each set bit of its glyph that falls on the visible screen
/// becomes a pixel of the current colour; no other pixel changes.
pub fn PutChar(st: &mut RenderState, chr: char, xOff: u32, yOff: u32)
    requires
        put_char_fits(old(st).frame, old(st).font, old(st).screen@.len(), chr, xOff, yOff),
    ensures
        final(st).screen@ == paint(
            old(st).screen@,
            glyph_targets(old(st).frame, old(st).font, chr, xOff, yOff),
            old(st).colour,
        ),
        final(st).frame == old(st).frame,
        final(st).font == old(st).font,
        final(st).cursor == old(st).cursor,
        final(st).colour == old(st).colour,
{
    let ghost old_screen = st.screen@;
    let ghost f = st.frame;
    let ghost font = st.font;
    let ghost colour = st.colour;
    let mut row: usize = 0;
    assert(paint(old_screen, glyph_targets_before(f, font, chr, xOff, yOff, 0, 0), colour) =~= old_screen);
    for y in yOff..yOff + CHAR_HEIGHT
        invariant
            st.frame == f,
            st.font == font,
            st.colour == colour,
            st.cursor == old(st).cursor,
            old(st).frame == f,
            old(st).font == font,
            old(st).colour == colour,
            old_screen == old(st).screen@,
            st.screen@.len() == old_screen.len(),
            put_char_fits(f, font, old_screen.len(), chr, xOff, yOff),
            yOff <= y <= yOff + CHAR_HEIGHT,
            row <= y - yOff,
            y < fb_height(f) ==> row == y - yOff,
            st.screen@ == paint(old_screen, glyph_targets_before(f, font, chr, xOff, yOff, y - yOff, 0), colour),
    {
        let ghost r: int = y - yOff;
        if y < st.frame.height as u32 {
            for x in xOff..xOff + CHAR_WIDTH
                invariant
                    st.frame == f,
                    st.font == font,
                    st.colour == colour,
                    st.cursor == old(st).cursor,
                    st.screen@.len() == old_screen.len(),
                    put_char_fits(f, font, old_screen.len(), chr, xOff, yOff),
                    xOff <= x <= xOff + CHAR_WIDTH,
                    r == y - yOff,
                    0 <= r < CHAR_HEIGHT,
                    y < fb_height(f),
                    row == r,
                    st.screen@ == paint(old_screen, glyph_targets_before(f, font, chr, xOff, yOff, r, x - xOff), colour),
            {
                let ghost c: int = x - xOff;
                if x < st.frame.width as u32 {
                    assert(cell_visible(f, xOff, yOff, r, c));
                    assert((chr as u32) * (font.header.charsize as u32) <= 0x10FFFF * 255) by (nonlinear_arith)
                        requires chr as u32 <= 0x10FFFF, font.header.charsize as u32 <= 255;
                    let glyph_index: u32 = (chr as u32) * (st.font.header.charsize as u32);
                    let bits = st.font.buffer[row + glyph_index as usize];
                    if bits & (0b10000000u8 >> (x - xOff)) > 0 {
                        assert(cell_drawn(f, font, chr, xOff, yOff, r, c));
                        let ghost j = pixel_index(f, x as int, y as int);
                        PutPix(st, x, y, st.colour);
                        proof {
                            lemma_paint_one_more(old_screen, glyph_targets_before(f, font, chr, xOff, yOff, r, c), j, colour);
                            assert(glyph_targets_before(f, font, chr, xOff, yOff, r, c).insert(j)
                                =~= glyph_targets_before(f, font, chr, xOff, yOff, r, c + 1));
                        }
                    } else {
                        assert(!cell_drawn(f, font, chr, xOff, yOff, r, c));
                        assert(glyph_targets_before(f, font, chr, xOff, yOff, r, c)
                            =~= glyph_targets_before(f, font, chr, xOff, yOff, r, c + 1));
                    }
                } else {
                    assert(!cell_drawn(f, font, chr, xOff, yOff, r, c));
                    assert(glyph_targets_before(f, font, chr, xOff, yOff, r, c)
                        =~= glyph_targets_before(f, font, chr, xOff, yOff, r, c + 1));
                }
            }
            assert(glyph_targets_before(f, font, chr, xOff, yOff, r, CHAR_WIDTH as int)
                =~= glyph_targets_before(f, font, chr, xOff, yOff, r + 1, 0));
            row += 1;
        } else {
            assert(glyph_targets_before(f, font, chr, xOff, yOff, r, 0)
                =~= glyph_targets_before(f, font, chr, xOff, yOff, r + 1, 0));
        }
    }
}

/// The cursor and screen after printing character `c` at cursor `cur`: the
/// character is drawn when the cursor is on the screen, then the cursor moves
/// one cell right, and to the start of the next text line when the next cell
/// would not fit on the current one.
pub open spec fn print_char(
    f: FrameData,
    font: PsfFont,
    colour: u32,
    cur: Point,
    screen: Seq<u32>,
    c: char,
) -> (Point, Seq<u32>) {
    let drawn = if cur.X < fb_width(f) && cur.Y < fb_height(f) {
        paint(screen, glyph_targets(f, font, c, cur.X, cur.Y), colour)
    } else {
        screen
    };
    let x = cur.X + CHAR_WIDTH;
    if x + CHAR_WIDTH > fb_width(f) {
        (Point { X: 0, Y: (cur.Y + CHAR_HEIGHT) as u32 }, drawn)
    } else {
        (Point { X: x as u32, Y: cur.Y }, drawn)
    }
}

/// Printing `c` at cursor `cur` on a screen of `len` words stays within the
/// machine's limits: the character can be drawn where it is drawn, and the
/// cursor arithmetic does not overflow.
pub open spec fn print_char_fits(f: FrameData, font: PsfFont, len: nat, cur: Point, c: char) -> bool {
    &&& (cur.X < fb_width(f) && cur.Y < fb_height(f)) ==> put_char_fits(f, font, len, c, cur.X, cur.Y)
    &&& cur.X + 2 * CHAR_WIDTH <= u32::MAX
    &&& cur.X + 2 * CHAR_WIDTH > fb_width(f) ==> cur.Y + CHAR_HEIGHT <= u32::MAX
}

/// The cursor and screen after printing the characters `s` in turn.
pub open spec fn print_seq(
    f: FrameData,
    font: PsfFont,
    colour: u32,
    cur: Point,
    screen: Seq<u32>,
    s: Seq<char>,
) -> (Point, Seq<u32>)
    decreases s.len(),
{
    if s.len() == 0 {
        (cur, screen)
    } else {
        let next = print_char(f, font, colour, cur, screen, s[0]);
        print_seq(f, font, colour, next.0, next.1, s.drop_first())
    }
}

/// Every character of `s` can be printed in turn within the machine's limits.
pub open spec fn print_fits(
    f: FrameData,
    font: PsfFont,
    colour: u32,
    cur: Point,
    screen: Seq<u32>,
    s: Seq<char>,
) -> bool
    decreases s.len(),
{
    s.len() == 0 || {
        &&& print_char_fits(f, font, screen.len(), cur, s[0])
        &&& print_fits(
            f,
            font,
            colour,
            print_char(f, font, colour, cur, screen, s[0]).0,
            print_char(f, font, colour, cur, screen, s[0]).1,
            s.drop_first(),
        )
    }
}

/// Prints `str` at the cursor, character by character, in the current colour.
pub fn Print(st: &mut RenderState, str: &str)
    requires
        print_fits(old(st).frame, old(st).font, old(st).colour, old(st).cursor, old(st).screen@, str@),
    ensures
        (final(st).cursor, final(st).screen@) == print_seq(
            old(st).frame,
            old(st).font,
            old(st).colour,
            old(st).cursor,
            old(st).screen@,
            str@,
        ),
        final(st).frame == old(st).frame,
        final(st).font == old(st).font,
        final(st).colour == old(st).colour,
{
    let ghost f = st.frame;
    let ghost font = st.font;
    let ghost colour = st.colour;
    let ghost goal = print_seq(f, font, colour, st.cursor, st.screen@, str@);
    assert(str@.skip(0) =~= str@);
    for c in it: str.chars()
        invariant
            st.frame == f,
            st.font == font,
            st.colour == colour,
            it.seq() == str@,
            0 <= it.index() <= str@.len(),
            print_seq(f, font, colour, st.cursor, st.screen@, str@.skip(it.index())) == goal,
            print_fits(f, font, colour, st.cursor, st.screen@, str@.skip(it.index())),
    {
        let ghost rest = str@.skip(it.index());
        assert(rest[0] == c);
        assert(rest.drop_first() =~= str@.skip(it.index() + 1));
        if st.cursor.X < st.frame.width as u32 && st.cursor.Y < st.frame.height as u32 {
            let x = st.cursor.X;
            let y = st.cursor.Y;
            PutChar(st, c, x, y);
        }
        st.cursor.X += CHAR_WIDTH;
        if st.cursor.X + CHAR_WIDTH > st.frame.width as u32 {
            st.cursor.X = 0;
            st.cursor.Y += CHAR_HEIGHT;
        }
    }
    assert(str@.skip(str@.len() as int) =~= Seq::<char>::empty());
}

/// Sets every byte of the framebuffer memory `buffer` to 0xFF, which shows
/// white on a 32-bit pixel format.
pub fn fill_framebuffer(buffer: &mut [u8])
    ensures
        final(buffer)@.len() == old(buffer)@.len(),
        forall|i: int| 0 <= i < final(buffer)@.len() ==> #[trigger] final(buffer)@[i] == 0xFF,
{
    let n = buffer.len();
    for i in 0..n
        invariant
            n == buffer@.len(),
            buffer@.len() == old(buffer)@.len(),
            forall|j: int| 0 <= j < i ==> #[trigger] buffer@[j] == 0xFF,
    {
        buffer[i] = 0xFF;
    }
}

/// Printing two strings one after the other leaves the cursor and the screen
/// as printing their concatenation does.
pub proof fn lemma_print_concat(
    f: FrameData,
    font: PsfFont,
    colour: u32,
    cur: Point,
    screen: Seq<u32>,
    a: Seq<char>,
    b: Seq<char>,
)
    ensures
        print_seq(f, font, colour, cur, screen, a + b) == ({
            let mid = print_seq(f, font, colour, cur, screen, a);
            print_seq(f, font, colour, mid.0, mid.1, b)
        }),
    decreases a.len(),
{
    if a.len() == 0 {
        assert(a + b =~= b);
    } else {
        let next = print_char(f, font, colour, cur, screen, a[0]);
        assert((a + b).drop_first() =~= a.drop_first() + b);
        assert((a + b)[0] == a[0]);
        lemma_print_concat(f, font, colour, next.0, next.1, a.drop_first(), b);
    }
}

/// After printing at least one character the cursor is at the left edge or
/// has room for a whole character before the right edge; on a screen at least
/// one character wide it always has that room.
pub proof fn lemma_print_cursor_fits_row(
    f: FrameData,
    font: PsfFont,
    colour: u32,
    cur: Point,
    screen: Seq<u32>,
    s: Seq<char>,
)
    requires
        s.len() > 0,
    ensures
        ({
            let after = print_seq(f, font, colour, cur, screen, s).0;
            &&& after.X == 0 || after.X + CHAR_WIDTH <= fb_width(f)
            &&& fb_width(f) >= CHAR_WIDTH ==> after.X + CHAR_WIDTH <= fb_width(f)
        }),
    decreases s.len(),
{
    let next = print_char(f, font, colour, cur, screen, s[0]);
    if s.len() == 1 {
        assert(s.drop_first().len() == 0);
        assert(print_seq(f, font, colour, next.0, next.1, s.drop_first()) == next);
    } else {
        lemma_print_cursor_fits_row(f, font, colour, next.0, next.1, s.drop_first());
    }
}

/// A character is drawn only inside its cell and only on the visible screen:
/// every pixel it paints is the pixel of a visible cell of that character.
pub proof fn lemma_put_char_stays_visible(
    f: FrameData,
    font: PsfFont,
    chr: char,
    xo: u32,
    yo: u32,
    i: int,
)
    requires
        glyph_targets(f, font, chr, xo, yo).contains(i),
    ensures
        exists|r: int, c: int| #[trigger] cell_visible(f, xo, yo, r, c) && i == pixel_index(f, xo + c, yo + r),
{
    let (r, c) = choose|r: int, c: int|
        (r < CHAR_HEIGHT || (r == CHAR_HEIGHT && c < 0)) && #[trigger] cell_drawn(f, font, chr, xo, yo, r, c)
            && pixel_index(f, xo + c, yo + r) == i;
    assert(cell_visible(f, xo, yo, r, c));
}


/// Whether pixel (x, y) of `frame` can be written on a screen of `len` words.
pub fn pixel_fits_check(frame: &FrameData, len: usize, x: u32, y: u32) -> (b: bool)
    ensures
        b == pixel_fits(*frame, len as nat, x as int, y as int),
{
    let scan = frame.pixels_per_scan_line as u32;
    assert((y as int) * (scan as int) <= 0xFFFF_FFFF * 0xFFFF_FFFF) by (nonlinear_arith)
        requires 0 <= y <= 0xFFFF_FFFF, 0 <= scan <= 0xFFFF_FFFF;
    let prod: u128 = (y as u128) * (scan as u128);
    let offset: u128 = 4 * (x as u128) + 4 * prod;
    if offset > u32::MAX as u128 {
        return false;
    }
    (x as u128) + prod < len as u128
}

/// Whether character `chr` can be drawn at (xo, yo) with the state `st`.
pub fn put_char_fits_check(st: &RenderState, chr: char, xo: u32, yo: u32) -> (b: bool)
    ensures
        b == put_char_fits(st.frame, st.font, st.screen@.len(), chr, xo, yo),
{
    let ghost f = st.frame;
    let ghost font = st.font;
    let ghost len = st.screen@.len();
    if (yo < st.frame.height as u32 && xo > u32::MAX - CHAR_WIDTH) || yo > u32::MAX - CHAR_HEIGHT {
        return false;
    }
    assert((chr as u32) * (font.header.charsize as u32) <= 0x10FFFF * 255) by (nonlinear_arith)
        requires chr as u32 <= 0x10FFFF, font.header.charsize as u32 <= 255;
    let base = (chr as u32 as usize) * (st.font.header.charsize as usize);
    let width = st.frame.width as u32;
    let height = st.frame.height as u32;
    for r in 0..CHAR_HEIGHT
        invariant
            st.frame == f,
            st.font == font,
            st.screen@.len() == len,
            base == glyph_base(font, chr),
            width == fb_width(f),
            height == fb_height(f),
            yo < fb_height(f) ==> xo + CHAR_WIDTH <= u32::MAX,
            yo + CHAR_HEIGHT <= u32::MAX,
            forall|r2: int, c2: int| 0 <= r2 < r && #[trigger] cell_visible(f, xo, yo, r2, c2)
                ==> r2 + glyph_base(font, chr) < font.buffer@.len(),
            forall|r2: int, c2: int| 0 <= r2 < r && #[trigger] cell_drawn(f, font, chr, xo, yo, r2, c2)
                ==> pixel_fits(f, len, xo + c2, yo + r2),
    {
        for c in 0..CHAR_WIDTH
            invariant
                st.frame == f,
                st.font == font,
                st.screen@.len() == len,
                base == glyph_base(font, chr),
                width == fb_width(f),
                height == fb_height(f),
                yo < fb_height(f) ==> xo + CHAR_WIDTH <= u32::MAX,
                yo + CHAR_HEIGHT <= u32::MAX,
                0 <= r < CHAR_HEIGHT,
                forall|r2: int, c2: int| (0 <= r2 < r || (r2 == r && c2 < c)) && #[trigger] cell_visible(f, xo, yo, r2, c2)
                    ==> r2 + glyph_base(font, chr) < font.buffer@.len(),
                forall|r2: int, c2: int| (0 <= r2 < r || (r2 == r && c2 < c)) && #[trigger] cell_drawn(f, font, chr, xo, yo, r2, c2)
                    ==> pixel_fits(f, len, xo + c2, yo + r2),
        {
            if yo + r < height && xo + c < width {
                assert(cell_visible(f, xo, yo, r as int, c as int));
                if r as usize >= st.font.buffer.len() || base >= st.font.buffer.len() - r as usize {
                    return false;
                }
                let bits = st.font.buffer[r as usize + base];
                if bits & (0b10000000u8 >> c) > 0 {
                    assert(cell_drawn(f, font, chr, xo, yo, r as int, c as int));
                    if !pixel_fits_check(&st.frame, st.screen.len(), xo + c, yo + r) {
                        return false;
                    }
                } else {
                    assert(!cell_drawn(f, font, chr, xo, yo, r as int, c as int));
                }
            } else {
                assert(!cell_visible(f, xo, yo, r as int, c as int));
            }
        }
    }
    true
}

/// Whether `Clear` can run on the state `st`: every visible pixel can be
/// written.
pub fn clear_fits_check(st: &RenderState) -> (b: bool)
    ensures
        b == clear_fits(st.frame, st.screen@.len()),
{
    let ghost f = st.frame;
    let ghost len = st.screen@.len();
    let width = st.frame.width as u32;
    let height = st.frame.height as u32;
    if width == 0 || height == 0 {
        assert forall|x: int, y: int| #[trigger] on_screen(f, x, y) implies pixel_fits(f, len, x, y) by {}
        return true;
    }
    let corner = pixel_fits_check(&st.frame, st.screen.len(), width - 1, height - 1);
    proof {
        if corner {
            assert forall|x: int, y: int| #[trigger] on_screen(f, x, y) implies pixel_fits(f, len, x, y) by {
                lemma_pixel_fits_monotone(f, len, x, y, width - 1, height - 1);
            }
        } else {
            assert(on_screen(f, width - 1, height - 1));
        }
    }
    corner
}

/// Whether `Print` can print `str` with the state `st`.
pub fn print_fits_check(st: &RenderState, str: &str) -> (b: bool)
    ensures
        b == print_fits(st.frame, st.font, st.colour, st.cursor, st.screen@, str@),
{
    let ghost f = st.frame;
    let ghost font = st.font;
    let ghost colour = st.colour;
    let ghost len = st.screen@.len();
    let ghost goal = print_fits(f, font, colour, st.cursor, st.screen@, str@);
    let ghost mut scr = st.screen@;
    let mut cur = st.cursor;
    let width = st.frame.width as u32;
    let height = st.frame.height as u32;
    assert(str@.skip(0) =~= str@);
    for c in it: str.chars()
        invariant
            it.seq() == str@,
            0 <= it.index() <= str@.len(),
            width == fb_width(f),
            height == fb_height(f),
            st.frame == f,
            st.font == font,
            st.colour == colour,
            st.screen@.len() == len,
            scr.len() == len,
            print_fits(f, font, colour, cur, scr, str@.skip(it.index())) == goal,
            goal == print_fits(f, font, colour, st.cursor, st.screen@, str@),
    {
        let ghost rest = str@.skip(it.index());
        let ghost before = cur;
        assert(rest[0] == c);
        assert(rest.len() > 0);
        assert(rest.drop_first() =~= str@.skip(it.index() + 1));
        if cur.X < width && cur.Y < height {
            if !put_char_fits_check(st, c, cur.X, cur.Y) {
                return false;
            }
        }
        if cur.X > u32::MAX - 2 * CHAR_WIDTH {
            return false;
        }
        let x = cur.X + CHAR_WIDTH;
        if x + CHAR_WIDTH > width {
            if cur.Y > u32::MAX - CHAR_HEIGHT {
                return false;
            }
            cur = Point { X: 0, Y: cur.Y + CHAR_HEIGHT };
        } else {
            cur = Point { X: x, Y: cur.Y };
        }
        proof {
            scr = print_char(f, font, colour, before, scr, c).1;
        }
    }
    assert(str@.skip(str@.len() as int) =~= Seq::<char>::empty());
    true
}

/// Printing `a + b` stays within the machine's limits exactly when printing
/// `a` does and printing `b` afterwards does.
pub proof fn lemma_print_fits_concat(
    f: FrameData,
    font: PsfFont,
    colour: u32,
    cur: Point,
    screen: Seq<u32>,
    a: Seq<char>,
    b: Seq<char>,
)
    ensures
        print_fits(f, font, colour, cur, screen, a + b) == ({
            let mid = print_seq(f, font, colour, cur, screen, a);
            print_fits(f, font, colour, cur, screen, a) && print_fits(f, font, colour, mid.0, mid.1, b)
        }),
    decreases a.len(),
{
    if a.len() == 0 {
        assert(a + b =~= b);
    } else {
        let next = print_char(f, font, colour, cur, screen, a[0]);
        assert((a + b).drop_first() =~= a.drop_first() + b);
        assert((a + b)[0] == a[0]);
        lemma_print_fits_concat(f, font, colour, next.0, next.1, a.drop_first(), b);
    }
}

/// Printing only moves the cursor down, by whole character heights.
pub proof fn lemma_print_cursor_moves_down(
    f: FrameData,
    font: PsfFont,
    colour: u32,
    cur: Point,
    screen: Seq<u32>,
    s: Seq<char>,
)
    requires
        print_fits(f, font, colour, cur, screen, s),
    ensures
        ({
            let after = print_seq(f, font, colour, cur, screen, s).0;
            &&& after.Y >= cur.Y
            &&& (after.Y - cur.Y) % (CHAR_HEIGHT as int) == 0
        }),
    decreases s.len(),
{
    if s.len() > 0 {
        let next = print_char(f, font, colour, cur, screen, s[0]);
        lemma_print_cursor_moves_down(f, font, colour, next.0, next.1, s.drop_first());
        let after = print_seq(f, font, colour, cur, screen, s).0;
        assert(next.0.Y == cur.Y || next.0.Y == cur.Y + CHAR_HEIGHT);
        assert((after.Y - next.0.Y) % 16 == 0);
        assert((after.Y - cur.Y) % 16 == 0) by {
            vstd::arithmetic::div_mod::lemma_add_mod_noop(after.Y - next.0.Y, next.0.Y - cur.Y, 16);
        }
    }
}

/// `PutPix` writes the pixel whose byte offset `FrameData::get_pixel` gives:
/// word `pixel_index` starts at byte `4 * pixels_per_scan_line * y + 4 * x`.
pub proof fn lemma_put_pix_at_get_pixel(f: FrameData, x: int, y: int)
    requires
        f.pixels_per_scan_line <= u32::MAX,
    ensures
        4 * pixel_index(f, x, y) == 4 * f.pixels_per_scan_line * y + 4 * x,
{
    assert(scan_line(f) == f.pixels_per_scan_line);
    assert(4 * (x + y * f.pixels_per_scan_line) == 4 * f.pixels_per_scan_line * y + 4 * x) by (nonlinear_arith);
}

/// Drawing character `chr` with its top left corner at (xo, yo) lights exactly
/// the set bits of that character's own glyph. For every visible cell (row
/// r < 16 with yo + r below the height, column c < 8 with xo + c left of the
/// width) whose byte `chr * charsize + r` of the glyph table has bit `7 - c`
/// set, pixel (xo + c, yo + r), word `xo + c + (yo + r) * stride`, takes the
/// colour; and every word that changes is such a pixel.
pub proof fn lemma_put_char_lights_glyph_bits(
    f: FrameData,
    font: PsfFont,
    screen: Seq<u32>,
    colour: u32,
    chr: char,
    xo: u32,
    yo: u32,
)
    ensures
        ({
            let out = paint(screen, glyph_targets(f, font, chr, xo, yo), colour);
            let w = f.width as u32;
            let h = f.height as u32;
            let s = f.pixels_per_scan_line as u32;
            let g = (chr as u32) * (font.header.charsize as u32);
            &&& out.len() == screen.len()
            &&& forall|r: int, c: int|
                #![trigger out[xo + c + (yo + r) * s]]
                0 <= r < 16 && 0 <= c < 8 && yo + r < h && xo + c < w
                    && font.buffer@[r + g] & (128u8 >> (c as u32)) != 0
                    && xo + c + (yo + r) * s < screen.len()
                    ==> out[xo + c + (yo + r) * s] == colour
            &&& forall|i: int|
                0 <= i < screen.len() && #[trigger] out[i] != screen[i] ==> {
                    &&& out[i] == colour
                    &&& exists|r: int, c: int|
                        #![trigger out[xo + c + (yo + r) * s]]
                        0 <= r < 16 && 0 <= c < 8 && yo + r < h && xo + c < w
                            && font.buffer@[r + g] & (128u8 >> (c as u32)) != 0
                            && i == xo + c + (yo + r) * s
                }
        }),
{
    let out = paint(screen, glyph_targets(f, font, chr, xo, yo), colour);
    let w = f.width as u32;
    let h = f.height as u32;
    let s = f.pixels_per_scan_line as u32;
    let g = (chr as u32) * (font.header.charsize as u32);
    assert forall|r: int, c: int|
        0 <= r < 16 && 0 <= c < 8 && yo + r < h && xo + c < w
            && font.buffer@[r + g] & (128u8 >> (c as u32)) != 0
            && xo + c + (yo + r) * s < screen.len()
        implies #[trigger] out[xo + c + (yo + r) * s] == colour by {
        let b = font.buffer@[r + g];
        assert(b & (128u8 >> (c as u32)) > 0);
        assert(cell_drawn(f, font, chr, xo, yo, r, c));
        assert(pixel_index(f, xo + c, yo + r) == xo + c + (yo + r) * s);
        assert(glyph_targets(f, font, chr, xo, yo).contains(xo + c + (yo + r) * s));
    }
    assert forall|i: int| 0 <= i < screen.len() && #[trigger] out[i] != screen[i] implies {
        &&& out[i] == colour
        &&& exists|r: int, c: int|
            #![trigger out[xo + c + (yo + r) * s]]
            0 <= r < 16 && 0 <= c < 8 && yo + r < h && xo + c < w
                && font.buffer@[r + g] & (128u8 >> (c as u32)) != 0
                && i == xo + c + (yo + r) * s
    } by {
        assert(glyph_targets(f, font, chr, xo, yo).contains(i));
        let (r, c) = choose|r: int, c: int|
            (r < CHAR_HEIGHT || (r == CHAR_HEIGHT && c < 0)) && #[trigger] cell_drawn(f, font, chr, xo, yo, r, c)
                && pixel_index(f, xo + c, yo + r) == i;
        let b = font.buffer@[r + g];
        assert(b & (128u8 >> (c as u32)) != 0);
        assert(out[xo + c + (yo + r) * s] == out[i]);
    }
}

/// Printing one character draws that character's own glyph: with the cursor on
/// the visible screen, every visible set bit of the glyph (byte
/// `c * charsize + r` of the glyph table, bit `7 - col`) lights pixel
/// (X + col, Y + r) in the current colour and every changed word is such a
/// pixel; with the cursor off the screen nothing is drawn. The cursor then
/// moves one cell right, or to the start of the next line when no further cell
/// fits on this one.
pub proof fn lemma_print_one_char(
    f: FrameData,
    font: PsfFont,
    colour: u32,
    cur: Point,
    screen: Seq<u32>,
    ch: char,
)
    ensures
        ({
            let (after, out) = print_seq(f, font, colour, cur, screen, seq![ch]);
            let w = f.width as u32;
            let h = f.height as u32;
            let s = f.pixels_per_scan_line as u32;
            let g = (ch as u32) * (font.header.charsize as u32);
            &&& out.len() == screen.len()
            &&& !(cur.X < w && cur.Y < h) ==> out == screen
            &&& (cur.X < w && cur.Y < h) ==> forall|r: int, c: int|
                #![trigger out[cur.X + c + (cur.Y + r) * s]]
                0 <= r < 16 && 0 <= c < 8 && cur.Y + r < h && cur.X + c < w
                    && font.buffer@[r + g] & (128u8 >> (c as u32)) != 0
                    && cur.X + c + (cur.Y + r) * s < screen.len()
                    ==> out[cur.X + c + (cur.Y + r) * s] == colour
            &&& forall|i: int|
                0 <= i < screen.len() && #[trigger] out[i] != screen[i] ==> {
                    &&& out[i] == colour
                    &&& exists|r: int, c: int|
                        #![trigger out[cur.X + c + (cur.Y + r) * s]]
                        0 <= r < 16 && 0 <= c < 8 && cur.Y + r < h && cur.X + c < w
                            && font.buffer@[r + g] & (128u8 >> (c as u32)) != 0
                            && i == cur.X + c + (cur.Y + r) * s
                }
            &&& after == if cur.X + 16 > w {
                Point { X: 0, Y: (cur.Y + 16) as u32 }
            } else {
                Point { X: (cur.X + 8) as u32, Y: cur.Y }
            }
        }),
{
    let one = seq![ch];
    let next = print_char(f, font, colour, cur, screen, ch);
    assert(one[0] == ch);
    assert(one.drop_first().len() == 0);
    assert(print_seq(f, font, colour, next.0, next.1, one.drop_first()) == next);
    lemma_put_char_lights_glyph_bits(f, font, screen, colour, ch, cur.X, cur.Y);
}

/// Clearing paints every visible pixel and nothing else: after painting the
/// visible pixels with `clear_color`, word `x + y * stride` holds that colour
/// for every x below the width and y below the height, and every word that
/// changed is such a pixel.
pub proof fn lemma_clear_paints_visible_pixels(f: FrameData, screen: Seq<u32>, clear_color: u32)
    ensures
        ({
            let out = paint(screen, screen_targets(f), clear_color);
            let w = f.width as u32;
            let h = f.height as u32;
            let s = f.pixels_per_scan_line as u32;
            &&& out.len() == screen.len()
            &&& forall|x: int, y: int|
                #![trigger out[x + y * s]]
                0 <= x < w && 0 <= y < h && x + y * s < screen.len() ==> out[x + y * s] == clear_color
            &&& forall|i: int|
                0 <= i < screen.len() && #[trigger] out[i] != screen[i] ==> {
                    &&& out[i] == clear_color
                    &&& exists|x: int, y: int| #![trigger out[x + y * s]] 0 <= x < w && 0 <= y < h && i == x + y * s
                }
        }),
{
    let out = paint(screen, screen_targets(f), clear_color);
    let s = f.pixels_per_scan_line as u32;
    assert forall|x: int, y: int|
        0 <= x < (f.width as u32) && 0 <= y < (f.height as u32) && x + y * s < screen.len()
        implies #[trigger] out[x + y * s] == clear_color by {
        assert(on_screen(f, x, y));
        assert(pixel_index(f, x, y) == x + y * s);
        assert(screen_targets(f).contains(x + y * s));
    }
    assert forall|i: int| 0 <= i < screen.len() && #[trigger] out[i] != screen[i] implies {
        &&& out[i] == clear_color
        &&& exists|x: int, y: int| #![trigger out[x + y * s]] 0 <= x < (f.width as u32) && 0 <= y < (f.height as u32) && i == x + y * s
    } by {
        assert(screen_targets(f).contains(i));
        let (x, y) = choose|x: int, y: int|
            (y < fb_height(f) || (y == fb_height(f) && x < 0)) && #[trigger] on_screen(f, x, y) && pixel_index(f, x, y) == i;
        assert(out[x + y * s] == out[i]);
    }
}

/// Printing the empty string changes neither the cursor nor the screen.
pub proof fn lemma_print_empty(f: FrameData, font: PsfFont, colour: u32, cur: Point, screen: Seq<u32>)
    ensures
        print_seq(f, font, colour, cur, screen, Seq::<char>::empty()) == (cur, screen),
{
}

} // verus!
