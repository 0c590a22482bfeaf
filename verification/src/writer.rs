//! The text writer: it renders characters into a framebuffer of 32-bit
//! pixels, keeps a cursor, wraps lines and scrolls.

use vstd::prelude::*;
use vstd::slice::slice_to_vec;
use vstd::string::*;
use crate::text::rows;
use noto_sans_mono_bitmap::{FontWeight, RasterHeight, get_raster};

verus! {

/// The levels of the kernel log, each with its color and prefix.
#[derive(Clone, Copy, Debug, PartialEq, Eq, Structural)]
pub enum LogLevel {
    Error,
    Warn,
    Info,
    Debug,
    Trace,
}

/// A color: red, green and blue.
pub type Rgb = (u8, u8, u8);

impl LogLevel {
    /// The text that starts a line of this level.
    pub fn prefix(&self) -> (p: &'static str)
        ensures
            p@ == self.spec_prefix(),
    {
        match self {
            LogLevel::Trace => "[TRACE] ",
            LogLevel::Debug => "[DEBUG] ",
            LogLevel::Info => "[INFO ] ",
            LogLevel::Warn => "[WARN ] ",
            LogLevel::Error => "[ERROR] ",
        }
    }

    /// The text that starts a line of this level.
    pub open spec fn spec_prefix(&self) -> Seq<char> {
        match self {
            LogLevel::Trace => "[TRACE] "@,
            LogLevel::Debug => "[DEBUG] "@,
            LogLevel::Info => "[INFO ] "@,
            LogLevel::Warn => "[WARN ] "@,
            LogLevel::Error => "[ERROR] "@,
        }
    }

    /// The foreground color of this level: red for errors, yellow for
    /// warnings, green for information, blue for debugging, gray for
    /// traces.
    pub open spec fn spec_color(&self) -> Rgb {
        match self {
            LogLevel::Error => (255u8, 0u8, 0u8),
            LogLevel::Warn => (255u8, 255u8, 0u8),
            LogLevel::Info => (0u8, 255u8, 0u8),
            LogLevel::Debug => (0u8, 0u8, 255u8),
            LogLevel::Trace => (128u8, 128u8, 128u8),
        }
    }
}

/// The raster of a character: `height` rows of `width` bytes, one byte of
/// intensity for each pixel.
pub struct Glyph {
    pub width: usize,
    pub height: usize,
    pub rows: Vec<Vec<u8>>,
}

/// The largest width and height of a glyph.
pub const GLYPH_MAX: usize = 0xFFFF;

/// The largest width and height of a framebuffer that the writer draws to.
pub const SCREEN_MAX: usize = 0x3FFF_0000;

/// A glyph as plain values.
pub struct GlyphView {
    pub width: usize,
    pub height: usize,
    pub rows: Seq<Seq<u8>>,
}

impl GlyphView {
    /// The intensity of the pixel in row `r` and column `c`.
    pub open spec fn alpha(self, r: int, c: int) -> u8 {
        self.rows[r][c]
    }
}

impl View for Glyph {
    type V = GlyphView;

    open spec fn view(&self) -> GlyphView {
        GlyphView { width: self.width, height: self.height, rows: rows(self.rows) }
    }
}

impl Glyph {
    /// The raster has as many rows as the height says, each as long as the
    /// width says.
    pub open spec fn wf(&self) -> bool {
        raster_fits(self.width, self.height, rows(self.rows))
    }

    /// The raster as a glyph, if it has the shape that width and height
    /// say.
    pub fn checked(width: usize, height: usize, raster: &Vec<&'static [u8]>) -> (g: Option<Glyph>)
        ensures
            g is Some <==> raster_fits(width, height, rows_of(*raster)),
            g matches Some(glyph) ==> glyph.wf() && glyph@ == (GlyphView {
                width,
                height,
                rows: rows_of(*raster),
            }),
    {
        if width > GLYPH_MAX || height > GLYPH_MAX || raster.len() != height {
            return None;
        }
        let mut copied: Vec<Vec<u8>> = Vec::new();
        let mut r: usize = 0;
        while r < height
            invariant
                r <= height,
                raster@.len() == height,
                copied@.len() == r,
                forall|k: int|
                    0 <= k < r ==> (#[trigger] copied@[k])@ == raster@[k]@ && raster@[k]@.len()
                        == width,
            decreases height - r,
        {
            let row: &[u8] = raster[r];
            if row.len() != width {
                proof {
                    assert(rows_of(*raster)[r as int].len() != width);
                }
                return None;
            }
            copied.push(slice_to_vec(row));
            r += 1;
        }
        proof {
            assert forall|k: int| 0 <= k < rows_of(*raster).len() implies (#[trigger] rows_of(
                *raster,
            )[k]).len() == width by {
                assert(copied@[k]@ == raster@[k]@);
            }
            assert(rows(copied) =~= rows_of(*raster));
        }
        Some(Glyph { width, height, rows: copied })
    }
}

/// The rows of a raster.
pub open spec fn rows_of(raster: Vec<&'static [u8]>) -> Seq<Seq<u8>> {
    Seq::new(raster@.len(), |r: int| raster@[r]@)
}

/// The rows have the shape that width and height say.
pub open spec fn raster_fits(width: usize, height: usize, rows: Seq<Seq<u8>>) -> bool {
    &&& width <= GLYPH_MAX
    &&& height <= GLYPH_MAX
    &&& rows.len() == height
    &&& forall|r: int| 0 <= r < rows.len() ==> (#[trigger] rows[r]).len() == width
}

/// What the font holds for a character: the width, the height and the rows
/// of its raster, or nothing for a character that the font does not have.
pub uninterp spec fn raster_of(c: char) -> Option<(usize, usize, Seq<Seq<u8>>)>;

/// What a lookup in the font returned, as plain values.
pub open spec fn raster_view(r: Option<(usize, usize, Vec<&'static [u8]>)>) -> Option<
    (usize, usize, Seq<Seq<u8>>),
> {
    match r {
        Some((width, height, raster)) => Some((width, height, rows_of(raster))),
        None => None,
    }
}

/// Looks a character up in the font. Calls `get_raster` of
/// `noto_sans_mono_bitmap` for the regular weight at height 16 and hands
/// back the width, the height and the rows of what it returns. The raster
/// depends on the character alone; the contract gives it a name and claims
/// nothing else of it.
#[verifier::external_body]
fn get_glyph(c: char) -> (r: Option<(usize, usize, Vec<&'static [u8]>)>)
    ensures
        raster_view(r) == raster_of(c),
{
    match get_raster(c, FontWeight::Regular, RasterHeight::Size16) {
        Some(g) => Some((g.width(), g.height(), g.raster().to_vec())),
        None => None,
    }
}

/// The pixel of a color, fully opaque.
pub open spec fn opaque(color: Rgb) -> u32 {
    (0xFF00_0000 + color.0 * 0x1_0000 + color.1 * 0x100 + color.2) as u32
}

/// The pixel of a color without the opacity byte.
pub open spec fn plain(color: Rgb) -> u32 {
    (color.0 * 0x1_0000 + color.1 * 0x100 + color.2) as u32
}

/// Packs a color into a fully opaque pixel.
fn opaque_pixel(color: Rgb) -> (p: u32)
    ensures
        p == opaque(color),
{
    let a = color.0 as u32;
    let b = color.1 as u32;
    let c = color.2 as u32;
    assert(a <= 0xFF && b <= 0xFF && c <= 0xFF ==> (0xFFu32 << 24) | (a << 16) | (b << 8) | c
        == 0xFF00_0000 + a * 0x1_0000 + b * 0x100 + c) by (bit_vector);
    (0xFFu32 << 24) | (a << 16) | (b << 8) | c
}

/// Packs a color into a pixel without opacity.
fn plain_pixel(color: Rgb) -> (p: u32)
    ensures
        p == plain(color),
{
    let a = color.0 as u32;
    let b = color.1 as u32;
    let c = color.2 as u32;
    assert(a <= 0xFF && b <= 0xFF && c <= 0xFF ==> (a << 16) | (b << 8) | c == a * 0x1_0000 + b
        * 0x100 + c) by (bit_vector);
    (a << 16) | (b << 8) | c
}

/// The framebuffer after it was scrolled up by one line: every row takes
/// the pixels of the row `line_height` below it, and the last `line_height`
/// rows take the background.
pub open spec fn scrolled(
    fb: Seq<u32>,
    stride: int,
    height: int,
    line_height: int,
    bg: Rgb,
) -> Seq<u32> {
    Seq::new(
        fb.len(),
        |i: int|
            if i < stride * (height - line_height) {
                fb[i + line_height * stride]
            } else if i < stride * height {
                plain(bg)
            } else {
                fb[i]
            },
    )
}

/// Scrolls the framebuffer up by one line.
pub fn scroll_up(
    framebuffer: &mut [u32],
    stride_pixels: usize,
    height: usize,
    line_height: usize,
    bg_color: Rgb,
)
    requires
        line_height <= height,
        stride_pixels * height <= old(framebuffer)@.len(),
    ensures
        final(framebuffer)@ == scrolled(
            old(framebuffer)@,
            stride_pixels as int,
            height as int,
            line_height as int,
            bg_color,
        ),
{
    let bg = plain_pixel(bg_color);
    let len: usize = framebuffer.len();
    assert(stride_pixels * (height - line_height) + line_height * stride_pixels == stride_pixels
        * height && stride_pixels * (height - line_height) >= 0 && line_height * stride_pixels
        >= 0) by (nonlinear_arith)
        requires
            line_height <= height,
    ;
    let kept: usize = stride_pixels * (height - line_height);
    let shift: usize = line_height * stride_pixels;
    let total: usize = kept + shift;
    let mut i: usize = 0;
    while i < kept
        invariant
            i <= kept,
            kept + shift == total,
            total <= framebuffer@.len(),
            framebuffer@.len() == old(framebuffer)@.len(),
            forall|j: int| 0 <= j < i ==> framebuffer@[j] == old(framebuffer)@[j + shift],
            forall|j: int| i <= j < framebuffer@.len() ==> framebuffer@[j] == old(framebuffer)@[j],
        decreases kept - i,
    {
        framebuffer[i] = framebuffer[i + shift];
        i += 1;
    }
    while i < total
        invariant
            kept <= i <= total,
            total <= framebuffer@.len(),
            framebuffer@.len() == old(framebuffer)@.len(),
            forall|j: int| 0 <= j < kept ==> framebuffer@[j] == old(framebuffer)@[j + shift],
            forall|j: int| kept <= j < i ==> framebuffer@[j] == bg,
            forall|j: int| total <= j < framebuffer@.len() ==> framebuffer@[j] == old(framebuffer)@[j],
        decreases total - i,
    {
        framebuffer[i] = bg;
        i += 1;
    }
    proof {
        assert(framebuffer@ =~= scrolled(
            old(framebuffer)@,
            stride_pixels as int,
            height as int,
            line_height as int,
            bg_color,
        ));
    }
}

/// The pixel at index `i` lies in the box of a glyph that is drawn at
/// `(x, y)`, as far as the box lies on the screen.
pub open spec fn in_glyph(g: GlyphView, stride: int, height: int, x: int, y: int, i: int) -> bool {
    &&& stride > 0
    &&& 0 <= i < stride * height
    &&& y <= i / stride < y + g.height
    &&& x <= i % stride < x + g.width
}

/// The pixel that a glyph puts at index `i`: the foreground where the
/// raster has intensity, the background where it has none.
pub open spec fn glyph_pixel(g: GlyphView, fg: Rgb, bg: Rgb, stride: int, x: int, y: int, i: int) -> u32 {
    if g.alpha(i / stride - y, i % stride - x) > 0 {
        opaque(fg)
    } else {
        opaque(bg)
    }
}

/// The framebuffer after a glyph was drawn at `(x, y)`: the pixels of its
/// box, as far as they lie on the screen, take foreground or background;
/// all others keep their value.
pub open spec fn drawn(
    fb: Seq<u32>,
    g: GlyphView,
    fg: Rgb,
    bg: Rgb,
    stride: int,
    height: int,
    x: int,
    y: int,
) -> Seq<u32> {
    Seq::new(
        fb.len(),
        |i: int|
            if in_glyph(g, stride, height, x, y, i) {
                glyph_pixel(g, fg, bg, stride, x, y, i)
            } else {
                fb[i]
            },
    )
}

/// The index of a pixel decides its row and column.
proof fn lemma_row_col(stride: int, row: int, col: int)
    requires
        0 <= col < stride,
        0 <= row,
    ensures
        (row * stride + col) / stride == row,
        (row * stride + col) % stride == col,
{
    vstd::arithmetic::div_mod::lemma_fundamental_div_mod_converse(row * stride + col, stride, row, col);
}

/// A pixel of a row lies on the screen.
proof fn lemma_on_screen(stride: int, height: int, row: int, col: int)
    requires
        0 <= col < stride,
        0 <= row < height,
    ensures
        0 <= row * stride + col < stride * height,
        0 <= row * stride,
{
    assert(row * stride + col < stride * height) by (nonlinear_arith)
        requires
            0 <= col < stride,
            0 <= row < height,
    ;
    assert(0 <= row * stride) by (nonlinear_arith)
        requires
            0 <= row,
            0 < stride,
    ;
}

/// Draws a glyph into the framebuffer at `(x, y)`.
pub fn draw_glyph(
    glyph: &Glyph,
    fg: Rgb,
    bg: Rgb,
    framebuffer: &mut [u32],
    stride_pixels: usize,
    height: usize,
    x: usize,
    y: usize,
)
    requires
        glyph.wf(),
        stride_pixels * height <= old(framebuffer)@.len(),
        x <= SCREEN_MAX,
        y <= SCREEN_MAX,
    ensures
        final(framebuffer)@ == drawn(
            old(framebuffer)@,
            glyph@,
            fg,
            bg,
            stride_pixels as int,
            height as int,
            x as int,
            y as int,
        ),
{
    let fg_color = opaque_pixel(fg);
    let bg_color = opaque_pixel(bg);
    let len: usize = framebuffer.len();
    let ghost before = framebuffer@;
    let ghost stride = stride_pixels as int;
    let mut row: usize = 0;
    while row < glyph.height && y + row < height
        invariant
            row <= glyph.height,
            glyph.wf(),
            x <= SCREEN_MAX,
            y <= SCREEN_MAX,
            stride == stride_pixels,
            before == old(framebuffer)@,
            framebuffer@.len() == before.len(),
            before.len() == len,
            stride_pixels * height <= before.len(),
            fg_color == opaque(fg),
            bg_color == opaque(bg),
            forall|i: int|
                0 <= i < before.len() ==> #[trigger] framebuffer@[i] == if in_glyph(
                    glyph@,
                    stride,
                    height as int,
                    x as int,
                    y as int,
                    i,
                ) && i / stride < y + row {
                    glyph_pixel(glyph@, fg, bg, stride, x as int, y as int, i)
                } else {
                    before[i]
                },
        decreases glyph.height - row,
    {
        let mut col: usize = 0;
        while col < glyph.width && x + col < stride_pixels
            invariant
                row < glyph.height,
                y + row < height,
                col <= glyph.width,
                glyph.wf(),
                x <= SCREEN_MAX,
                y <= SCREEN_MAX,
                stride == stride_pixels,
                before == old(framebuffer)@,
                framebuffer@.len() == before.len(),
                before.len() == len,
                stride_pixels * height <= before.len(),
                fg_color == opaque(fg),
                bg_color == opaque(bg),
                forall|i: int|
                    0 <= i < before.len() ==> #[trigger] framebuffer@[i] == if in_glyph(
                        glyph@,
                        stride,
                        height as int,
                        x as int,
                        y as int,
                        i,
                    ) && (i / stride < y + row || (i / stride == y + row && i % stride < x + col)) {
                        glyph_pixel(glyph@, fg, bg, stride, x as int, y as int, i)
                    } else {
                        before[i]
                    },
            decreases glyph.width - col,
        {
            let py: usize = y + row;
            let px: usize = x + col;
            proof {
                lemma_on_screen(stride_pixels as int, height as int, py as int, px as int);
                lemma_row_col(stride_pixels as int, py as int, px as int);
                assert(rows(glyph.rows)[row as int].len() == glyph.width);
                assert(rows(glyph.rows)[row as int] == glyph.rows@[row as int]@);
            }
            let idx: usize = py * stride_pixels + px;
            let alpha: u8 = glyph.rows[row][col];
            framebuffer[idx] = if alpha > 0 {
                fg_color
            } else {
                bg_color
            };
            proof {
                assert forall|i: int| 0 <= i < before.len() implies #[trigger] framebuffer@[i]
                    == if in_glyph(glyph@, stride, height as int, x as int, y as int, i) && (i
                    / stride < y + row || (i / stride == y + row && i % stride < x + col + 1)) {
                    glyph_pixel(glyph@, fg, bg, stride, x as int, y as int, i)
                } else {
                    before[i]
                } by {
                    if i != idx && i / stride == py && i % stride == px {
                        vstd::arithmetic::div_mod::lemma_fundamental_div_mod(i, stride);
                        assert(stride * py == py * stride) by (nonlinear_arith);
                    }
                }
            }
            col += 1;
        }
        row += 1;
    }
    proof {
        assert forall|i: int| 0 <= i < before.len() implies #[trigger] framebuffer@[i] == drawn(
            before,
            glyph@,
            fg,
            bg,
            stride,
            height as int,
            x as int,
            y as int,
        )[i] by {
            if in_glyph(glyph@, stride, height as int, x as int, y as int, i) {
                if y + row >= height {
                    assert(i / stride < height) by (nonlinear_arith)
                        requires
                            0 <= i < stride * height,
                            stride > 0,
                    ;
                }
            }
        }
        assert(framebuffer@ =~= drawn(
            before,
            glyph@,
            fg,
            bg,
            stride,
            height as int,
            x as int,
            y as int,
        ));
    }
}

/// The glyph of a character, if the font has one of a sound shape.
pub open spec fn glyph_of(c: char) -> Option<GlyphView> {
    match raster_of(c) {
        Some((width, height, rows)) => if raster_fits(width, height, rows) {
            Some(GlyphView { width, height, rows })
        } else {
            None
        },
        None => None,
    }
}

/// The writer: colors, a cursor, the geometry of the screen, and the
/// framebuffer it draws to.
pub struct TextWriter {
    pub fg_color: Rgb,
    pub bg_color: Rgb,
    pub cursor_x: usize,
    pub cursor_y: usize,
    /// The visible width in pixels.
    pub width: usize,
    /// The visible height in pixels.
    pub height: usize,
    /// The height of a line of text in pixels.
    pub line_height: usize,
    /// The pixels of a row of the framebuffer.
    pub stride_pixels: usize,
    pub framebuffer: Vec<u32>,
    pub enable_scroll: bool,
}

/// The state of a writer as plain values.
pub struct Screen {
    pub fb: Seq<u32>,
    pub fg: Rgb,
    pub bg: Rgb,
    pub cursor_x: int,
    pub cursor_y: int,
    pub width: int,
    pub height: int,
    pub line_height: int,
    pub stride: int,
    pub scroll: bool,
}

impl View for TextWriter {
    type V = Screen;

    open spec fn view(&self) -> Screen {
        Screen {
            fb: self.framebuffer@,
            fg: self.fg_color,
            bg: self.bg_color,
            cursor_x: self.cursor_x as int,
            cursor_y: self.cursor_y as int,
            width: self.width as int,
            height: self.height as int,
            line_height: self.line_height as int,
            stride: self.stride_pixels as int,
            scroll: self.enable_scroll,
        }
    }
}

/// The character is a decimal digit.
pub open spec fn is_digit(c: char) -> bool {
    0x30 <= c as u32 <= 0x39
}

/// The screen after the cursor went to the start of the next line. On the
/// last line the screen scrolls, if it may, and the cursor stays on the
/// last line.
pub open spec fn line_feed(s: Screen) -> Screen {
    if s.cursor_y + s.line_height + s.line_height >= s.height {
        Screen {
            fb: if s.scroll {
                scrolled(s.fb, s.stride, s.height, s.line_height, s.bg)
            } else {
                s.fb
            },
            cursor_x: 0,
            cursor_y: s.height - s.line_height,
            ..s
        }
    } else {
        Screen { cursor_x: 0, cursor_y: s.cursor_y + s.line_height, ..s }
    }
}

/// The screen after the glyph of `c` was drawn at the cursor: the cursor
/// moves right by the width of the glyph and a gap, which is wider behind a
/// digit; where no further glyph would fit, it goes to the next line.
pub open spec fn with_glyph(s: Screen, c: char, g: GlyphView) -> Screen {
    let fb = drawn(s.fb, g, s.fg, s.bg, s.stride, s.height, s.cursor_x, s.cursor_y);
    let x = s.cursor_x + g.width + if is_digit(c) {
        2int
    } else {
        1int
    };
    if x + g.width >= s.width {
        line_feed(Screen { fb, ..s })
    } else {
        Screen { fb, cursor_x: x, ..s }
    }
}

/// The screen after one character: a newline feeds the line, a character
/// of the font is drawn, any other is left out.
pub open spec fn char_step(s: Screen, c: char) -> Screen {
    if c == '\n' {
        line_feed(s)
    } else {
        match glyph_of(c) {
            Some(g) => with_glyph(s, c, g),
            None => s,
        }
    }
}

/// The screen after the characters of a text, one after the other.
pub open spec fn written(s: Screen, text: Seq<char>) -> Screen
    decreases text.len(),
{
    if text.len() == 0 {
        s
    } else {
        char_step(written(s, text.drop_last()), text.last())
    }
}

impl TextWriter {
    /// The invariant: the framebuffer has a pixel for each place of the
    /// screen, the visible width is within a row, a line fits on the
    /// screen, and the cursor stands on the screen with room for a line
    /// below it.
    pub open spec fn wf(&self) -> bool {
        &&& self.framebuffer@.len() == self.stride_pixels * self.height
        &&& self.width <= self.stride_pixels
        &&& self.width <= SCREEN_MAX
        &&& self.height <= SCREEN_MAX
        &&& self.line_height <= self.height
        &&& self.cursor_x <= self.width
        &&& self.cursor_y + self.line_height <= self.height
    }

    /// A writer on a cleared screen, white on black, with the cursor in the
    /// upper left corner and scrolling switched on. `None` where the
    /// geometry is not one that a writer can work with.
    pub fn new(width: usize, height: usize, stride_pixels: usize, line_height: usize) -> (r: Option<
        TextWriter,
    >)
        ensures
            r is Some <==> width <= stride_pixels && width <= SCREEN_MAX && height <= SCREEN_MAX
                && line_height <= height && stride_pixels * height <= usize::MAX,
            r matches Some(w) ==> w.wf() && w@ == (Screen {
                fb: Seq::new((stride_pixels * height) as nat, |i: int| 0u32),
                fg: (255u8, 255u8, 255u8),
                bg: (0u8, 0u8, 0u8),
                cursor_x: 0,
                cursor_y: 0,
                width: width as int,
                height: height as int,
                line_height: line_height as int,
                stride: stride_pixels as int,
                scroll: true,
            }),
    {
        if width > stride_pixels || width > SCREEN_MAX || height > SCREEN_MAX || line_height
            > height {
            return None;
        }
        let total = match stride_pixels.checked_mul(height) {
            Some(t) => t,
            None => {
                return None;
            },
        };
        let mut framebuffer: Vec<u32> = Vec::new();
        let mut i: usize = 0;
        while i < total
            invariant
                i <= total,
                framebuffer@.len() == i,
                forall|j: int| 0 <= j < i ==> framebuffer@[j] == 0u32,
            decreases total - i,
        {
            framebuffer.push(0u32);
            i += 1;
        }
        let w = TextWriter {
            fg_color: (255, 255, 255),
            bg_color: (0, 0, 0),
            cursor_x: 0,
            cursor_y: 0,
            width,
            height,
            line_height,
            stride_pixels,
            framebuffer,
            enable_scroll: true,
        };
        proof {
            assert(w@.fb =~= Seq::new((stride_pixels * height) as nat, |i: int| 0u32));
        }
        Some(w)
    }

    /// Sets the colors of what is written next.
    pub fn set_color(&mut self, fg: Rgb, bg: Rgb)
        ensures
            final(self)@ == (Screen { fg, bg, ..old(self)@ }),
            old(self).wf() ==> final(self).wf(),
    {
        self.fg_color = fg;
        self.bg_color = bg;
    }

    /// Sets the colors for a level of the log: its color on black.
    pub fn set_log_level_color(&mut self, level: LogLevel)
        ensures
            final(self)@ == (Screen { fg: level.spec_color(), bg: (0u8, 0u8, 0u8), ..old(self)@ }),
            old(self).wf() ==> final(self).wf(),
    {
        match level {
            LogLevel::Error => self.set_color((255, 0, 0), (0, 0, 0)),
            LogLevel::Warn => self.set_color((255, 255, 0), (0, 0, 0)),
            LogLevel::Info => self.set_color((0, 255, 0), (0, 0, 0)),
            LogLevel::Debug => self.set_color((0, 0, 255), (0, 0, 0)),
            LogLevel::Trace => self.set_color((128, 128, 128), (0, 0, 0)),
        }
    }

    /// Moves the cursor to the start of the next line, scrolling on the
    /// last line.
    pub fn new_line(&mut self)
        requires
            old(self).wf(),
        ensures
            final(self).wf(),
            final(self)@ == line_feed(old(self)@),
    {
        self.cursor_x = 0;
        self.cursor_y = self.cursor_y + self.line_height;
        if self.cursor_y + self.line_height >= self.height {
            if self.enable_scroll {
                scroll_up(
                    self.framebuffer.as_mut_slice(),
                    self.stride_pixels,
                    self.height,
                    self.line_height,
                    self.bg_color,
                );
            }
            self.cursor_y = self.height - self.line_height;
        }
    }

    /// Draws the glyph of `c` at the cursor and moves the cursor on.
    pub fn put_glyph(&mut self, c: char, glyph: &Glyph)
        requires
            old(self).wf(),
            glyph.wf(),
        ensures
            final(self).wf(),
            final(self)@ == with_glyph(old(self)@, c, glyph@),
    {
        draw_glyph(
            glyph,
            self.fg_color,
            self.bg_color,
            self.framebuffer.as_mut_slice(),
            self.stride_pixels,
            self.height,
            self.cursor_x,
            self.cursor_y,
        );
        let code: u32 = c as u32;
        let gap: usize = if 0x30 <= code && code <= 0x39 {
            2
        } else {
            1
        };
        let x: usize = self.cursor_x + glyph.width + gap;
        if x + glyph.width >= self.width {
            self.new_line();
        } else {
            self.cursor_x = x;
        }
    }

    /// Writes one character: a newline feeds the line, a character of the
    /// font is drawn at the cursor, any other is left out.
    pub fn write_char(&mut self, c: char)
        requires
            old(self).wf(),
        ensures
            final(self).wf(),
            final(self)@ == char_step(old(self)@, c),
    {
        if c == '\n' {
            self.new_line();
            return ;
        }
        match get_glyph(c) {
            None => {},
            Some((width, height, raster)) => {
                match Glyph::checked(width, height, &raster) {
                    Some(glyph) => {
                        self.put_glyph(c, &glyph);
                    },
                    None => {},
                }
            },
        }
    }

    /// Writes the characters of a string, one after the other.
    pub fn write_str_inner(&mut self, s: &str)
        requires
            old(self).wf(),
        ensures
            final(self).wf(),
            final(self)@ == written(old(self)@, s@),
    {
        let n: usize = s.unicode_len();
        let mut i: usize = 0;
        proof {
            assert(s@.take(0) =~= Seq::<char>::empty());
        }
        while i < n
            invariant
                i <= n,
                n == s@.len(),
                self.wf(),
                self@ == written(old(self)@, s@.take(i as int)),
            decreases n - i,
        {
            let c = s.get_char(i);
            proof {
                let upto = s@.take(i + 1);
                assert(upto.drop_last() =~= s@.take(i as int));
                assert(upto.last() == c);
            }
            self.write_char(c);
            i += 1;
        }
        proof {
            assert(s@.take(n as int) =~= s@);
        }
    }

    /// Writes a line of the log: the prefix of the level and the message,
    /// in the color of the level, and a newline.
    pub fn log(&mut self, level: LogLevel, message: &str)
        requires
            old(self).wf(),
        ensures
            final(self).wf(),
            final(self)@ == line_feed(
                written(
                    written(
                        Screen { fg: level.spec_color(), bg: (0u8, 0u8, 0u8), ..old(self)@ },
                        level.spec_prefix(),
                    ),
                    message@,
                ),
            ),
    {
        self.set_log_level_color(level);
        self.write_str_inner(level.prefix());
        self.write_str_inner(message);
        self.write_char('\n');
    }
}

} // verus!
