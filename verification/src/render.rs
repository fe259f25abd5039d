//! Turning a frame into text: one glyph per pixel, chosen by brightness,
//! coloured with 24-bit ANSI escapes.
use vstd::prelude::*;
use crate::models::{CharSet, Config, charset_glyphs, lemma_charset_glyphs, reset_seq};
use crate::text::{chars_of, decimal, digit_char, push_decimal};

verus! {

/// A picture of `width` x `height` pixels, three bytes (red, green, blue) per
/// pixel, row after row. The buffer may be longer than the picture needs;
/// the bytes after it are not read.
#[derive(Debug)]
pub struct Frame {
    pub width: u32,
    pub height: u32,
    pub pixels: Vec<u8>,
}

impl Frame {
    /// The buffer holds every pixel of the picture.
    pub open spec fn wf(&self) -> bool {
        self.pixels@.len() >= 3 * (self.width * self.height)
    }

    /// The colour of the pixel in column `x` of row `y`.
    pub open spec fn pixel(&self, x: int, y: int) -> (u8, u8, u8) {
        let i = 3 * (y * self.width + x);
        (self.pixels@[i], self.pixels@[i + 1], self.pixels@[i + 2])
    }

    /// A picture of `width` x `height` pixels over `pixels`, or `None` where
    /// the buffer is too short for it.
    pub fn from_raw(width: u32, height: u32, pixels: Vec<u8>) -> (r: Option<Frame>)
        ensures
            r is Some <==> 3 * (width * height) <= pixels@.len(),
            r matches Some(f) ==> f.width == width && f.height == height && f.pixels@ == pixels@,
    {
        let a: u128 = width as u128;
        let b: u128 = height as u128;
        assert(a * b <= 0xffff_ffffu128 * 0xffff_ffffu128) by (nonlinear_arith)
            requires
                a <= 0xffff_ffffu128,
                b <= 0xffff_ffffu128,
        ;
        if 3 * (a * b) <= pixels.len() as u128 {
            Some(Frame { width, height, pixels })
        } else {
            None
        }
    }
}

/// The glyphs of `charset`, darkest first, or brightest first where
/// `invert` is set.
pub open spec fn spec_glyphs(charset: CharSet, invert: bool) -> Seq<char> {
    if invert {
        charset_glyphs(charset).reverse()
    } else {
        charset_glyphs(charset)
    }
}

/// The glyphs that brightness levels are mapped to.
pub fn glyph_table(charset: CharSet, invert: bool) -> (g: Vec<char>)
    ensures
        g@ == spec_glyphs(charset, invert),
{
    let forward = chars_of(charset.chars());
    if !invert {
        return forward;
    }
    let n = forward.len();
    let mut g: Vec<char> = Vec::new();
    let mut i: usize = 0;
    while i < n
        invariant
            n == forward@.len(),
            i <= n,
            g@ == Seq::new(i as nat, |k: int| forward@[n - 1 - k]),
        decreases n - i,
    {
        g.push(forward[n - 1 - i]);
        i = i + 1;
        assert(g@ =~= Seq::new(i as nat, |k: int| forward@[n - 1 - k]));
    }
    assert(g@ =~= forward@.reverse());
    g
}

/// The glyph for brightness `lum` (0 to 255) among `n` glyphs: brightness
/// scaled to the glyph positions, rounded down.
pub open spec fn glyph_index(lum: u8, n: nat) -> int {
    let i = (lum * (n - 1)) / 255;
    if i < n - 1 {
        i
    } else {
        n - 1
    }
}

/// The escape that sets the foreground to the colour `(r, g, b)`.
pub open spec fn color_escape(c: (u8, u8, u8)) -> Seq<char> {
    "\x1b[38;2;"@ + decimal(c.0 as nat) + seq![';'] + decimal(c.1 as nat) + seq![';'] + decimal(
        c.2 as nat,
    ) + seq!['m']
}

/// The text of the pixel in column `x` of row `y`: in colour, the colour
/// escape where the colour differs from the pixel before it in the row (or
/// it is the first), then the glyph of its brightness.
pub open spec fn cell_text(
    f: Frame,
    luma: Seq<u8>,
    glyphs: Seq<char>,
    no_color: bool,
    x: int,
    y: int,
) -> Seq<char> {
    let escape = if !no_color && (x == 0 || f.pixel(x, y) != f.pixel(x - 1, y)) {
        color_escape(f.pixel(x, y))
    } else {
        Seq::empty()
    };
    escape + seq![glyphs[glyph_index(luma[y * f.width + x], glyphs.len())]]
}

/// The text of the first `k` pixels of row `y`.
pub open spec fn row_prefix(
    f: Frame,
    luma: Seq<u8>,
    glyphs: Seq<char>,
    no_color: bool,
    y: int,
    k: int,
) -> Seq<char>
    decreases k,
{
    if k <= 0 {
        Seq::empty()
    } else {
        row_prefix(f, luma, glyphs, no_color, y, k - 1) + cell_text(f, luma, glyphs, no_color, k - 1, y)
    }
}

/// The text of row `y`: its pixels, then, in colour, the colour reset.
pub open spec fn row_text(f: Frame, luma: Seq<u8>, glyphs: Seq<char>, no_color: bool, y: int) -> Seq<char> {
    row_prefix(f, luma, glyphs, no_color, y, f.width as int) + if no_color {
        Seq::empty()
    } else {
        reset_seq()
    }
}

/// The lines joined with a newline between each two.
pub open spec fn join_lines_spec(lines: Seq<Seq<char>>) -> Seq<char>
    decreases lines.len(),
{
    if lines.len() == 0 {
        Seq::empty()
    } else if lines.len() == 1 {
        lines[0]
    } else {
        join_lines_spec(lines.drop_last()) + seq!['\n'] + lines.last()
    }
}

/// The rows of the picture as text.
pub open spec fn rows_text(f: Frame, luma: Seq<u8>, glyphs: Seq<char>, no_color: bool) -> Seq<Seq<char>> {
    Seq::new(f.height as nat, |y: int| row_text(f, luma, glyphs, no_color, y))
}

/// The picture as text: its rows, one per line; nothing where there is no
/// glyph or no pixel.
pub open spec fn spec_ascii(f: Frame, luma: Seq<u8>, glyphs: Seq<char>, no_color: bool) -> Seq<char> {
    if glyphs.len() == 0 || f.width == 0 || f.height == 0 {
        Seq::empty()
    } else {
        join_lines_spec(rows_text(f, luma, glyphs, no_color))
    }
}

/// The inputs of a rendering fit together: the picture is whole and there is
/// one brightness per pixel.
pub open spec fn render_inputs_ok(f: Frame, luma: Seq<u8>) -> bool {
    &&& f.wf()
    &&& luma.len() == f.width * f.height
}

proof fn lemma_cell_in_bounds(x: int, y: int, w: int, h: int)
    requires
        0 <= x < w,
        0 <= y < h,
    ensures
        0 <= y * w + x < w * h,
        y * w + x + 1 <= w * h,
{
    assert(0 <= y * w + x < w * h) by (nonlinear_arith)
        requires
            0 <= x < w,
            0 <= y < h,
    ;
}

/// The glyph position of brightness `lum` among `n` glyphs.
fn glyph_position(lum: u8, n: usize) -> (i: usize)
    requires
        n > 0,
    ensures
        i == glyph_index(lum, n as nat),
        i < n,
{
    let a: u128 = lum as u128;
    let m: u128 = (n - 1) as u128;
    assert(a * m <= 255 * 0xffff_ffff_ffff_ffffu128) by (nonlinear_arith)
        requires
            a <= 255,
            m <= 0xffff_ffff_ffff_ffffu128,
    ;
    let p: u128 = a * m;
    let q = p / 255;
    if q < (n - 1) as u128 {
        q as usize
    } else {
        n - 1
    }
}

/// Appends the escape that sets the foreground to `(r, g, b)`.
fn push_color_escape(out: &mut String, r: u8, g: u8, b: u8)
    ensures
        final(out)@ == old(out)@ + color_escape((r, g, b)),
{
    out.append("\x1b[38;2;");
    push_decimal(out, r);
    out.push(';');
    push_decimal(out, g);
    out.push(';');
    push_decimal(out, b);
    out.push('m');
    assert(out@ =~= old(out)@ + color_escape((r, g, b)));
}

/// The text of row `y` of the picture (see [`row_text`]).
pub fn render_row(frame: &Frame, luma: &[u8], glyphs: &[char], no_color: bool, y: u32) -> (line: String)
    requires
        render_inputs_ok(*frame, luma@),
        glyphs@.len() > 0,
        y < frame.height,
    ensures
        line@ == row_text(*frame, luma@, glyphs@, no_color, y as int),
{
    let w = frame.width as usize;
    let n = glyphs.len();
    let ghost f = *frame;
    let len = frame.pixels.len();
    let mut line = String::new();
    let mut x: usize = 0;
    while x < w
        invariant
            f == *frame,
            len == frame.pixels@.len(),
            render_inputs_ok(f, luma@),
            w == frame.width,
            n == glyphs@.len(),
            n > 0,
            y < frame.height,
            x <= w,
            line@ == row_prefix(f, luma@, glyphs@, no_color, y as int, x as int),
        decreases w - x,
    {
        proof {
            lemma_cell_in_bounds(x as int, y as int, w as int, frame.height as int);
        }
        let i = (y as usize) * w + x;
        let p = 3 * i;
        let r = frame.pixels[p];
        let g = frame.pixels[p + 1];
        let b = frame.pixels[p + 2];
        let ghost before = line@;
        if !no_color {
            let changed = if x == 0 {
                true
            } else {
                frame.pixels[p - 3] != r || frame.pixels[p - 2] != g || frame.pixels[p - 1] != b
            };
            assert(changed == (x == 0 || f.pixel(x as int, y as int) != f.pixel(x - 1, y as int)))
                by {
                if x > 0 {
                    assert(3 * ((y as int) * w + (x - 1)) == p - 3) by (nonlinear_arith)
                        requires
                            p == 3 * i,
                            i == (y as int) * w + x,
                    ;
                }
            }
            if changed {
                push_color_escape(&mut line, r, g, b);
            }
        }
        let k = glyph_position(luma[i], n);
        line.push(glyphs[k]);
        assert(line@ =~= before + cell_text(f, luma@, glyphs@, no_color, x as int, y as int));
        x = x + 1;
    }
    if !no_color {
        line.append("\x1b[0m");
    }
    assert(line@ =~= row_text(f, luma@, glyphs@, no_color, y as int));
    line
}

/// The lines joined with a newline between each two.
pub fn join_lines(lines: &Vec<String>) -> (out: String)
    ensures
        out@ == join_lines_spec(lines.deep_view()),
{
    let mut out = String::new();
    let mut i: usize = 0;
    let ghost l = lines.deep_view();
    assert(l.take(0) =~= Seq::<Seq<char>>::empty());
    while i < lines.len()
        invariant
            l == lines.deep_view(),
            i <= l.len(),
            out@ == join_lines_spec(l.take(i as int)),
        decreases l.len() - i,
    {
        if i > 0 {
            out.push('\n');
        }
        out.append(lines[i].as_str());
        assert(l.take(i + 1).drop_last() =~= l.take(i as int));
        assert(l.take(i + 1).last() == lines@[i as int]@);
        i = i + 1;
        assert(out@ =~= join_lines_spec(l.take(i as int)));
    }
    assert(l.take(l.len() as int) =~= l);
    out
}

/// The picture as text (see [`spec_ascii`]), with the glyphs of
/// `config.charset`, inverted where `config.invert` is set, and in colour
/// unless `config.no_color` is set.
///
/// `luma` holds the brightness (0 to 255) of each pixel, row after row: the
/// weighted sum 0.299 red + 0.587 green + 0.114 blue, rounded down, which
/// the caller computes in single-precision floating point.
pub fn to_ascii(frame: &Frame, luma: &[u8], config: &Config) -> (out: String)
    requires
        render_inputs_ok(*frame, luma@),
    ensures
        out@ == spec_ascii(*frame, luma@, spec_glyphs(config.charset, config.invert), config.no_color),
{
    let glyphs = glyph_table(config.charset, config.invert);
    let ghost f = *frame;
    let ghost rows = rows_text(f, luma@, glyphs@, config.no_color);
    if glyphs.len() == 0 || frame.width == 0 || frame.height == 0 {
        return String::new();
    }
    let h = frame.height;
    let mut out = String::new();
    let mut y: u32 = 0;
    assert(rows.take(0) =~= Seq::<Seq<char>>::empty());
    while y < h
        invariant
            f == *frame,
            render_inputs_ok(f, luma@),
            h == frame.height,
            glyphs@.len() > 0,
            rows == rows_text(f, luma@, glyphs@, config.no_color),
            y <= h,
            out@ == join_lines_spec(rows.take(y as int)),
        decreases h - y,
    {
        if y > 0 {
            out.push('\n');
        }
        let line = render_row(frame, luma, glyphs.as_slice(), config.no_color, y);
        out.append(line.as_str());
        assert(rows.take(y + 1).drop_last() =~= rows.take(y as int));
        assert(rows.take(y + 1).last() == line@);
        y = y + 1;
        assert(out@ =~= join_lines_spec(rows.take(y as int)));
    }
    assert(rows.take(h as int) =~= rows);
    out
}

proof fn lemma_plain_row_prefix(f: Frame, luma: Seq<u8>, glyphs: Seq<char>, y: int, k: int)
    requires
        0 <= k,
    ensures
        row_prefix(f, luma, glyphs, true, y, k).len() == k,
        forall|j: int|
            0 <= j < k ==> #[trigger] row_prefix(f, luma, glyphs, true, y, k)[j] == glyphs[glyph_index(
                luma[y * f.width + j],
                glyphs.len(),
            )],
    decreases k,
{
    if k > 0 {
        lemma_plain_row_prefix(f, luma, glyphs, y, k - 1);
        let p = row_prefix(f, luma, glyphs, true, y, k - 1);
        let c = cell_text(f, luma, glyphs, true, k - 1, y);
        assert(c =~= seq![glyphs[glyph_index(luma[y * f.width + (k - 1)], glyphs.len())]]);
        assert forall|j: int| 0 <= j < k implies #[trigger] row_prefix(
            f,
            luma,
            glyphs,
            true,
            y,
            k,
        )[j] == glyphs[glyph_index(luma[y * f.width + j], glyphs.len())] by {
            if j < k - 1 {
                assert(row_prefix(f, luma, glyphs, true, y, k)[j] == p[j]);
            }
        }
    }
}

/// Without colour, row `y` is exactly one glyph per pixel: the glyph of
/// each pixel's brightness, in order, and nothing else.
pub proof fn lemma_plain_row(f: Frame, luma: Seq<u8>, glyphs: Seq<char>, y: int)
    ensures
        row_text(f, luma, glyphs, true, y).len() == f.width,
        forall|x: int|
            0 <= x < f.width ==> #[trigger] row_text(f, luma, glyphs, true, y)[x] == glyphs[glyph_index(
                luma[y * f.width + x],
                glyphs.len(),
            )],
{
    lemma_plain_row_prefix(f, luma, glyphs, y, f.width as int);
    assert(row_text(f, luma, glyphs, true, y) =~= row_prefix(f, luma, glyphs, true, y, f.width as int));
}

proof fn lemma_join_equal_lines(lines: Seq<Seq<char>>, w: nat)
    requires
        lines.len() >= 1,
        forall|i: int| 0 <= i < lines.len() ==> (#[trigger] lines[i]).len() == w,
    ensures
        join_lines_spec(lines).len() == lines.len() * (w + 1) - 1,
    decreases lines.len(),
{
    if lines.len() > 1 {
        lemma_join_equal_lines(lines.drop_last(), w);
        assert(lines.len() * (w + 1) - 1 == (lines.len() - 1) * (w + 1) - 1 + 1 + w) by (nonlinear_arith);
    }
}

/// Without colour, the text of a `width` x `height` picture has
/// `height` lines of `width` glyphs, with a newline between each two.
pub proof fn lemma_plain_text_size(f: Frame, luma: Seq<u8>, glyphs: Seq<char>)
    requires
        glyphs.len() > 0,
        f.width > 0,
        f.height > 0,
    ensures
        spec_ascii(f, luma, glyphs, true).len() == f.height * (f.width + 1) - 1,
{
    let rows = rows_text(f, luma, glyphs, true);
    assert forall|i: int| 0 <= i < rows.len() implies (#[trigger] rows[i]).len() == f.width by {
        lemma_plain_row(f, luma, glyphs, i);
    }
    lemma_join_equal_lines(rows, f.width as nat);
}

/// `--invert` reverses the glyphs: the brightest level gets the darkest
/// glyph and the other way round.
pub proof fn lemma_invert_mirrors(charset: CharSet, i: int)
    requires
        0 <= i < charset_glyphs(charset).len(),
    ensures
        spec_glyphs(charset, true).len() == spec_glyphs(charset, false).len(),
        spec_glyphs(charset, true)[i] == spec_glyphs(charset, false)[spec_glyphs(charset, false).len() - 1 - i],
{
}

/// In colour, a row ends with the colour reset, so no colour leaks into the
/// next line or the prompt.
pub proof fn lemma_color_row_resets(f: Frame, luma: Seq<u8>, glyphs: Seq<char>, y: int)
    ensures
        crate::text::ends_with(row_text(f, luma, glyphs, false, y), reset_seq()),
{
    let t = row_text(f, luma, glyphs, false, y);
    assert(t.subrange(t.len() - reset_seq().len(), t.len() as int) =~= reset_seq());
}

proof fn lemma_join_chars(lines: Seq<Seq<char>>, allowed: Seq<char>)
    requires
        forall|i: int, j: int|
            0 <= i < lines.len() && 0 <= j < lines[i].len() ==> allowed.contains(#[trigger] lines[i][j]),
    ensures
        forall|k: int|
            0 <= k < join_lines_spec(lines).len() ==> #[trigger] join_lines_spec(lines)[k] == '\n'
                || allowed.contains(join_lines_spec(lines)[k]),
    decreases lines.len(),
{
    if lines.len() > 1 {
        let init = lines.drop_last();
        assert forall|i: int, j: int|
            0 <= i < init.len() && 0 <= j < init[i].len() implies allowed.contains(#[trigger] init[i][j]) by {
            assert(init[i] == lines[i]);
        }
        lemma_join_chars(init, allowed);
        let a = join_lines_spec(init);
        let t = join_lines_spec(lines);
        assert forall|k: int| 0 <= k < t.len() implies #[trigger] t[k] == '\n' || allowed.contains(t[k]) by {
            if k < a.len() {
                assert(t[k] == a[k]);
            } else if k > a.len() {
                assert(t[k] == lines.last()[k - a.len() - 1]);
                assert(lines.last() == lines[lines.len() - 1]);
            }
        }
    } else if lines.len() == 1 {
        assert forall|k: int| 0 <= k < join_lines_spec(lines).len() implies #[trigger] join_lines_spec(
            lines,
        )[k] == '\n' || allowed.contains(join_lines_spec(lines)[k]) by {
            assert(join_lines_spec(lines)[k] == lines[0][k]);
        }
    }
}

/// Without colour the text holds nothing but glyphs and newlines: no escape
/// sequence is written.
pub proof fn lemma_plain_text_chars(f: Frame, luma: Seq<u8>, glyphs: Seq<char>)
    ensures
        forall|k: int|
            0 <= k < spec_ascii(f, luma, glyphs, true).len() ==> #[trigger] spec_ascii(f, luma, glyphs, true)[k]
                == '\n' || glyphs.contains(spec_ascii(f, luma, glyphs, true)[k]),
{
    if glyphs.len() > 0 && f.width > 0 && f.height > 0 {
        let rows = rows_text(f, luma, glyphs, true);
        assert forall|i: int, j: int| 0 <= i < rows.len() && 0 <= j < rows[i].len() implies glyphs.contains(
            #[trigger] rows[i][j],
        ) by {
            lemma_plain_row(f, luma, glyphs, i);
            let g = glyph_index(luma[i * f.width + j], glyphs.len());
            assert(0 <= g < glyphs.len()) by {
                assert(luma[i * f.width + j] * (glyphs.len() - 1) / 255 >= 0) by (nonlinear_arith)
                    requires
                        glyphs.len() >= 1,
                ;
            }
            assert(rows[i][j] == glyphs[g]);
        }
        lemma_join_chars(rows, glyphs);
    }
}

/// No glyph of any character set, inverted or not, is the escape
/// character.
pub proof fn lemma_glyphs_no_escape(charset: CharSet, invert: bool)
    ensures
        !spec_glyphs(charset, invert).contains('\x1b'),
{
    let g = spec_glyphs(charset, invert);
    lemma_charset_glyphs(charset);
    if invert {
        let c = charset_glyphs(charset);
        if g.contains('\x1b') {
            let i = choose|i: int| 0 <= i < g.len() && g[i] == '\x1b';
            assert(c[c.len() - 1 - i] == '\x1b');
        }
    }
}

/// `--no-color` turns colour off: the text then holds no escape character
/// at all, whatever the picture, character set or inversion.
pub proof fn lemma_no_color_has_no_escape(f: Frame, luma: Seq<u8>, charset: CharSet, invert: bool)
    ensures
        !spec_ascii(f, luma, spec_glyphs(charset, invert), true).contains('\x1b'),
{
    let g = spec_glyphs(charset, invert);
    let t = spec_ascii(f, luma, g, true);
    lemma_glyphs_no_escape(charset, invert);
    lemma_plain_text_chars(f, luma, g);
    if t.contains('\x1b') {
        let k = choose|k: int| 0 <= k < t.len() && t[k] == '\x1b';
        assert(t[k] == '\n' || g.contains(t[k]));
    }
}

/// The first column of the run of equally coloured pixels that column `x`
/// of row `y` belongs to.
pub open spec fn run_start(f: Frame, x: int, y: int) -> int
    decreases x,
{
    if x <= 0 || f.pixel(x, y) != f.pixel(x - 1, y) {
        x
    } else {
        run_start(f, x - 1, y)
    }
}

/// In colour, every glyph is drawn in its own pixel's colour: the last
/// escape written before it, at the start of its run of equally coloured
/// pixels, sets that colour, and no escape is written between that one and
/// the glyph.
pub proof fn lemma_glyph_in_own_colour(f: Frame, luma: Seq<u8>, glyphs: Seq<char>, x: int, y: int)
    requires
        0 <= x,
    ensures
        0 <= run_start(f, x, y) <= x,
        run_start(f, x, y) == 0 || f.pixel(run_start(f, x, y), y) != f.pixel(run_start(f, x, y) - 1, y),
        f.pixel(run_start(f, x, y), y) == f.pixel(x, y),
        cell_text(f, luma, glyphs, false, run_start(f, x, y), y).take(color_escape(f.pixel(x, y)).len() as int)
            == color_escape(f.pixel(x, y)),
        forall|k: int|
            run_start(f, x, y) < k <= x ==> (#[trigger] cell_text(f, luma, glyphs, false, k, y)).len() == 1,
    decreases x,
{
    let j = run_start(f, x, y);
    if x > 0 && f.pixel(x, y) == f.pixel(x - 1, y) {
        lemma_glyph_in_own_colour(f, luma, glyphs, x - 1, y);
    }
    let e = color_escape(f.pixel(x, y));
    let c = cell_text(f, luma, glyphs, false, j, y);
    assert(c =~= e + seq![glyphs[glyph_index(luma[y * f.width + j], glyphs.len())]]);
    assert(c.take(e.len() as int) =~= e);
}

proof fn lemma_join_pairs(l1: Seq<Seq<char>>, l2: Seq<Seq<char>>, p: spec_fn(char, char) -> bool)
    requires
        l1.len() == l2.len(),
        forall|i: int| 0 <= i < l1.len() ==> (#[trigger] l1[i]).len() == l2[i].len(),
        forall|i: int, j: int|
            0 <= i < l1.len() && 0 <= j < l1[i].len() ==> p(#[trigger] l1[i][j], l2[i][j]),
    ensures
        join_lines_spec(l1).len() == join_lines_spec(l2).len(),
        forall|k: int|
            0 <= k < join_lines_spec(l1).len() ==> (#[trigger] join_lines_spec(l1)[k] == '\n'
                && join_lines_spec(l2)[k] == '\n') || p(join_lines_spec(l1)[k], join_lines_spec(l2)[k]),
    decreases l1.len(),
{
    if l1.len() == 1 {
        assert forall|k: int| 0 <= k < join_lines_spec(l1).len() implies (#[trigger] join_lines_spec(
            l1,
        )[k] == '\n' && join_lines_spec(l2)[k] == '\n') || p(join_lines_spec(l1)[k], join_lines_spec(l2)[k]) by {
            assert(p(l1[0][k], l2[0][k]));
        }
    } else if l1.len() > 1 {
        let i1 = l1.drop_last();
        let i2 = l2.drop_last();
        assert forall|i: int| 0 <= i < i1.len() implies (#[trigger] i1[i]).len() == i2[i].len() by {
            assert(i1[i] == l1[i] && i2[i] == l2[i]);
        }
        assert forall|i: int, j: int| 0 <= i < i1.len() && 0 <= j < i1[i].len() implies p(
            #[trigger] i1[i][j],
            i2[i][j],
        ) by {
            assert(i1[i] == l1[i] && i2[i] == l2[i]);
        }
        lemma_join_pairs(i1, i2, p);
        let a1 = join_lines_spec(i1);
        let a2 = join_lines_spec(i2);
        let t1 = join_lines_spec(l1);
        let t2 = join_lines_spec(l2);
        let n = l1.len() - 1;
        assert(l1.last() == l1[n] && l2.last() == l2[n]);
        assert forall|k: int| 0 <= k < t1.len() implies (#[trigger] t1[k] == '\n' && t2[k] == '\n') || p(
            t1[k],
            t2[k],
        ) by {
            if k < a1.len() {
                assert(t1[k] == a1[k] && t2[k] == a2[k]);
            } else if k > a1.len() {
                assert(t1[k] == l1[n][k - a1.len() - 1]);
                assert(t2[k] == l2[n][k - a1.len() - 1]);
                assert(p(l1[n][k - a1.len() - 1], l2[n][k - a1.len() - 1]));
            }
        }
    }
}

/// `a` is the `k`-th glyph of `g` and `b` the `k`-th from the other end.
pub open spec fn mirrored_glyphs(g: Seq<char>, a: char, b: char) -> bool {
    exists|k: int| 0 <= k < g.len() && a == #[trigger] g[k] && b == g[g.len() - 1 - k]
}

/// `--invert` mirrors the brightness ramp in the text: without colour, the
/// inverted text has the same length and its newlines in the same places,
/// and wherever the other has the `k`-th glyph it has the `k`-th from the
/// other end.
pub proof fn lemma_invert_mirrors_text(f: Frame, luma: Seq<u8>, charset: CharSet)
    ensures
        ({
            let g = charset_glyphs(charset);
            let t = spec_ascii(f, luma, spec_glyphs(charset, false), true);
            let u = spec_ascii(f, luma, spec_glyphs(charset, true), true);
            &&& t.len() == u.len()
            &&& forall|i: int|
                0 <= i < t.len() ==> (#[trigger] t[i] == '\n' && u[i] == '\n') || mirrored_glyphs(
                    g,
                    t[i],
                    u[i],
                )
        }),
{
    let g = charset_glyphs(charset);
    let r = spec_glyphs(charset, true);
    lemma_charset_glyphs(charset);
    assert(r.len() == g.len());
    if f.width > 0 && f.height > 0 {
        let p = |a: char, b: char| mirrored_glyphs(g, a, b);
        let l1 = rows_text(f, luma, g, true);
        let l2 = rows_text(f, luma, r, true);
        assert forall|i: int| 0 <= i < l1.len() implies (#[trigger] l1[i]).len() == l2[i].len() by {
            lemma_plain_row(f, luma, g, i);
            lemma_plain_row(f, luma, r, i);
        }
        assert forall|i: int, j: int| 0 <= i < l1.len() && 0 <= j < l1[i].len() implies p(
            #[trigger] l1[i][j],
            l2[i][j],
        ) by {
            lemma_plain_row(f, luma, g, i);
            lemma_plain_row(f, luma, r, i);
            let k = glyph_index(luma[i * f.width + j], g.len());
            assert(0 <= k < g.len()) by {
                assert(luma[i * f.width + j] * (g.len() - 1) / 255 >= 0) by (nonlinear_arith)
                    requires
                        g.len() >= 1,
                ;
            }
            assert(l1[i][j] == g[k]);
            assert(l2[i][j] == r[k]);
            assert(r[k] == g[g.len() - 1 - k]);
        }
        lemma_join_pairs(l1, l2, p);
    }
}

/// `s` with its escape sequences removed, reading from inside one
/// (`inside`) or not: an escape character starts a sequence, which runs up
/// to and including the next `m` (the end of every colour code).
pub open spec fn strip_codes_from(s: Seq<char>, inside: bool) -> Seq<char>
    decreases s.len(),
{
    if s.len() == 0 {
        Seq::empty()
    } else if inside {
        strip_codes_from(s.drop_first(), s[0] != 'm')
    } else if s[0] == '\x1b' {
        strip_codes_from(s.drop_first(), true)
    } else {
        seq![s[0]] + strip_codes_from(s.drop_first(), false)
    }
}

/// Whether reading `s` from state `inside` ends inside an escape sequence.
pub open spec fn ends_inside_code(s: Seq<char>, inside: bool) -> bool
    decreases s.len(),
{
    if s.len() == 0 {
        inside
    } else if inside {
        ends_inside_code(s.drop_first(), s[0] != 'm')
    } else {
        ends_inside_code(s.drop_first(), s[0] == '\x1b')
    }
}

/// `s` with its colour codes removed.
pub open spec fn strip_codes(s: Seq<char>) -> Seq<char> {
    strip_codes_from(s, false)
}

proof fn lemma_strip_concat(a: Seq<char>, b: Seq<char>, inside: bool)
    ensures
        strip_codes_from(a + b, inside) == strip_codes_from(a, inside) + strip_codes_from(
            b,
            ends_inside_code(a, inside),
        ),
        ends_inside_code(a + b, inside) == ends_inside_code(b, ends_inside_code(a, inside)),
    decreases a.len(),
{
    if a.len() == 0 {
        assert(a + b =~= b);
    } else {
        assert((a + b).drop_first() =~= a.drop_first() + b);
        assert((a + b)[0] == a[0]);
        let next = if inside {
            a[0] != 'm'
        } else {
            a[0] == '\x1b'
        };
        lemma_strip_concat(a.drop_first(), b, next);
        if !inside && a[0] != '\x1b' {
            assert(seq![a[0]] + strip_codes_from(a.drop_first(), false) + strip_codes_from(
                b,
                ends_inside_code(a, inside),
            ) =~= seq![a[0]] + (strip_codes_from(a.drop_first(), false) + strip_codes_from(
                b,
                ends_inside_code(a, inside),
            )));
        }
    }
}

/// Text inside a code whose only `m` is its last character is removed
/// whole, and reading ends outside any code.
proof fn lemma_strip_code_tail(s: Seq<char>)
    requires
        s.len() >= 1,
        s.last() == 'm',
        forall|i: int| 0 <= i < s.len() - 1 ==> s[i] != 'm',
    ensures
        strip_codes_from(s, true) == Seq::<char>::empty(),
        !ends_inside_code(s, true),
    decreases s.len(),
{
    let t = s.drop_first();
    if s.len() == 1 {
        assert(s[0] == 'm');
        assert(t.len() == 0);
        assert(strip_codes_from(t, false) == Seq::<char>::empty());
        assert(!ends_inside_code(t, false));
        assert(strip_codes_from(s, true) == strip_codes_from(t, false));
        assert(ends_inside_code(s, true) == ends_inside_code(t, false));
    } else {
        assert(s[0] != 'm');
        assert(strip_codes_from(s, true) == strip_codes_from(t, true));
        assert(ends_inside_code(s, true) == ends_inside_code(t, true));
        assert(t.last() == s.last());
        assert forall|i: int| 0 <= i < t.len() - 1 implies t[i] != 'm' by {
            assert(t[i] == s[i + 1]);
        }
        lemma_strip_code_tail(t);
    }
}

proof fn lemma_strip_plain_char(c: char)
    requires
        c != '\x1b',
    ensures
        strip_codes_from(seq![c], false) == seq![c],
        !ends_inside_code(seq![c], false),
{
    let s = seq![c];
    assert(s[0] == c);
    assert(s.drop_first().len() == 0);
    assert(strip_codes_from(s.drop_first(), false) =~= Seq::<char>::empty());
    assert(!ends_inside_code(s.drop_first(), false));
    assert(ends_inside_code(s, false) == ends_inside_code(s.drop_first(), false));
    assert(strip_codes_from(s, false) =~= seq![c]);
}

proof fn lemma_decimal_digits(n: nat)
    ensures
        forall|i: int| 0 <= i < decimal(n).len() ==> '0' <= #[trigger] decimal(n)[i] <= '9',
    decreases n,
{
    if n >= 10 {
        lemma_decimal_digits(n / 10);
        let d = decimal(n);
        assert forall|i: int| 0 <= i < d.len() implies '0' <= #[trigger] d[i] <= '9' by {
            if i < d.len() - 1 {
                assert(d[i] == decimal(n / 10)[i]);
            } else {
                assert(d[i] == digit_char(n % 10));
            }
        }
    } else {
        assert(decimal(n)[0] == digit_char(n));
    }
}

/// A colour escape, and the colour reset, are removed whole and leave the
/// reading outside any code.
proof fn lemma_strip_code(e: Seq<char>)
    requires
        e.len() >= 2,
        e[0] == '\x1b',
        e.last() == 'm',
        forall|i: int| 0 < i < e.len() - 1 ==> e[i] != 'm',
    ensures
        strip_codes_from(e, false) == Seq::<char>::empty(),
        !ends_inside_code(e, false),
{
    let t = e.drop_first();
    assert(t.last() == e.last());
    assert forall|i: int| 0 <= i < t.len() - 1 implies t[i] != 'm' by {
        assert(t[i] == e[i + 1]);
    }
    lemma_strip_code_tail(t);
}

proof fn lemma_strip_color_escape(c: (u8, u8, u8))
    ensures
        strip_codes_from(color_escape(c), false) == Seq::<char>::empty(),
        !ends_inside_code(color_escape(c), false),
{
    reveal_strlit("\x1b[38;2;");
    let p = "\x1b[38;2;"@;
    let d0 = decimal(c.0 as nat);
    let d1 = decimal(c.1 as nat);
    let d2 = decimal(c.2 as nat);
    lemma_decimal_digits(c.0 as nat);
    lemma_decimal_digits(c.1 as nat);
    lemma_decimal_digits(c.2 as nat);
    let e = color_escape(c);
    assert(e =~= p + d0 + seq![';'] + d1 + seq![';'] + d2 + seq!['m']);
    assert forall|i: int| 0 < i < e.len() - 1 implies e[i] != 'm' by {
        let a = p.len() as int;
        let b = a + d0.len();
        let c1 = b + 1 + d1.len();
        let c2 = c1 + 1 + d2.len();
        if i < a {
            assert(e[i] == p[i]);
        } else if i < b {
            assert(e[i] == d0[i - a]);
        } else if i == b {
            assert(e[i] == ';');
        } else if i < c1 {
            assert(e[i] == d1[i - b - 1]);
        } else if i == c1 {
            assert(e[i] == ';');
        } else {
            assert(e[i] == d2[i - c1 - 1]);
        }
    }
    lemma_strip_code(e);
}

proof fn lemma_strip_reset()
    ensures
        strip_codes_from(reset_seq(), false) == Seq::<char>::empty(),
        !ends_inside_code(reset_seq(), false),
{
    reveal_strlit("\x1b[0m");
    lemma_strip_code(reset_seq());
}

proof fn lemma_strip_row_prefix(f: Frame, luma: Seq<u8>, glyphs: Seq<char>, y: int, k: int)
    requires
        0 <= k <= f.width,
        glyphs.len() > 0,
        !glyphs.contains('\x1b'),
    ensures
        strip_codes_from(row_prefix(f, luma, glyphs, false, y, k), false) == row_prefix(
            f,
            luma,
            glyphs,
            true,
            y,
            k,
        ),
        !ends_inside_code(row_prefix(f, luma, glyphs, false, y, k), false),
    decreases k,
{
    if k > 0 {
        lemma_strip_row_prefix(f, luma, glyphs, y, k - 1);
        let prev = row_prefix(f, luma, glyphs, false, y, k - 1);
        let cell = cell_text(f, luma, glyphs, false, k - 1, y);
        let gi = glyph_index(luma[y * f.width + (k - 1)], glyphs.len());
        assert(0 <= gi < glyphs.len()) by {
            assert(luma[y * f.width + (k - 1)] * (glyphs.len() - 1) / 255 >= 0) by (nonlinear_arith)
                requires
                    glyphs.len() >= 1,
            ;
        }
        let g = glyphs[gi];
        assert(g != '\x1b');
        let esc = if k - 1 == 0 || f.pixel(k - 1, y) != f.pixel(k - 2, y) {
            color_escape(f.pixel(k - 1, y))
        } else {
            Seq::empty()
        };
        assert(cell == esc + seq![g]);
        if esc.len() > 0 {
            lemma_strip_color_escape(f.pixel(k - 1, y));
        }
        lemma_strip_concat(esc, seq![g], false);
        lemma_strip_plain_char(g);
        lemma_strip_concat(prev, cell, false);
        assert(row_prefix(f, luma, glyphs, true, y, k) == row_prefix(f, luma, glyphs, true, y, k - 1)
            + cell_text(f, luma, glyphs, true, k - 1, y));
        assert(cell_text(f, luma, glyphs, true, k - 1, y) =~= seq![g]);
        assert(strip_codes_from(esc, false) + strip_codes_from(seq![g], false) =~= seq![g]);
    }
}

proof fn lemma_strip_join(l1: Seq<Seq<char>>, l2: Seq<Seq<char>>)
    requires
        l1.len() == l2.len(),
        forall|i: int|
            0 <= i < l1.len() ==> strip_codes_from(#[trigger] l1[i], false) == l2[i] && !ends_inside_code(
                l1[i],
                false,
            ),
    ensures
        strip_codes_from(join_lines_spec(l1), false) == join_lines_spec(l2),
        !ends_inside_code(join_lines_spec(l1), false),
    decreases l1.len(),
{
    if l1.len() == 1 {
        assert(strip_codes_from(l1[0], false) == l2[0]);
    } else if l1.len() > 1 {
        let i1 = l1.drop_last();
        let i2 = l2.drop_last();
        assert forall|i: int| 0 <= i < i1.len() implies strip_codes_from(#[trigger] i1[i], false) == i2[i]
            && !ends_inside_code(i1[i], false) by {
            assert(i1[i] == l1[i] && i2[i] == l2[i]);
        }
        lemma_strip_join(i1, i2);
        let a = join_lines_spec(i1);
        let n = l1.len() - 1;
        assert(l1.last() == l1[n] && l2.last() == l2[n]);
        assert(strip_codes_from(l1[n], false) == l2[n]);
        lemma_strip_concat(a, seq!['\n'], false);
        lemma_strip_plain_char('\n');
        lemma_strip_concat(a + seq!['\n'], l1[n], false);
    }
}

/// Removing the colour codes from the coloured text gives the text without
/// colour: colour only adds escape sequences, and leaves no code open at
/// the end.
pub proof fn lemma_stripping_colour_gives_plain(f: Frame, luma: Seq<u8>, glyphs: Seq<char>)
    requires
        !glyphs.contains('\x1b'),
    ensures
        strip_codes(spec_ascii(f, luma, glyphs, false)) == spec_ascii(f, luma, glyphs, true),
        !ends_inside_code(spec_ascii(f, luma, glyphs, false), false),
{
    if glyphs.len() > 0 && f.width > 0 && f.height > 0 {
        let l1 = rows_text(f, luma, glyphs, false);
        let l2 = rows_text(f, luma, glyphs, true);
        assert forall|i: int| 0 <= i < l1.len() implies strip_codes_from(#[trigger] l1[i], false) == l2[i]
            && !ends_inside_code(l1[i], false) by {
            let p = row_prefix(f, luma, glyphs, false, i, f.width as int);
            lemma_strip_row_prefix(f, luma, glyphs, i, f.width as int);
            lemma_strip_reset();
            lemma_strip_concat(p, reset_seq(), false);
            assert(l2[i] =~= row_prefix(f, luma, glyphs, true, i, f.width as int));
        }
        lemma_strip_join(l1, l2);
    }
}

/// With any character set, inverted or not, removing the colour codes from
/// the coloured text gives the text that `--no-color` writes.
pub proof fn lemma_no_color_is_colour_stripped(f: Frame, luma: Seq<u8>, charset: CharSet, invert: bool)
    ensures
        strip_codes(spec_ascii(f, luma, spec_glyphs(charset, invert), false)) == spec_ascii(
            f,
            luma,
            spec_glyphs(charset, invert),
            true,
        ),
{
    lemma_glyphs_no_escape(charset, invert);
    lemma_stripping_colour_gives_plain(f, luma, spec_glyphs(charset, invert));
}

} // verus!
