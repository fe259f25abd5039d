//! The viewer's settings, character sets, terminal state and stream facts.
use vstd::prelude::*;

verus! {

/// The characters a picture is drawn with, from dark to bright.
#[derive(Clone, Copy, Debug, PartialEq, Eq, Structural)]
pub enum CharSet {
    /// Sixty-nine levels of ASCII.
    Detailed,
    /// Ten levels of ASCII.
    Simple,
    /// A space and the four block shades.
    Blocks,
}

/// The glyphs of each character set, darkest first.
pub open spec fn charset_glyphs(c: CharSet) -> Seq<char> {
    match c {
        CharSet::Detailed => " .'`^\",:;Il!i><~+_-?][}{1)(|/tfjrxnuvczXYUJCLQ0OZmwqpdbkhao*#MW&8%B@$"@,
        CharSet::Simple => " .:-=+*#%@"@,
        CharSet::Blocks => " \u{2591}\u{2592}\u{2593}\u{2588}"@,
    }
}

impl CharSet {
    /// The glyphs of this character set, darkest first.
    pub fn chars(&self) -> (r: &'static str)
        ensures
            r@ == charset_glyphs(*self),
    {
        match self {
            CharSet::Detailed => " .'`^\",:;Il!i><~+_-?][}{1)(|/tfjrxnuvczXYUJCLQ0OZmwqpdbkhao*#MW&8%B@$",
            CharSet::Simple => " .:-=+*#%@",
            CharSet::Blocks => " \u{2591}\u{2592}\u{2593}\u{2588}",
        }
    }
}

/// What the command line asks for.
///
/// The three numbers that are given as decimal fractions (`--fps`,
/// `--brightness`, `--contrast`) are kept as the text that followed the flag;
/// reading them as floating-point numbers is left to the caller, which uses
/// 0 frames per second (the stream's own rate), brightness 1 and contrast 1
/// where the text is absent or not a number.
#[derive(Debug)]
pub struct Config {
    /// The file to show.
    pub path: String,
    /// `--fit-height`: use every row of the terminal.
    pub by_height: bool,
    /// `--stretch`: fill the terminal, ignoring proportions.
    pub stretch: bool,
    /// `--no-color`: plain characters, no colour escapes.
    pub no_color: bool,
    /// `--invert`: bright pixels get the darkest glyphs.
    pub invert: bool,
    /// `--loop`: start again at the end.
    pub loop_playback: bool,
    /// `--simple` or `--blocks`, else the detailed set.
    pub charset: CharSet,
    /// The text after `--fps`.
    pub fps: Option<String>,
    /// `--width <n>`: the columns to use in place of the terminal's.
    pub width: Option<u32>,
    /// `--height <n>`: the rows to use in place of the terminal's.
    pub height: Option<u32>,
    /// `--no-audio`: play videos without sound.
    pub no_audio: bool,
    /// The text after `--brightness`.
    pub brightness: Option<String>,
    /// The text after `--contrast`.
    pub contrast: Option<String>,
}

/// The frame rate of a video stream as `ffprobe` writes it: a ratio
/// `num/den`, or a single number. The texts are read as floating-point
/// numbers by the caller.
#[derive(Debug)]
pub enum FrameRate {
    /// The rate field held exactly one `/`: the texts before and after it.
    Ratio(String, String),
    /// Any other rate field, whole.
    Single(String),
}

/// The size and frame rate of a video stream.
#[derive(Debug)]
pub struct VideoInfo {
    pub width: u32,
    pub height: u32,
    pub fps: FrameRate,
}

/// The state of the terminal that the viewer changes and must put back.
#[derive(Clone, Copy, Debug, PartialEq, Eq, Structural)]
pub struct Terminal {
    /// The cursor is hidden.
    pub cursor_hidden: bool,
    /// The alternate screen is in use.
    pub alternate_screen: bool,
}

/// Switches to the alternate screen.
pub open spec fn enter_alternate_seq() -> Seq<char> {
    "\x1b[?1049h"@
}

/// Switches back from the alternate screen.
pub open spec fn leave_alternate_seq() -> Seq<char> {
    "\x1b[?1049l"@
}

/// Hides the cursor.
pub open spec fn hide_cursor_seq() -> Seq<char> {
    "\x1b[?25l"@
}

/// Shows the cursor.
pub open spec fn show_cursor_seq() -> Seq<char> {
    "\x1b[?25h"@
}

/// Clears the screen and moves the cursor to the top left.
pub open spec fn clear_seq() -> Seq<char> {
    "\x1b[2J\x1b[H"@
}

/// Moves the cursor to the top left.
pub open spec fn home_seq() -> Seq<char> {
    "\x1b[H"@
}

/// Resets colours to the terminal's defaults.
pub open spec fn reset_seq() -> Seq<char> {
    "\x1b[0m"@
}

/// The text of `out`, empty where nothing is written.
pub open spec fn written(out: Option<&'static str>) -> Seq<char> {
    match out {
        Some(s) => s@,
        None => Seq::empty(),
    }
}

impl Terminal {
    /// The terminal as it is found: main screen, cursor shown.
    pub open spec fn initial() -> Terminal {
        Terminal { cursor_hidden: false, alternate_screen: false }
    }

    /// The state after asking for the alternate screen (`on`) or the main one.
    pub open spec fn spec_with_screen(self, on: bool) -> Terminal {
        Terminal { alternate_screen: on, ..self }
    }

    /// The state after asking for the cursor to be hidden (`hidden`) or shown.
    pub open spec fn spec_with_cursor(self, hidden: bool) -> Terminal {
        Terminal { cursor_hidden: hidden, ..self }
    }

    /// What asking for the alternate screen writes: its sequence, unless it
    /// is already in use.
    pub open spec fn spec_enter_output(self) -> Seq<char> {
        if self.alternate_screen {
            Seq::empty()
        } else {
            enter_alternate_seq()
        }
    }

    /// What asking for the main screen writes.
    pub open spec fn spec_leave_output(self) -> Seq<char> {
        if self.alternate_screen {
            leave_alternate_seq()
        } else {
            Seq::empty()
        }
    }

    /// What asking to hide the cursor writes.
    pub open spec fn spec_hide_output(self) -> Seq<char> {
        if self.cursor_hidden {
            Seq::empty()
        } else {
            hide_cursor_seq()
        }
    }

    /// What asking to show the cursor writes.
    pub open spec fn spec_show_output(self) -> Seq<char> {
        if self.cursor_hidden {
            show_cursor_seq()
        } else {
            Seq::empty()
        }
    }

    /// What putting the terminal back writes: reset the colours, then show
    /// the cursor, then leave the alternate screen, each only where needed.
    pub open spec fn spec_restore_output(self) -> Seq<char> {
        reset_seq() + self.spec_show_output() + self.spec_with_cursor(false).spec_leave_output()
    }

    /// A terminal in its initial state.
    pub fn new() -> (t: Terminal)
        ensures
            t == Terminal::initial(),
    {
        Terminal { cursor_hidden: false, alternate_screen: false }
    }

    /// Switches to the alternate screen; returns what to write, or `None`
    /// where it is already in use.
    pub fn enter_alternate_screen(&mut self) -> (out: Option<&'static str>)
        ensures
            *final(self) == old(self).spec_with_screen(true),
            written(out) == old(self).spec_enter_output(),
            out is None <==> old(self).alternate_screen,
    {
        if !self.alternate_screen {
            self.alternate_screen = true;
            Some("\x1b[?1049h")
        } else {
            None
        }
    }

    /// Switches back to the main screen; returns what to write, or `None`
    /// where it is not in use.
    pub fn leave_alternate_screen(&mut self) -> (out: Option<&'static str>)
        ensures
            *final(self) == old(self).spec_with_screen(false),
            written(out) == old(self).spec_leave_output(),
            out is None <==> !old(self).alternate_screen,
    {
        if self.alternate_screen {
            self.alternate_screen = false;
            Some("\x1b[?1049l")
        } else {
            None
        }
    }

    /// Hides the cursor; returns what to write, or `None` where it is hidden.
    pub fn hide_cursor(&mut self) -> (out: Option<&'static str>)
        ensures
            *final(self) == old(self).spec_with_cursor(true),
            written(out) == old(self).spec_hide_output(),
            out is None <==> old(self).cursor_hidden,
    {
        if !self.cursor_hidden {
            self.cursor_hidden = true;
            Some("\x1b[?25l")
        } else {
            None
        }
    }

    /// Shows the cursor; returns what to write, or `None` where it is shown.
    pub fn show_cursor(&mut self) -> (out: Option<&'static str>)
        ensures
            *final(self) == old(self).spec_with_cursor(false),
            written(out) == old(self).spec_show_output(),
            out is None <==> !old(self).cursor_hidden,
    {
        if self.cursor_hidden {
            self.cursor_hidden = false;
            Some("\x1b[?25h")
        } else {
            None
        }
    }

    /// What clears the screen.
    pub fn clear(&self) -> (out: &'static str)
        ensures
            out@ == clear_seq(),
    {
        "\x1b[2J\x1b[H"
    }

    /// What moves the cursor to the top left, where the next frame is drawn.
    pub fn move_home(&self) -> (out: &'static str)
        ensures
            out@ == home_seq(),
    {
        "\x1b[H"
    }

    /// What resets the colours.
    pub fn reset_colors(&self) -> (out: &'static str)
        ensures
            out@ == reset_seq(),
    {
        "\x1b[0m"
    }

    /// Puts the terminal back as it was found and returns what to write:
    /// colours reset, cursor shown, main screen.
    pub fn restore(&mut self) -> (out: String)
        ensures
            *final(self) == Terminal::initial(),
            out@ == old(self).spec_restore_output(),
    {
        let mut out = String::new();
        out.append(self.reset_colors());
        if let Some(s) = self.show_cursor() {
            out.append(s);
        }
        if let Some(s) = self.leave_alternate_screen() {
            out.append(s);
        }
        out
    }

    /// The terminal's width and height in cells, or 80 x 24 where no
    /// terminal answers.
    pub fn size(&self) -> (r: (u32, u32))
        ensures
            r == (80u32, 24u32) || (1 <= r.0 <= 65535 && 1 <= r.1 <= 65535),
    {
        size_or_default(terminal_dimensions())
    }
}

/// Calls `term_size::dimensions`, which asks stdout, then stdin, then stderr
/// for the window size. Its source gives a size only where both numbers are
/// non-zero, and reads them from the 16-bit fields of the kernel's window
/// size record; that is what this states. Which size, if any, it gives
/// depends on the terminal the process runs in, and is not stated.
#[verifier::external_body]
fn terminal_dimensions() -> (r: Option<(usize, usize)>)
    ensures
        r matches Some((w, h)) ==> 0 < w <= 65535 && 0 < h <= 65535,
{
    term_size::dimensions()
}

/// The size in cells from what the terminal reported: its columns and rows,
/// or 80 x 24 where it reported nothing.
pub fn size_or_default(dims: Option<(usize, usize)>) -> (r: (u32, u32))
    ensures
        dims matches Some((w, h)) ==> r == (w as u32, h as u32),
        dims is None ==> r == (80u32, 24u32),
{
    match dims {
        Some((w, h)) => (w as u32, h as u32),
        None => (80, 24),
    }
}

/// Asking for the alternate screen twice writes the sequence once; the
/// second request changes nothing.
pub proof fn lemma_enter_alternate_idempotent(t: Terminal)
    ensures
        t.spec_with_screen(true).spec_with_screen(true) == t.spec_with_screen(true),
        t.spec_with_screen(true).spec_enter_output() == Seq::<char>::empty(),
{
}

/// Hiding the cursor twice writes the sequence once.
pub proof fn lemma_hide_cursor_idempotent(t: Terminal)
    ensures
        t.spec_with_cursor(true).spec_with_cursor(true) == t.spec_with_cursor(true),
        t.spec_with_cursor(true).spec_hide_output() == Seq::<char>::empty(),
{
}

/// Entering the alternate screen and leaving it again gives back the state
/// one started from, writing each sequence once.
pub proof fn lemma_enter_then_leave(t: Terminal)
    requires
        !t.alternate_screen,
    ensures
        t.spec_with_screen(true).spec_with_screen(false) == t,
        t.spec_enter_output() == enter_alternate_seq(),
        t.spec_with_screen(true).spec_leave_output() == leave_alternate_seq(),
{
}

/// Hiding the cursor and showing it again gives back the state one started
/// from, writing each sequence once.
pub proof fn lemma_hide_then_show(t: Terminal)
    requires
        !t.cursor_hidden,
    ensures
        t.spec_with_cursor(true).spec_with_cursor(false) == t,
        t.spec_hide_output() == hide_cursor_seq(),
        t.spec_with_cursor(true).spec_show_output() == show_cursor_seq(),
{
}

/// Putting back a terminal that the viewer has not changed writes only the
/// colour reset.
pub proof fn lemma_restore_untouched()
    ensures
        Terminal::initial().spec_restore_output() == reset_seq(),
{
    assert(Terminal::initial().spec_restore_output() =~= reset_seq());
}

/// After the viewer has taken the alternate screen and hidden the cursor,
/// putting the terminal back writes the reset, shows the cursor and leaves
/// the alternate screen, in that order.
pub proof fn lemma_restore_after_playback()
    ensures
        Terminal::initial().spec_with_screen(true).spec_with_cursor(true).spec_restore_output()
            == reset_seq() + show_cursor_seq() + leave_alternate_seq(),
{
}

/// Every character set has glyphs (sixty-nine, ten and five), none of which
/// is the escape character or a newline.
pub proof fn lemma_charset_glyphs(c: CharSet)
    ensures
        charset_glyphs(c).len() == match c {
            CharSet::Detailed => 69int,
            CharSet::Simple => 10int,
            CharSet::Blocks => 5int,
        },
        !charset_glyphs(c).contains('\x1b'),
        !charset_glyphs(c).contains('\n'),
{
    reveal_strlit(" .'`^\",:;Il!i><~+_-?][}{1)(|/tfjrxnuvczXYUJCLQ0OZmwqpdbkhao*#MW&8%B@$");
    reveal_strlit(" .:-=+*#%@");
    reveal_strlit(" \u{2591}\u{2592}\u{2593}\u{2588}");
}

} // verus!
