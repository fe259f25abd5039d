//! Scaling a picture to the size it is drawn at.
use vstd::prelude::*;
use crate::dimensions::usable_height;
use crate::models::Config;
use crate::render::Frame;

verus! {

/// How pixels are resampled when a picture is scaled.
#[derive(Clone, Copy, Debug, PartialEq, Eq, Structural)]
pub enum Filter {
    /// Lanczos with a window of 3 (sharp; used for still pictures).
    Lanczos3,
    /// Linear (fast; used for animation frames).
    Triangle,
}

/// The name for the pixels that `image::imageops::resize` computes with the
/// linear (`Triangle`) filter from the `width` x `height` picture `pixels`
/// for the size `new_width` x `new_height`. That filter uses only basic
/// IEEE arithmetic, so its result depends on these arguments alone.
pub uninterp spec fn triangle_resized_pixels(
    pixels: Seq<u8>,
    width: u32,
    height: u32,
    new_width: u32,
    new_height: u32,
) -> Seq<u8>;

/// The bytes of a frame's picture (the buffer may hold more).
pub open spec fn picture_bytes(f: Frame) -> Seq<u8> {
    f.pixels@.subrange(0, 3 * (f.width * f.height))
}

/// The scaled picture can be held in memory: the output, and the
/// intermediate picture of four `f32` channels that the resampling builds,
/// stay within the largest allocation.
pub open spec fn scale_fits(width: u32, new_width: u32, new_height: u32) -> bool {
    &&& 3 * (new_width * new_height) <= isize::MAX
    &&& 16 * (width * new_height) <= isize::MAX
}

/// Calls `image::imageops::resize` on the frame's picture, taken as an
/// `ImageBuffer` of RGB bytes. Its source shows that the result has the new
/// size; that a picture without pixels gives one of black pixels; and that
/// asking for the picture's own size gives a copy. With the `Triangle`
/// filter the resampled values are named (`triangle_resized_pixels`). With
/// `Lanczos3` nothing more is stated: its weights come from `f32::sin`,
/// whose precision the standard library leaves unspecified, so the values
/// may differ between platforms or runs. `requires` keeps out the sizes at
/// which its allocations would panic.
#[verifier::external_body]
fn resize_rgb(frame: &Frame, new_width: u32, new_height: u32, filter: Filter) -> (r: Frame)
    requires
        frame.wf(),
        scale_fits(frame.width, new_width, new_height),
    ensures
        r.width == new_width,
        r.height == new_height,
        r.pixels@.len() == 3 * (new_width * new_height),
        filter == Filter::Triangle ==> r.pixels@ == triangle_resized_pixels(
            picture_bytes(*frame),
            frame.width,
            frame.height,
            new_width,
            new_height,
        ),
        (frame.width == 0 || frame.height == 0) ==> forall|i: int|
            0 <= i < r.pixels@.len() ==> r.pixels@[i] == 0,
        (new_width == frame.width && new_height == frame.height) ==> r.pixels@ == picture_bytes(
            *frame,
        ),
{
    let img = image::ImageBuffer::<image::Rgb<u8>, Vec<u8>>::from_raw(
        frame.width,
        frame.height,
        frame.pixels.clone(),
    ).unwrap();
    let kind = match filter {
        Filter::Lanczos3 => image::imageops::FilterType::Lanczos3,
        Filter::Triangle => image::imageops::FilterType::Triangle,
    };
    let out = image::imageops::resize(&img, new_width, new_height, kind);
    Frame { width: new_width, height: new_height, pixels: out.into_raw() }
}

impl Frame {
    /// This picture scaled to `new_width` x `new_height` pixels.
    pub fn resized(&self, new_width: u32, new_height: u32, filter: Filter) -> (r: Frame)
        requires
            self.wf(),
            scale_fits(self.width, new_width, new_height),
        ensures
            r.wf(),
            r.width == new_width,
            r.height == new_height,
            r.pixels@.len() == 3 * (new_width * new_height),
            filter == Filter::Triangle ==> r.pixels@ == triangle_resized_pixels(
                picture_bytes(*self),
                self.width,
                self.height,
                new_width,
                new_height,
            ),
            (self.width == 0 || self.height == 0) ==> forall|i: int|
                0 <= i < r.pixels@.len() ==> r.pixels@[i] == 0,
            (new_width == self.width && new_height == self.height) ==> r.pixels@ == picture_bytes(
                *self,
            ),
    {
        resize_rgb(self, new_width, new_height, filter)
    }
}

/// `o`'s value, or `d` where it has none.
pub open spec fn or_default(o: Option<u32>, d: u32) -> u32 {
    match o {
        Some(v) => v,
        None => d,
    }
}

/// At least one.
pub open spec fn at_least_one(n: u32) -> int {
    if n >= 1 {
        n as int
    } else {
        1
    }
}

impl Config {
    /// The area a picture is drawn on in a terminal of `term` cells:
    /// `--width n` gives `n` columns and `--height n` gives `n` rows (at
    /// least one each); without them the terminal's usable columns and rows
    /// are used, one row being kept for the prompt.
    pub open spec fn spec_drawing_area(&self, term: (u32, u32)) -> (int, int) {
        (
            at_least_one(or_default(self.width, term.0)),
            match self.height {
                Some(n) => at_least_one(n),
                None => usable_height(term.1),
            },
        )
    }

    /// The area a picture is drawn on (see [`Config::spec_drawing_area`]).
    pub fn drawing_area(&self, term: (u32, u32)) -> (r: (u32, u32))
        ensures
            r.0 == self.spec_drawing_area(term).0,
            r.1 == self.spec_drawing_area(term).1,
            r.0 >= 1,
            r.1 >= 1,
            forall|n: u32| self.width == Some(n) && n >= 1 ==> r.0 == n,
            forall|n: u32| self.height == Some(n) && n >= 1 ==> r.1 == n,
            self.width.is_none() ==> r.0 == if term.0 >= 1 { term.0 } else { 1 },
            self.height.is_none() ==> r.1 == if term.1 >= 2 { term.1 - 1 } else { 1 },
    {
        let w = match self.width {
            Some(v) => v,
            None => term.0,
        };
        let w: u32 = if w >= 1 {
            w
        } else {
            1
        };
        let h: u32 = match self.height {
            Some(n) => if n >= 1 {
                n
            } else {
                1
            },
            None => if term.1 >= 2 {
                term.1 - 1
            } else {
                1
            },
        };
        (w, h)
    }
}


/// `--width n` (n at least one) draws on exactly `n` columns and `--height n`
/// on exactly `n` rows, each whatever the other flag and the terminal are;
/// without a flag the terminal's columns, and its rows less the prompt's,
/// are used.
pub proof fn lemma_drawing_area_flags(c: Config, term: (u32, u32))
    ensures
        forall|n: u32| c.width == Some(n) && n >= 1 ==> c.spec_drawing_area(term).0 == n,
        forall|n: u32| c.height == Some(n) && n >= 1 ==> c.spec_drawing_area(term).1 == n,
        c.width.is_none() && term.0 >= 1 ==> c.spec_drawing_area(term).0 == term.0,
        c.height.is_none() && term.1 >= 2 ==> c.spec_drawing_area(term).1 == term.1 - 1,
        c.spec_drawing_area(term).0 >= 1,
        c.spec_drawing_area(term).1 >= 1,
{
}

} // verus!
