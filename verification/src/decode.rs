//! Decoding pictures and GIF animations from the bytes of a file, through
//! the `image` crate.
//!
//! The decoders compiled in (PNG, JPEG, GIF, WebP, BMP) work in integer
//! arithmetic (JPEG's vector and scalar transforms alike), so what they give
//! depends on the bytes and the format alone; their results are named here,
//! not written out.
use vstd::prelude::*;
use image::AnimationDecoder;
use image::ImageError;
use image::ImageFormat as Outside;
use crate::render::Frame;

verus! {

/// An error of the `image` crate, carried through to be reported.
#[verifier::external_type_specification]
#[verifier::external_body]
pub struct ExImageError(ImageError);

/// A picture format that a file name can select (by its extension).
#[derive(Clone, Copy, Debug, PartialEq, Eq, Structural)]
pub enum PictureFormat {
    Png,
    Jpeg,
    Gif,
    WebP,
    Pnm,
    Tiff,
    Tga,
    Dds,
    Bmp,
    Ico,
    Hdr,
    OpenExr,
    Farbfeld,
    Avif,
    Qoi,
    Pcx,
}

use PictureFormat as P;

/// The name for the format that `image::ImageFormat::from_path` reads from
/// a path's extension (`None` where it gives an error).
pub uninterp spec fn format_of_path(path: Seq<char>) -> Option<PictureFormat>;

/// The name for what decoding `bytes` as `format` gives, as RGB bytes:
/// width, height and pixels (`None` where decoding fails).
pub uninterp spec fn decoded_rgb8(bytes: Seq<u8>, format: PictureFormat) -> Option<(u32, u32, Seq<u8>)>;

/// The name for the frames of the GIF animation `bytes`, each as width,
/// height, RGBA bytes of the whole canvas, and delay in milliseconds as a
/// numerator and a denominator (`None` where decoding fails).
pub uninterp spec fn decoded_gif(bytes: Seq<u8>) -> Option<Seq<(u32, u32, Seq<u8>, u32, u32)>>;

/// Calls `image::ImageFormat::from_path`, which reads the format from the
/// path's extension alone (ASCII case ignored); the result is named
/// (`format_of_path`). In this version it never gives `Pcx`, the one format
/// not listed in the other arms.
#[verifier::external_body]
#[allow(deprecated)]
fn format_from_path(path: &str) -> (r: Result<PictureFormat, ImageError>)
    ensures
        r is Ok <==> format_of_path(path@) is Some,
        r matches Ok(f) ==> format_of_path(path@) == Some(f),
{
    Ok(match Outside::from_path(path)? {
        Outside::Png => P::Png, Outside::Jpeg => P::Jpeg, Outside::Gif => P::Gif,
        Outside::WebP => P::WebP, Outside::Pnm => P::Pnm, Outside::Tiff => P::Tiff,
        Outside::Tga => P::Tga, Outside::Dds => P::Dds, Outside::Bmp => P::Bmp,
        Outside::Ico => P::Ico, Outside::Hdr => P::Hdr, Outside::OpenExr => P::OpenExr,
        Outside::Farbfeld => P::Farbfeld, Outside::Avif => P::Avif, Outside::Qoi => P::Qoi,
        _ => P::Pcx,
    })
}

/// Calls `image::load_from_memory_with_format` and converts the picture to
/// RGB bytes (`to_rgb8`), the same decoding that `image::open` does after
/// reading the file. The result is named (`decoded_rgb8`); its source shows
/// that an RGB picture holds three bytes per pixel.
#[verifier::external_body]
#[allow(deprecated)]
fn decode_rgb8(bytes: &[u8], format: PictureFormat) -> (r: Result<Frame, ImageError>)
    ensures
        r is Ok <==> decoded_rgb8(bytes@, format) is Some,
        r matches Ok(f) ==> (f.width, f.height, f.pixels@) == decoded_rgb8(bytes@, format)->Some_0,
        r matches Ok(f) ==> f.pixels@.len() == 3 * (f.width * f.height),
{
    let outside = match format {
        P::Png => Outside::Png, P::Jpeg => Outside::Jpeg, P::Gif => Outside::Gif,
        P::WebP => Outside::WebP, P::Pnm => Outside::Pnm, P::Tiff => Outside::Tiff,
        P::Tga => Outside::Tga, P::Dds => Outside::Dds, P::Bmp => Outside::Bmp,
        P::Ico => Outside::Ico, P::Hdr => Outside::Hdr, P::OpenExr => Outside::OpenExr,
        P::Farbfeld => Outside::Farbfeld, P::Avif => Outside::Avif, P::Qoi => Outside::Qoi,
        P::Pcx => Outside::Pcx,
    };
    let img = image::load_from_memory_with_format(bytes, outside)?.to_rgb8();
    Ok(Frame { width: img.width(), height: img.height(), pixels: img.into_raw() })
}

/// One frame of a GIF animation: the whole canvas as RGBA bytes, and how
/// long it stays, in milliseconds, as `delay_num / delay_den`.
#[derive(Debug)]
pub struct GifFrame {
    pub width: u32,
    pub height: u32,
    pub pixels: Vec<u8>,
    pub delay_num: u32,
    pub delay_den: u32,
}

/// The parts of a GIF frame.
pub open spec fn gif_frame_view(f: GifFrame) -> (u32, u32, Seq<u8>, u32, u32) {
    (f.width, f.height, f.pixels@, f.delay_num, f.delay_den)
}

/// The parts of each of the frames.
pub open spec fn gif_frames_view(v: Seq<GifFrame>) -> Seq<(u32, u32, Seq<u8>, u32, u32)> {
    v.map_values(|f: GifFrame| gif_frame_view(f))
}

/// Calls `image::codecs::gif::GifDecoder::new` on the bytes, then
/// `into_frames` and `collect_frames`, and takes each frame's buffer and
/// `delay().numer_denom_ms()`. The result is named (`decoded_gif`).
#[verifier::external_body]
fn decode_gif(bytes: &[u8]) -> (r: Result<Vec<GifFrame>, ImageError>)
    ensures
        r is Ok <==> decoded_gif(bytes@) is Some,
        r matches Ok(v) ==> gif_frames_view(v@) == decoded_gif(bytes@)->Some_0,
{
    let decoder = image::codecs::gif::GifDecoder::new(std::io::Cursor::new(bytes))?;
    let mut out = Vec::new();
    for f in decoder.into_frames().collect_frames()? {
        let (delay_num, delay_den) = f.delay().numer_denom_ms();
        let b = f.into_buffer();
        out.push(GifFrame { width: b.width(), height: b.height(), pixels: b.into_raw(), delay_num, delay_den });
    }
    Ok(out)
}

/// Why a picture could not be read.
#[derive(Debug)]
pub enum PictureError {
    /// The path's extension names no picture format.
    Format(ImageError),
    /// The bytes are not a picture in that format (or it is not compiled in).
    Decode(ImageError),
}

/// The format that `path`'s extension selects.
pub fn picture_format(path: &str) -> (r: Result<PictureFormat, PictureError>)
    ensures
        r is Ok <==> format_of_path(path@) is Some,
        r matches Ok(f) ==> format_of_path(path@) == Some(f),
        r matches Err(e) ==> e is Format,
{
    match format_from_path(path) {
        Ok(f) => Ok(f),
        Err(e) => Err(PictureError::Format(e)),
    }
}

/// The picture that `bytes` hold in `format`, as RGB bytes.
pub fn decode_picture(bytes: &[u8], format: PictureFormat) -> (r: Result<Frame, PictureError>)
    ensures
        r is Ok <==> decoded_rgb8(bytes@, format) is Some,
        r matches Ok(f) ==> (f.width, f.height, f.pixels@) == decoded_rgb8(bytes@, format)->Some_0,
        r matches Ok(f) ==> f.wf(),
        r matches Err(e) ==> e is Decode,
{
    match decode_rgb8(bytes, format) {
        Ok(f) => Ok(f),
        Err(e) => Err(PictureError::Decode(e)),
    }
}

/// The picture in the file `path` whose bytes are `bytes`: the format comes
/// from the path's extension, then the bytes are decoded in it.
pub fn load_picture(path: &str, bytes: &[u8]) -> (r: Result<Frame, PictureError>)
    ensures
        format_of_path(path@) is None ==> (r is Err && r->Err_0 is Format),
        format_of_path(path@) matches Some(fmt) ==> {
            &&& r is Ok <==> decoded_rgb8(bytes@, fmt) is Some
            &&& r matches Ok(f) ==> (f.width, f.height, f.pixels@) == decoded_rgb8(bytes@, fmt)->Some_0
            &&& r matches Err(e) ==> e is Decode
        },
        r matches Ok(f) ==> f.wf(),
{
    let format = picture_format(path)?;
    decode_picture(bytes, format)
}

/// Why a GIF animation could not be played.
#[derive(Debug)]
pub enum GifError {
    /// The bytes are not a GIF animation.
    Decode(ImageError),
    /// The animation has no frame.
    NoFrames,
}

/// The frames of the GIF animation `bytes`; an animation without frames is
/// an error.
pub fn gif_frames(bytes: &[u8]) -> (r: Result<Vec<GifFrame>, GifError>)
    ensures
        decoded_gif(bytes@) is None <==> (r is Err && r->Err_0 is Decode),
        decoded_gif(bytes@) == Some(Seq::<(u32, u32, Seq<u8>, u32, u32)>::empty()) <==> (r is Err
            && r->Err_0 is NoFrames),
        r matches Ok(v) ==> v@.len() > 0 && gif_frames_view(v@) == decoded_gif(bytes@)->Some_0,
{
    match decode_gif(bytes) {
        Ok(v) => {
            if v.len() == 0 {
                assert(gif_frames_view(v@) =~= Seq::<(u32, u32, Seq<u8>, u32, u32)>::empty());
                Err(GifError::NoFrames)
            } else {
                Ok(v)
            }
        },
        Err(e) => Err(GifError::Decode(e)),
    }
}

} // verus!
