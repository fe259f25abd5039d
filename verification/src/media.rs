//! Choosing a player and the facts it needs about a stream.
use vstd::prelude::*;
use crate::models::{Config, FrameRate, VideoInfo};
use crate::parse::{IntErrorKind, parse_u32, spec_parse_u32, split_chars, split_on, trim, trim_chars};
use crate::text::{chars_of, ends_with, has_suffix, string_from_chars};

verus! {

/// How a file is shown.
#[derive(Clone, Copy, Debug, PartialEq, Eq, Structural)]
pub enum MediaKind {
    /// An animated GIF, played frame by frame.
    Gif,
    /// A video, decoded by `ffmpeg`.
    Video,
    /// A still picture.
    Image,
}

/// The name `str::to_lowercase` gives its result: every character mapped to
/// its Unicode lower case, which may be more than one character.
pub uninterp spec fn lowercase(s: Seq<char>) -> Seq<char>;

/// Calls `str::to_lowercase`. Its result depends on the text alone (through
/// the Unicode tables of the standard library), so it is named, not written
/// out.
#[verifier::external_body]
fn to_lowercase(s: &str) -> (r: String)
    ensures
        r@ == lowercase(s@),
{
    s.to_lowercase()
}

/// A lower-case path names a video: it ends with one of the extensions that
/// `ffmpeg` is asked to play.
pub open spec fn is_video_path(lower: Seq<char>) -> bool {
    ||| ends_with(lower, ".mp4"@)
    ||| ends_with(lower, ".mkv"@)
    ||| ends_with(lower, ".avi"@)
    ||| ends_with(lower, ".mov"@)
    ||| ends_with(lower, ".webm"@)
    ||| ends_with(lower, ".flv"@)
    ||| ends_with(lower, ".wmv"@)
    ||| ends_with(lower, ".m4v"@)
    ||| ends_with(lower, ".mpeg"@)
    ||| ends_with(lower, ".mpg"@)
    ||| ends_with(lower, ".3gp"@)
}

/// How a file whose lower-cased path is `lower` is shown: `.gif` first, then
/// the video extensions, anything else as a picture.
pub open spec fn spec_media_kind(lower: Seq<char>) -> MediaKind {
    if ends_with(lower, ".gif"@) {
        MediaKind::Gif
    } else if is_video_path(lower) {
        MediaKind::Video
    } else {
        MediaKind::Image
    }
}

/// How a file is shown, from its path already in lower case.
pub fn media_kind(lower: &str) -> (r: MediaKind)
    ensures
        r == spec_media_kind(lower@),
        (r == MediaKind::Gif) == ends_with(lower@, ".gif"@),
{
    let cs = chars_of(lower);
    let s = cs.as_slice();
    if has_suffix(s, ".gif") {
        MediaKind::Gif
    } else if has_suffix(s, ".mp4") || has_suffix(s, ".mkv") || has_suffix(s, ".avi")
        || has_suffix(s, ".mov") || has_suffix(s, ".webm") || has_suffix(s, ".flv")
        || has_suffix(s, ".wmv") || has_suffix(s, ".m4v") || has_suffix(s, ".mpeg")
        || has_suffix(s, ".mpg") || has_suffix(s, ".3gp") {
        MediaKind::Video
    } else {
        MediaKind::Image
    }
}

/// Chooses the player for `config.path`, compared in lower case: GIF
/// playback, video playback, or a still picture.
pub fn run(config: &Config) -> (r: MediaKind)
    ensures
        r == spec_media_kind(lowercase(config.path@)),
{
    let lower = to_lowercase(config.path.as_str());
    media_kind(lower.as_str())
}

/// How long a GIF frame stays, in milliseconds, from its delay `num / denom`
/// milliseconds: 100 where the denominator is 0, else the whole
/// milliseconds, but at least 16.
pub open spec fn spec_frame_delay_ms(num: u32, denom: u32) -> u32 {
    if denom == 0 {
        100
    } else if num / denom < 16 {
        16
    } else {
        num / denom
    }
}

/// How long a GIF frame stays, in milliseconds (see [`spec_frame_delay_ms`]).
pub fn frame_delay_ms(num: u32, denom: u32) -> (r: u32)
    ensures
        r == spec_frame_delay_ms(num, denom),
        r >= 16,
        denom > 0 && num / denom >= 16 ==> r == num / denom,
{
    if denom == 0 {
        100
    } else {
        let ms = num / denom;
        if ms < 16 {
            16
        } else {
            ms
        }
    }
}

/// The frame shown next in GIF playback.
///
/// `next` is the frame after the one last shown (0 at the start) among
/// `count` frames. At the end, playback starts again at the first frame when
/// it loops, and ends otherwise. It also ends, before any further frame,
/// when a stop was requested.
pub open spec fn spec_next_gif_frame(next: usize, count: usize, loop_playback: bool, stop: bool) -> Option<usize> {
    if next < count {
        if stop {
            None
        } else {
            Some(next)
        }
    } else if loop_playback && !stop {
        Some(0)
    } else {
        None
    }
}

/// The frame shown next in GIF playback (see [`spec_next_gif_frame`]).
pub fn next_gif_frame(next: usize, count: usize, loop_playback: bool, stop: bool) -> (r: Option<usize>)
    requires
        count > 0,
        next <= count,
    ensures
        r == spec_next_gif_frame(next, count, loop_playback, stop),
        r matches Some(i) ==> i < count,
{
    if next < count {
        if stop {
            None
        } else {
            Some(next)
        }
    } else if loop_playback && !stop {
        Some(0)
    } else {
        None
    }
}

/// Without a stop request, a playback that does not loop shows the frames
/// once each, in order, and then ends.
pub proof fn lemma_gif_plays_in_order(count: usize, i: usize)
    requires
        count > 0,
        i <= count,
    ensures
        i < count ==> spec_next_gif_frame(i, count, false, false) == Some(i),
        i == count ==> spec_next_gif_frame(i, count, false, false) is None,
{
}

/// A looping playback without a stop request never ends: after the last
/// frame comes the first.
pub proof fn lemma_gif_loops(count: usize, i: usize)
    requires
        count > 0,
        i <= count,
    ensures
        spec_next_gif_frame(i, count, true, false) is Some,
        spec_next_gif_frame(count, count, true, false) == Some(0usize),
{
}

/// A stop request ends playback at once, looping or not.
pub proof fn lemma_gif_stop(count: usize, i: usize, loop_playback: bool)
    requires
        count > 0,
        i <= count,
    ensures
        spec_next_gif_frame(i, count, loop_playback, true) is None,
{
}

/// What happened before the next step of video playback.
#[derive(Clone, Copy, Debug, PartialEq, Eq, Structural)]
pub enum VideoEvent {
    /// Playback is about to begin (before the first frame is decoded).
    Started,
    /// A stop was requested (Ctrl+C); checked before each frame is read.
    StopRequested,
    /// A whole frame was read from the decoder.
    FrameRead,
    /// The decoder's stream ran out (or could not be read).
    StreamEnded,
}

/// What video playback does next.
#[derive(Clone, Copy, Debug, PartialEq, Eq, Structural)]
pub enum VideoAction {
    /// Begin playback; start the sound where `start_audio` is set.
    Begin { start_audio: bool },
    /// Draw the frame just read, then wait out the frame's time.
    ShowFrame,
    /// Kill the decoder and end playback.
    Stop,
    /// Wait for the decoder to exit and end playback.
    Finish,
    /// Wait for the decoder to exit and decode the stream again from the
    /// start; start the sound again too where `restart_audio` is set.
    Restart { restart_audio: bool },
}

/// What video playback does after `event`: it begins with sound unless it
/// plays without sound; a stop request ends it at once,
/// a frame is shown, and at the end of the stream it starts again only when
/// it loops, restarting the sound unless it plays without sound.
pub open spec fn spec_video_step(event: VideoEvent, loop_playback: bool, no_audio: bool) -> VideoAction {
    match event {
        VideoEvent::Started => VideoAction::Begin { start_audio: !no_audio },
        VideoEvent::StopRequested => VideoAction::Stop,
        VideoEvent::FrameRead => VideoAction::ShowFrame,
        VideoEvent::StreamEnded => if loop_playback {
            VideoAction::Restart { restart_audio: !no_audio }
        } else {
            VideoAction::Finish
        },
    }
}

/// What video playback does after `event` (see [`spec_video_step`]).
pub fn video_step(event: VideoEvent, loop_playback: bool, no_audio: bool) -> (r: VideoAction)
    ensures
        r == spec_video_step(event, loop_playback, no_audio),
        event == VideoEvent::FrameRead ==> r == VideoAction::ShowFrame,
{
    match event {
        VideoEvent::Started => VideoAction::Begin { start_audio: !no_audio },
        VideoEvent::StopRequested => VideoAction::Stop,
        VideoEvent::FrameRead => VideoAction::ShowFrame,
        VideoEvent::StreamEnded => if loop_playback {
            VideoAction::Restart { restart_audio: !no_audio }
        } else {
            VideoAction::Finish
        },
    }
}

/// A stop request ends video playback at once, looping or not; without
/// one, a playback that loops never ends. `--no-audio` alone decides
/// whether sound is started, at the beginning and at each restart.
pub proof fn lemma_video_stop_and_loop(event: VideoEvent, loop_playback: bool, no_audio: bool)
    ensures
        spec_video_step(VideoEvent::Started, loop_playback, no_audio) == (VideoAction::Begin {
            start_audio: !no_audio,
        }),
        spec_video_step(VideoEvent::StreamEnded, true, no_audio) == (VideoAction::Restart {
            restart_audio: !no_audio,
        }),
        spec_video_step(VideoEvent::StopRequested, true, no_audio) == VideoAction::Stop,
        spec_video_step(VideoEvent::StopRequested, false, no_audio) == VideoAction::Stop,
        event != VideoEvent::StopRequested ==> spec_video_step(event, true, no_audio) != VideoAction::Stop
            && spec_video_step(event, true, no_audio) != VideoAction::Finish,
{
}

/// Why `ffprobe`'s answer does not describe a video stream.
#[derive(Clone, Copy, Debug, PartialEq, Eq, Structural)]
pub enum VideoInfoError {
    /// Fewer than three comma-separated fields.
    MissingFields,
    /// The first field is not a width.
    Width(IntErrorKind),
    /// The second field is not a height.
    Height(IntErrorKind),
}

/// The fields of `ffprobe`'s one-line answer `width,height,rate`.
pub open spec fn probe_fields(text: Seq<char>) -> Seq<Seq<char>> {
    split_on(trim(text), ',')
}

/// The characters of a frame rate's texts.
pub open spec fn frame_rate_view(f: FrameRate) -> (Seq<char>, Option<Seq<char>>) {
    match f {
        FrameRate::Ratio(n, d) => (n@, Some(d@)),
        FrameRate::Single(s) => (s@, None),
    }
}

/// The frame rate written in the field `rate`: a ratio where the field holds
/// exactly one `/`, the whole field otherwise.
pub open spec fn spec_frame_rate(rate: Seq<char>) -> (Seq<char>, Option<Seq<char>>) {
    let pieces = split_on(rate, '/');
    if pieces.len() == 2 {
        (pieces[0], Some(pieces[1]))
    } else {
        (rate, None)
    }
}

/// What `ffprobe`'s answer `text` says of a stream, or why it says nothing:
/// the answer, without surrounding white space, is split at commas; it needs
/// three fields, of which the first two are decimal `u32`s.
pub open spec fn video_info_matches(text: Seq<char>, r: Result<VideoInfo, VideoInfoError>) -> bool {
    let f = probe_fields(text);
    if f.len() < 3 {
        r == Err::<VideoInfo, VideoInfoError>(VideoInfoError::MissingFields)
    } else if spec_parse_u32(f[0]) is Err {
        r == Err::<VideoInfo, VideoInfoError>(VideoInfoError::Width(spec_parse_u32(f[0])->Err_0))
    } else if spec_parse_u32(f[1]) is Err {
        r == Err::<VideoInfo, VideoInfoError>(VideoInfoError::Height(spec_parse_u32(f[1])->Err_0))
    } else {
        &&& r is Ok
        &&& r->Ok_0.width == spec_parse_u32(f[0])->Ok_0
        &&& r->Ok_0.height == spec_parse_u32(f[1])->Ok_0
        &&& frame_rate_view(r->Ok_0.fps) == spec_frame_rate(f[2])
    }
}

/// Reads `ffprobe`'s answer about a video stream (see [`video_info_matches`]).
pub fn parse_video_info(text: &str) -> (r: Result<VideoInfo, VideoInfoError>)
    ensures
        video_info_matches(text@, r),
{
    let cs = chars_of(text);
    let trimmed = trim_chars(cs.as_slice());
    let fields = split_chars(trimmed.as_slice(), ',');
    let ghost f = fields.deep_view();
    if fields.len() < 3 {
        return Err(VideoInfoError::MissingFields);
    }
    assert(fields@[0]@ == f[0] && fields@[1]@ == f[1] && fields@[2]@ == f[2]) by {
        assert(fields@[0]@ =~= f[0]);
        assert(fields@[1]@ =~= f[1]);
        assert(fields@[2]@ =~= f[2]);
    }
    let width = match parse_u32(fields[0].as_slice()) {
        Ok(w) => w,
        Err(e) => {
            return Err(VideoInfoError::Width(e));
        },
    };
    let height = match parse_u32(fields[1].as_slice()) {
        Ok(h) => h,
        Err(e) => {
            return Err(VideoInfoError::Height(e));
        },
    };
    let rate = &fields[2];
    let pieces = split_chars(rate.as_slice(), '/');
    let fps = if pieces.len() == 2 {
        assert(pieces@[0]@ =~= pieces.deep_view()[0]);
        assert(pieces@[1]@ =~= pieces.deep_view()[1]);
        FrameRate::Ratio(
            string_from_chars(pieces[0].as_slice()),
            string_from_chars(pieces[1].as_slice()),
        )
    } else {
        FrameRate::Single(string_from_chars(rate.as_slice()))
    };
    Ok(VideoInfo { width, height, fps })
}

proof fn lemma_not_suffix(p: Seq<char>, e: Seq<char>, x: Seq<char>, j: int)
    requires
        0 <= j < e.len(),
        j < x.len(),
        x[x.len() - 1 - j] != e[e.len() - 1 - j],
    ensures
        !ends_with(p + e, x),
{
    let s = p + e;
    if ends_with(s, x) {
        let t = s.subrange(s.len() - x.len(), s.len() as int);
        assert(t[x.len() - 1 - j] == s[s.len() - 1 - j]);
        assert(s[s.len() - 1 - j] == e[e.len() - 1 - j]);
    }
}

proof fn lemma_is_suffix(p: Seq<char>, e: Seq<char>)
    ensures
        ends_with(p + e, e),
{
    let s = p + e;
    assert(s.subrange(s.len() - e.len(), s.len() as int) =~= e);
}

/// A lower-cased path is played as a GIF exactly when it ends with `.gif`.
pub proof fn lemma_gif_exactly(lower: Seq<char>)
    ensures
        spec_media_kind(lower) == MediaKind::Gif <==> exists|p: Seq<char>| lower == p + ".gif"@,
{
    if spec_media_kind(lower) == MediaKind::Gif {
        let p = lower.take(lower.len() - 4);
        assert(lower =~= p + ".gif"@) by {
            reveal_strlit(".gif");
            assert(lower.subrange(lower.len() - 4, lower.len() as int) == ".gif"@);
        }
    }
    if exists|p: Seq<char>| lower == p + ".gif"@ {
        let p = choose|p: Seq<char>| lower == p + ".gif"@;
        lemma_is_suffix(p, ".gif"@);
    }
}

/// A path ending with a video extension is played as a video, whatever
/// comes before it.
pub proof fn lemma_video_extensions(p: Seq<char>)
    ensures
        spec_media_kind(p + ".mp4"@) == MediaKind::Video,
        spec_media_kind(p + ".mkv"@) == MediaKind::Video,
        spec_media_kind(p + ".avi"@) == MediaKind::Video,
        spec_media_kind(p + ".mov"@) == MediaKind::Video,
        spec_media_kind(p + ".webm"@) == MediaKind::Video,
        spec_media_kind(p + ".flv"@) == MediaKind::Video,
        spec_media_kind(p + ".wmv"@) == MediaKind::Video,
        spec_media_kind(p + ".m4v"@) == MediaKind::Video,
        spec_media_kind(p + ".mpeg"@) == MediaKind::Video,
        spec_media_kind(p + ".mpg"@) == MediaKind::Video,
        spec_media_kind(p + ".3gp"@) == MediaKind::Video,
{
    reveal_strlit(".gif");
    assert(".gif"@ =~= seq!['.', 'g', 'i', 'f']);
    reveal_strlit(".mp4");
    assert(".mp4"@ =~= seq!['.', 'm', 'p', '4']);
    reveal_strlit(".mkv");
    assert(".mkv"@ =~= seq!['.', 'm', 'k', 'v']);
    reveal_strlit(".avi");
    assert(".avi"@ =~= seq!['.', 'a', 'v', 'i']);
    reveal_strlit(".mov");
    assert(".mov"@ =~= seq!['.', 'm', 'o', 'v']);
    reveal_strlit(".webm");
    assert(".webm"@ =~= seq!['.', 'w', 'e', 'b', 'm']);
    reveal_strlit(".flv");
    assert(".flv"@ =~= seq!['.', 'f', 'l', 'v']);
    reveal_strlit(".wmv");
    assert(".wmv"@ =~= seq!['.', 'w', 'm', 'v']);
    reveal_strlit(".m4v");
    assert(".m4v"@ =~= seq!['.', 'm', '4', 'v']);
    reveal_strlit(".mpeg");
    assert(".mpeg"@ =~= seq!['.', 'm', 'p', 'e', 'g']);
    reveal_strlit(".mpg");
    assert(".mpg"@ =~= seq!['.', 'm', 'p', 'g']);
    reveal_strlit(".3gp");
    assert(".3gp"@ =~= seq!['.', '3', 'g', 'p']);
    lemma_is_suffix(p, ".mp4"@);
    lemma_not_suffix(p, ".mp4"@, ".gif"@, 0);
    lemma_is_suffix(p, ".mkv"@);
    lemma_not_suffix(p, ".mkv"@, ".gif"@, 0);
    lemma_is_suffix(p, ".avi"@);
    lemma_not_suffix(p, ".avi"@, ".gif"@, 0);
    lemma_is_suffix(p, ".mov"@);
    lemma_not_suffix(p, ".mov"@, ".gif"@, 0);
    lemma_is_suffix(p, ".webm"@);
    lemma_not_suffix(p, ".webm"@, ".gif"@, 0);
    lemma_is_suffix(p, ".flv"@);
    lemma_not_suffix(p, ".flv"@, ".gif"@, 0);
    lemma_is_suffix(p, ".wmv"@);
    lemma_not_suffix(p, ".wmv"@, ".gif"@, 0);
    lemma_is_suffix(p, ".m4v"@);
    lemma_not_suffix(p, ".m4v"@, ".gif"@, 0);
    lemma_is_suffix(p, ".mpeg"@);
    lemma_not_suffix(p, ".mpeg"@, ".gif"@, 0);
    lemma_is_suffix(p, ".mpg"@);
    lemma_not_suffix(p, ".mpg"@, ".gif"@, 0);
    lemma_is_suffix(p, ".3gp"@);
    lemma_not_suffix(p, ".3gp"@, ".gif"@, 0);
}

/// A path ending with a still-picture extension (PNG, JPG, JPEG, BMP, WEBP)
/// is shown as a still picture, whatever comes before it.
pub proof fn lemma_picture_extensions(p: Seq<char>)
    ensures
        spec_media_kind(p + ".png"@) == MediaKind::Image,
        spec_media_kind(p + ".jpg"@) == MediaKind::Image,
        spec_media_kind(p + ".jpeg"@) == MediaKind::Image,
        spec_media_kind(p + ".bmp"@) == MediaKind::Image,
        spec_media_kind(p + ".webp"@) == MediaKind::Image,
{
    reveal_strlit(".gif");
    assert(".gif"@ =~= seq!['.', 'g', 'i', 'f']);
    reveal_strlit(".mp4");
    assert(".mp4"@ =~= seq!['.', 'm', 'p', '4']);
    reveal_strlit(".mkv");
    assert(".mkv"@ =~= seq!['.', 'm', 'k', 'v']);
    reveal_strlit(".avi");
    assert(".avi"@ =~= seq!['.', 'a', 'v', 'i']);
    reveal_strlit(".mov");
    assert(".mov"@ =~= seq!['.', 'm', 'o', 'v']);
    reveal_strlit(".webm");
    assert(".webm"@ =~= seq!['.', 'w', 'e', 'b', 'm']);
    reveal_strlit(".flv");
    assert(".flv"@ =~= seq!['.', 'f', 'l', 'v']);
    reveal_strlit(".wmv");
    assert(".wmv"@ =~= seq!['.', 'w', 'm', 'v']);
    reveal_strlit(".m4v");
    assert(".m4v"@ =~= seq!['.', 'm', '4', 'v']);
    reveal_strlit(".mpeg");
    assert(".mpeg"@ =~= seq!['.', 'm', 'p', 'e', 'g']);
    reveal_strlit(".mpg");
    assert(".mpg"@ =~= seq!['.', 'm', 'p', 'g']);
    reveal_strlit(".3gp");
    assert(".3gp"@ =~= seq!['.', '3', 'g', 'p']);
    reveal_strlit(".png");
    assert(".png"@ =~= seq!['.', 'p', 'n', 'g']);
    reveal_strlit(".jpg");
    assert(".jpg"@ =~= seq!['.', 'j', 'p', 'g']);
    reveal_strlit(".jpeg");
    assert(".jpeg"@ =~= seq!['.', 'j', 'p', 'e', 'g']);
    reveal_strlit(".bmp");
    assert(".bmp"@ =~= seq!['.', 'b', 'm', 'p']);
    reveal_strlit(".webp");
    assert(".webp"@ =~= seq!['.', 'w', 'e', 'b', 'p']);
    lemma_not_suffix(p, ".png"@, ".gif"@, 0);
    lemma_not_suffix(p, ".png"@, ".mp4"@, 0);
    lemma_not_suffix(p, ".png"@, ".mkv"@, 0);
    lemma_not_suffix(p, ".png"@, ".avi"@, 0);
    lemma_not_suffix(p, ".png"@, ".mov"@, 0);
    lemma_not_suffix(p, ".png"@, ".webm"@, 0);
    lemma_not_suffix(p, ".png"@, ".flv"@, 0);
    lemma_not_suffix(p, ".png"@, ".wmv"@, 0);
    lemma_not_suffix(p, ".png"@, ".m4v"@, 0);
    lemma_not_suffix(p, ".png"@, ".mpeg"@, 1);
    lemma_not_suffix(p, ".png"@, ".mpg"@, 1);
    lemma_not_suffix(p, ".png"@, ".3gp"@, 0);
    lemma_not_suffix(p, ".jpg"@, ".gif"@, 0);
    lemma_not_suffix(p, ".jpg"@, ".mp4"@, 0);
    lemma_not_suffix(p, ".jpg"@, ".mkv"@, 0);
    lemma_not_suffix(p, ".jpg"@, ".avi"@, 0);
    lemma_not_suffix(p, ".jpg"@, ".mov"@, 0);
    lemma_not_suffix(p, ".jpg"@, ".webm"@, 0);
    lemma_not_suffix(p, ".jpg"@, ".flv"@, 0);
    lemma_not_suffix(p, ".jpg"@, ".wmv"@, 0);
    lemma_not_suffix(p, ".jpg"@, ".m4v"@, 0);
    lemma_not_suffix(p, ".jpg"@, ".mpeg"@, 1);
    lemma_not_suffix(p, ".jpg"@, ".mpg"@, 2);
    lemma_not_suffix(p, ".jpg"@, ".3gp"@, 0);
    lemma_not_suffix(p, ".jpeg"@, ".gif"@, 0);
    lemma_not_suffix(p, ".jpeg"@, ".mp4"@, 0);
    lemma_not_suffix(p, ".jpeg"@, ".mkv"@, 0);
    lemma_not_suffix(p, ".jpeg"@, ".avi"@, 0);
    lemma_not_suffix(p, ".jpeg"@, ".mov"@, 0);
    lemma_not_suffix(p, ".jpeg"@, ".webm"@, 0);
    lemma_not_suffix(p, ".jpeg"@, ".flv"@, 0);
    lemma_not_suffix(p, ".jpeg"@, ".wmv"@, 0);
    lemma_not_suffix(p, ".jpeg"@, ".m4v"@, 0);
    lemma_not_suffix(p, ".jpeg"@, ".mpeg"@, 3);
    lemma_not_suffix(p, ".jpeg"@, ".mpg"@, 1);
    lemma_not_suffix(p, ".jpeg"@, ".3gp"@, 0);
    lemma_not_suffix(p, ".bmp"@, ".gif"@, 0);
    lemma_not_suffix(p, ".bmp"@, ".mp4"@, 0);
    lemma_not_suffix(p, ".bmp"@, ".mkv"@, 0);
    lemma_not_suffix(p, ".bmp"@, ".avi"@, 0);
    lemma_not_suffix(p, ".bmp"@, ".mov"@, 0);
    lemma_not_suffix(p, ".bmp"@, ".webm"@, 0);
    lemma_not_suffix(p, ".bmp"@, ".flv"@, 0);
    lemma_not_suffix(p, ".bmp"@, ".wmv"@, 0);
    lemma_not_suffix(p, ".bmp"@, ".m4v"@, 0);
    lemma_not_suffix(p, ".bmp"@, ".mpeg"@, 0);
    lemma_not_suffix(p, ".bmp"@, ".mpg"@, 0);
    lemma_not_suffix(p, ".bmp"@, ".3gp"@, 1);
    lemma_not_suffix(p, ".webp"@, ".gif"@, 0);
    lemma_not_suffix(p, ".webp"@, ".mp4"@, 0);
    lemma_not_suffix(p, ".webp"@, ".mkv"@, 0);
    lemma_not_suffix(p, ".webp"@, ".avi"@, 0);
    lemma_not_suffix(p, ".webp"@, ".mov"@, 0);
    lemma_not_suffix(p, ".webp"@, ".webm"@, 0);
    lemma_not_suffix(p, ".webp"@, ".flv"@, 0);
    lemma_not_suffix(p, ".webp"@, ".wmv"@, 0);
    lemma_not_suffix(p, ".webp"@, ".m4v"@, 0);
    lemma_not_suffix(p, ".webp"@, ".mpeg"@, 0);
    lemma_not_suffix(p, ".webp"@, ".mpg"@, 0);
    lemma_not_suffix(p, ".webp"@, ".3gp"@, 1);
}

/// A GIF frame stays as long as its delay says, in whole milliseconds,
/// without upper limit; delays under 16 ms are raised to 16 ms, and a delay
/// with denominator 0 counts as 100 ms.
pub proof fn lemma_frame_delay(num: u32, denom: u32)
    ensures
        denom > 0 && num / denom >= 16 ==> spec_frame_delay_ms(num, denom) == num / denom,
        denom > 0 && num / denom < 16 ==> spec_frame_delay_ms(num, denom) == 16,
        denom == 0 ==> spec_frame_delay_ms(num, denom) == 100,
        denom > 0 ==> spec_frame_delay_ms(num, denom) >= num / denom,
{
}

/// Every frame read during video playback is drawn, looping or not, with
/// sound or not; playback ends at the end of the stream exactly when it does
/// not loop.
pub proof fn lemma_video_frames_are_shown(loop_playback: bool, no_audio: bool)
    ensures
        spec_video_step(VideoEvent::FrameRead, loop_playback, no_audio) == VideoAction::ShowFrame,
        (spec_video_step(VideoEvent::StreamEnded, loop_playback, no_audio) == VideoAction::Finish)
            == !loop_playback,
        spec_video_step(VideoEvent::StreamEnded, loop_playback, no_audio) != VideoAction::ShowFrame,
        spec_video_step(VideoEvent::StreamEnded, loop_playback, no_audio) != VideoAction::Stop,
{
}

} // verus!
