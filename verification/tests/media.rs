use pre::media::{
    frame_delay_ms, media_kind, next_gif_frame, parse_video_info, run, video_step, MediaKind,
    VideoAction, VideoEvent, VideoInfoError,
};
use pre::models::{CharSet, Config, FrameRate};
use pre::parse::IntErrorKind;

fn config(path: &str) -> Config {
    Config {
        path: path.to_string(),
        by_height: false,
        stretch: false,
        no_color: false,
        invert: false,
        loop_playback: false,
        charset: CharSet::Detailed,
        fps: None,
        width: None,
        height: None,
        no_audio: false,
        brightness: None,
        contrast: None,
    }
}

#[test]
fn run_chooses_by_extension_in_any_case() {
    assert_eq!(run(&config("anim.gif")), MediaKind::Gif);
    assert_eq!(run(&config("ANIM.GIF")), MediaKind::Gif);
    assert_eq!(run(&config("Movie.MP4")), MediaKind::Video);
    assert_eq!(run(&config("clip.WebM")), MediaKind::Video);
    assert_eq!(run(&config("x.MPEG")), MediaKind::Video);
    assert_eq!(run(&config("photo.jpg")), MediaKind::Image);
    assert_eq!(run(&config("photo")), MediaKind::Image);
    assert_eq!(run(&config("")), MediaKind::Image);
}

#[test]
fn run_looks_only_at_the_end_of_the_path() {
    assert_eq!(run(&config("a.gif.mp4")), MediaKind::Video);
    assert_eq!(run(&config("a.mp4.gif")), MediaKind::Gif);
    assert_eq!(run(&config("a.mp4.png")), MediaKind::Image);
    assert_eq!(run(&config("gif")), MediaKind::Image);
}

#[test]
fn every_video_extension_is_known() {
    for ext in [".mp4", ".mkv", ".avi", ".mov", ".webm", ".flv", ".wmv", ".m4v", ".mpeg", ".mpg", ".3gp"] {
        assert_eq!(media_kind(&format!("video{}", ext)), MediaKind::Video, "{}", ext);
    }
    assert_eq!(media_kind("video.MP4"), MediaKind::Image);
}

#[test]
fn gif_frame_delays() {
    assert_eq!(frame_delay_ms(0, 0), 100);
    assert_eq!(frame_delay_ms(70, 0), 100);
    assert_eq!(frame_delay_ms(10, 1), 16);
    assert_eq!(frame_delay_ms(100, 2), 50);
    assert_eq!(frame_delay_ms(101, 2), 50);
    assert_eq!(frame_delay_ms(0, 5), 16);
}

#[test]
fn gif_playback_without_loop_shows_each_frame_once() {
    let mut shown = Vec::new();
    let mut next = 0;
    while let Some(i) = next_gif_frame(next, 3, false, false) {
        shown.push(i);
        next = i + 1;
    }
    assert_eq!(shown, vec![0, 1, 2]);
}

#[test]
fn gif_playback_loops_until_stopped() {
    let mut shown = Vec::new();
    let mut next = 0;
    while let Some(i) = next_gif_frame(next, 2, true, shown.len() == 5) {
        shown.push(i);
        next = i + 1;
    }
    assert_eq!(shown, vec![0, 1, 0, 1, 0]);
    assert_eq!(next_gif_frame(0, 2, true, true), None);
    assert_eq!(next_gif_frame(2, 2, false, false), None);
}

#[test]
fn video_info_with_ratio() {
    let info = parse_video_info("1920,1080,30000/1001\n").unwrap();
    assert_eq!(info.width, 1920);
    assert_eq!(info.height, 1080);
    match info.fps {
        FrameRate::Ratio(n, d) => {
            assert_eq!(n, "30000");
            assert_eq!(d, "1001");
        }
        FrameRate::Single(_) => panic!("expected a ratio"),
    }
}

#[test]
fn video_info_with_single_rate() {
    let info = parse_video_info("  640,480,25  ").unwrap();
    assert_eq!((info.width, info.height), (640, 480));
    match info.fps {
        FrameRate::Single(s) => assert_eq!(s, "25"),
        FrameRate::Ratio(..) => panic!("expected a single rate"),
    }
    let info = parse_video_info("640,480,1/2/3,extra").unwrap();
    match info.fps {
        FrameRate::Single(s) => assert_eq!(s, "1/2/3"),
        FrameRate::Ratio(..) => panic!("expected a single rate"),
    }
}

#[test]
fn video_info_errors() {
    assert_eq!(parse_video_info("").unwrap_err(), VideoInfoError::MissingFields);
    assert_eq!(parse_video_info("640,480").unwrap_err(), VideoInfoError::MissingFields);
    assert_eq!(
        parse_video_info("x,480,25").unwrap_err(),
        VideoInfoError::Width(IntErrorKind::InvalidDigit)
    );
    assert_eq!(parse_video_info("640,,25").unwrap_err(), VideoInfoError::Height(IntErrorKind::Empty));
    assert_eq!(
        parse_video_info("640,99999999999,25").unwrap_err(),
        VideoInfoError::Height(IntErrorKind::PosOverflow)
    );
}

#[test]
fn video_steps() {
    assert_eq!(video_step(VideoEvent::Started, false, false), VideoAction::Begin { start_audio: true });
    assert_eq!(video_step(VideoEvent::Started, true, true), VideoAction::Begin { start_audio: false });
    assert_eq!(video_step(VideoEvent::StopRequested, true, false), VideoAction::Stop);
    assert_eq!(video_step(VideoEvent::StopRequested, false, true), VideoAction::Stop);
    assert_eq!(video_step(VideoEvent::FrameRead, false, false), VideoAction::ShowFrame);
    assert_eq!(video_step(VideoEvent::StreamEnded, false, false), VideoAction::Finish);
    assert_eq!(video_step(VideoEvent::StreamEnded, false, true), VideoAction::Finish);
    assert_eq!(
        video_step(VideoEvent::StreamEnded, true, false),
        VideoAction::Restart { restart_audio: true }
    );
    assert_eq!(
        video_step(VideoEvent::StreamEnded, true, true),
        VideoAction::Restart { restart_audio: false }
    );
}
