use pre::args::parse_args;
use pre::models::CharSet;

fn args(list: &[&str]) -> Vec<String> {
    list.iter().map(|s| s.to_string()).collect()
}

#[test]
fn no_file_asks_for_help() {
    assert!(parse_args(&args(&[])).is_none());
    assert!(parse_args(&args(&["pre"])).is_none());
}

#[test]
fn help_flags_anywhere_ask_for_help() {
    assert!(parse_args(&args(&["pre", "--help"])).is_none());
    assert!(parse_args(&args(&["pre", "a.png", "-h"])).is_none());
    assert!(parse_args(&args(&["pre", "a.png", "--loop", "--help", "--simple"])).is_none());
}

#[test]
fn defaults_without_flags() {
    let c = parse_args(&args(&["pre", "a.png"])).unwrap();
    assert_eq!(c.path, "a.png");
    assert!(!c.by_height && !c.stretch && !c.no_color && !c.invert && !c.loop_playback);
    assert!(!c.no_audio);
    assert_eq!(c.charset, CharSet::Detailed);
    assert_eq!(c.fps, None);
    assert_eq!(c.width, None);
    assert_eq!(c.height, None);
    assert_eq!(c.brightness, None);
    assert_eq!(c.contrast, None);
}

#[test]
fn switches_are_read() {
    let c = parse_args(&args(&[
        "pre", "clip.mp4", "--fit-height", "--stretch", "--no-color", "--invert", "--loop",
        "--no-audio",
    ]))
    .unwrap();
    assert_eq!(c.path, "clip.mp4");
    assert!(c.by_height && c.stretch && c.no_color && c.invert && c.loop_playback && c.no_audio);
}

#[test]
fn simple_wins_over_blocks() {
    let c = parse_args(&args(&["pre", "a.png", "--blocks", "--simple"])).unwrap();
    assert_eq!(c.charset, CharSet::Simple);
    let c = parse_args(&args(&["pre", "a.png", "--blocks"])).unwrap();
    assert_eq!(c.charset, CharSet::Blocks);
}

#[test]
fn values_follow_their_flags() {
    let c = parse_args(&args(&[
        "pre", "a.gif", "--width", "100", "--height", "40", "--fps", "12.5", "--brightness",
        "1.2", "--contrast", "0.8",
    ]))
    .unwrap();
    assert_eq!(c.width, Some(100));
    assert_eq!(c.height, Some(40));
    assert_eq!(c.fps.as_deref(), Some("12.5"));
    assert_eq!(c.brightness.as_deref(), Some("1.2"));
    assert_eq!(c.contrast.as_deref(), Some("0.8"));
}

#[test]
fn bad_or_missing_values_are_dropped() {
    let c = parse_args(&args(&["pre", "a.png", "--width", "wide", "--height"])).unwrap();
    assert_eq!(c.width, None);
    assert_eq!(c.height, None);
    let c = parse_args(&args(&["pre", "a.png", "--width", "-5", "--fps"])).unwrap();
    assert_eq!(c.width, None);
    assert_eq!(c.fps, None);
}

#[test]
fn first_occurrence_of_a_flag_counts() {
    let c = parse_args(&args(&["pre", "a.png", "--width", "10", "--width", "20"])).unwrap();
    assert_eq!(c.width, Some(10));
}

#[test]
fn value_may_be_another_flag() {
    let c = parse_args(&args(&["pre", "a.png", "--fps", "--loop"])).unwrap();
    assert_eq!(c.fps.as_deref(), Some("--loop"));
    assert!(c.loop_playback);
}

#[test]
fn path_is_the_first_argument() {
    let c = parse_args(&args(&["pre", "--loop", "a.png"])).unwrap();
    assert_eq!(c.path, "--loop");
    assert!(c.loop_playback);
}
