use pre::models::{CharSet, Config};
use pre::render::{glyph_table, join_lines, render_row, to_ascii, Frame};
use pre::scale::Filter;

fn config(charset: CharSet, invert: bool, no_color: bool) -> Config {
    Config {
        path: String::from("x.png"),
        by_height: false,
        stretch: false,
        no_color,
        invert,
        loop_playback: false,
        charset,
        fps: None,
        width: None,
        height: None,
        no_audio: false,
        brightness: None,
        contrast: None,
    }
}

/// The brightness the viewer uses, computed as the program does.
fn luma(frame: &Frame) -> Vec<u8> {
    frame.pixels[..3 * (frame.width * frame.height) as usize]
        .chunks(3)
        .map(|p| (0.299 * p[0] as f32 + 0.587 * p[1] as f32 + 0.114 * p[2] as f32) as usize as u8)
        .collect()
}

#[test]
fn frame_needs_a_long_enough_buffer() {
    assert!(Frame::from_raw(2, 1, vec![0; 6]).is_some());
    assert!(Frame::from_raw(2, 1, vec![0; 7]).is_some());
    assert!(Frame::from_raw(2, 1, vec![0; 5]).is_none());
    assert!(Frame::from_raw(0, 5, vec![]).is_some());
    assert!(Frame::from_raw(u32::MAX, u32::MAX, vec![0; 3]).is_none());
}

#[test]
fn plain_text_maps_brightness_to_glyphs() {
    let frame = Frame::from_raw(2, 2, vec![0; 12]).unwrap();
    // Simple has 10 glyphs: brightness b gets glyph b * 9 / 255.
    let out = to_ascii(&frame, &[0, 255, 128, 64], &config(CharSet::Simple, false, true));
    assert_eq!(out, " @\n=:");
}

#[test]
fn inverted_text_mirrors_the_glyphs() {
    let frame = Frame::from_raw(2, 2, vec![0; 12]).unwrap();
    let out = to_ascii(&frame, &[0, 255, 128, 64], &config(CharSet::Simple, true, true));
    assert_eq!(out, "@ \n+#");
    assert_eq!(glyph_table(CharSet::Blocks, true), vec!['█', '▓', '▒', '░', ' ']);
}

#[test]
fn colour_escape_only_where_the_colour_changes() {
    let frame = Frame::from_raw(3, 1, vec![255, 0, 0, 255, 0, 0, 0, 128, 7]).unwrap();
    let l = luma(&frame);
    assert_eq!(l, vec![76, 76, 75]);
    let out = to_ascii(&frame, &l, &config(CharSet::Simple, false, false));
    assert_eq!(out, "\x1b[38;2;255;0;0m::\x1b[38;2;0;128;7m:\x1b[0m");
}

#[test]
fn every_row_starts_with_its_colour() {
    let frame = Frame::from_raw(1, 2, vec![10, 20, 30, 10, 20, 30]).unwrap();
    let out = to_ascii(&frame, &[255, 255], &config(CharSet::Blocks, false, false));
    assert_eq!(out, "\x1b[38;2;10;20;30m█\x1b[0m\n\x1b[38;2;10;20;30m█\x1b[0m");
}

#[test]
fn detailed_glyphs_at_the_ends() {
    let frame = Frame::from_raw(3, 1, vec![0; 9]).unwrap();
    let out = to_ascii(&frame, &[0, 128, 255], &config(CharSet::Detailed, false, true));
    // 69 glyphs: 128 * 68 / 255 = 34.
    assert_eq!(out, " n$");
}

#[test]
fn empty_picture_gives_no_text() {
    let frame = Frame::from_raw(0, 3, vec![]).unwrap();
    assert_eq!(to_ascii(&frame, &[], &config(CharSet::Simple, false, false)), "");
    let frame = Frame::from_raw(3, 0, vec![]).unwrap();
    assert_eq!(to_ascii(&frame, &[], &config(CharSet::Simple, false, true)), "");
}

#[test]
fn rows_joined_give_the_whole_text() {
    let frame = Frame::from_raw(2, 3, (0..18).map(|i| (i * 14) as u8).collect()).unwrap();
    let l = luma(&frame);
    let cfg = config(CharSet::Detailed, false, false);
    let glyphs = glyph_table(cfg.charset, cfg.invert);
    let rows: Vec<String> = (0..3).map(|y| render_row(&frame, &l, &glyphs, false, y)).collect();
    assert_eq!(join_lines(&rows), to_ascii(&frame, &l, &cfg));
    assert_eq!(join_lines(&vec![]), "");
    assert_eq!(join_lines(&vec!["a".to_string(), "".to_string(), "b".to_string()]), "a\n\nb");
}

#[test]
fn plain_text_size() {
    let frame = Frame::from_raw(4, 3, vec![200; 36]).unwrap();
    let l = luma(&frame);
    let out = to_ascii(&frame, &l, &config(CharSet::Detailed, false, true));
    assert_eq!(out.chars().count(), 3 * 5 - 1);
    assert_eq!(out.lines().count(), 3);
    assert!(out.lines().all(|line| line.chars().count() == 4));
}

#[test]
fn resizing_gives_the_new_size() {
    let frame = Frame::from_raw(4, 4, vec![100; 48]).unwrap();
    let small = frame.resized(2, 2, Filter::Triangle);
    assert_eq!((small.width, small.height), (2, 2));
    assert_eq!(small.pixels.len(), 12);
    assert!(small.pixels.iter().all(|&b| b == 100));
    let big = frame.resized(8, 3, Filter::Lanczos3);
    assert_eq!((big.width, big.height), (8, 3));
    assert_eq!(big.pixels.len(), 72);
}

#[test]
fn resizing_to_the_same_size_copies() {
    let pixels: Vec<u8> = (0..27).collect();
    let frame = Frame::from_raw(3, 3, pixels.clone()).unwrap();
    assert_eq!(frame.resized(3, 3, Filter::Lanczos3).pixels, pixels);
}

#[test]
fn resizing_an_empty_picture_gives_black() {
    let frame = Frame::from_raw(0, 3, vec![]).unwrap();
    let out = frame.resized(2, 2, Filter::Triangle);
    assert_eq!(out.pixels, vec![0; 12]);
}

#[test]
fn drawing_area_follows_the_flags() {
    let mut cfg = config(CharSet::Simple, false, true);
    assert_eq!(cfg.drawing_area((80, 24)), (80, 23));
    assert_eq!(cfg.drawing_area((0, 0)), (1, 1));
    cfg.width = Some(40);
    cfg.height = Some(10);
    assert_eq!(cfg.drawing_area((80, 24)), (40, 10));
    cfg.stretch = true;
    assert_eq!(
        pre::dimensions::calculate_dimensions(100, 50, 40, 10, false, true, 0, 0),
        (40, 10)
    );
    cfg.width = Some(0);
    cfg.height = Some(0);
    assert_eq!(cfg.drawing_area((80, 24)), (1, 1));
}

#[test]
fn resized_frame_has_the_new_size() {
    let frame = Frame::from_raw(100, 50, vec![9; 15000]).unwrap();
    let fitted = frame.resized(80, 20, Filter::Lanczos3);
    assert_eq!((fitted.width, fitted.height), (80, 20));
    assert_eq!(fitted.pixels.len(), 80 * 20 * 3);
}

#[test]
fn no_color_writes_no_escape() {
    let frame = Frame::from_raw(5, 4, (0..60).map(|i| (i * 37 % 256) as u8).collect()).unwrap();
    let l = luma(&frame);
    for cs in [CharSet::Detailed, CharSet::Simple, CharSet::Blocks] {
        for invert in [false, true] {
            let out = to_ascii(&frame, &l, &config(cs, invert, true));
            assert!(!out.contains('\x1b'));
            let glyphs = glyph_table(cs, invert);
            assert!(out.chars().all(|c| c == '\n' || glyphs.contains(&c)));
        }
    }
}

/// The text with every escape sequence (ESC up to the next `m`) removed.
fn strip_codes(s: &str) -> String {
    let mut out = String::new();
    let mut inside = false;
    for c in s.chars() {
        if inside {
            inside = c != 'm';
        } else if c == '\x1b' {
            inside = true;
        } else {
            out.push(c);
        }
    }
    out
}

#[test]
fn stripping_colour_gives_plain_text() {
    let frame = Frame::from_raw(6, 3, (0..54).map(|i| (i * 53 % 256) as u8).collect()).unwrap();
    let l = luma(&frame);
    for cs in [CharSet::Detailed, CharSet::Simple, CharSet::Blocks] {
        for invert in [false, true] {
            let coloured = to_ascii(&frame, &l, &config(cs, invert, false));
            let plain = to_ascii(&frame, &l, &config(cs, invert, true));
            assert_ne!(coloured, plain);
            assert_eq!(strip_codes(&coloured), plain);
        }
    }
}

#[test]
fn inverted_text_mirrors_every_glyph() {
    let frame = Frame::from_raw(5, 2, (0..30).map(|i| (i * 41 % 256) as u8).collect()).unwrap();
    let l = luma(&frame);
    for cs in [CharSet::Detailed, CharSet::Simple, CharSet::Blocks] {
        let g: Vec<char> = cs.chars().chars().collect();
        let n = g.len();
        let t: Vec<char> = to_ascii(&frame, &l, &config(cs, false, true)).chars().collect();
        let u: Vec<char> = to_ascii(&frame, &l, &config(cs, true, true)).chars().collect();
        assert_eq!(t.len(), u.len());
        for (a, b) in t.iter().zip(u.iter()) {
            if *a == '\n' {
                assert_eq!(*b, '\n');
            } else {
                let k = g.iter().position(|c| c == a).unwrap();
                assert_eq!(*b, g[n - 1 - k]);
            }
        }
    }
}
