//! Terminal previews of images, GIF animations and videos, drawn with
//! characters and 24-bit ANSI colours.
//!
//! This crate holds the decisions of the viewer: how large the picture is
//! drawn, how a frame becomes text, how the command line is read, which
//! player a path selects, and the escape sequences that the terminal needs.
//! Pictures and GIF animations are decoded from a file's bytes here, through
//! the `image` crate; reading files, spawning `ffmpeg` and writing to the
//! terminal are left to the program that uses it.
use vstd::prelude::*;

pub mod dimensions;
pub mod text;
pub mod parse;
pub mod models;
pub mod args;
pub mod media;
pub mod render;
pub mod scale;
pub mod decode;

verus! {

} // verus!
