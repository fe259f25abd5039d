//! Reading the command line.
use vstd::prelude::*;
use crate::models::{CharSet, Config};
use crate::parse::{parse_u32, spec_parse_u32};
use crate::text::chars_of;

verus! {

/// The argument that follows the first occurrence of `flag` at or after
/// position `i`; `None` where `flag` does not occur there or is last.
pub open spec fn arg_value_from(args: Seq<Seq<char>>, flag: Seq<char>, i: int) -> Option<Seq<char>>
    decreases args.len() - i,
{
    if i < 0 || i >= args.len() {
        None
    } else if args[i] == flag {
        if i + 1 < args.len() {
            Some(args[i + 1])
        } else {
            None
        }
    } else {
        arg_value_from(args, flag, i + 1)
    }
}

/// The argument that follows the first occurrence of `flag`.
pub open spec fn arg_value(args: Seq<Seq<char>>, flag: Seq<char>) -> Option<Seq<char>> {
    arg_value_from(args, flag, 0)
}

/// A number of cells given after a flag; `None` where the flag is absent or
/// what follows it is not a decimal `u32`.
pub open spec fn dimension_arg(value: Option<Seq<char>>) -> Option<u32> {
    match value {
        Some(t) => match spec_parse_u32(t) {
            Ok(v) => Some(v),
            Err(_) => None,
        },
        None => None,
    }
}

/// The characters of an optional text.
pub open spec fn opt_text(o: Option<String>) -> Option<Seq<char>> {
    match o {
        Some(s) => Some(s@),
        None => None,
    }
}

/// The command line asks for help: no file is named, or `--help` or `-h`
/// appears anywhere.
pub open spec fn wants_help(args: Seq<Seq<char>>) -> bool {
    args.len() < 2 || args.contains("--help"@) || args.contains("-h"@)
}

/// `--simple` wins over `--blocks`; without either the detailed set is used.
pub open spec fn charset_arg(args: Seq<Seq<char>>) -> CharSet {
    if args.contains("--simple"@) {
        CharSet::Simple
    } else if args.contains("--blocks"@) {
        CharSet::Blocks
    } else {
        CharSet::Detailed
    }
}

/// What the command line `args` (the program's name first) asks for; the
/// file is the first argument after the program's name, wherever the flags
/// stand.
pub open spec fn config_matches(c: Config, args: Seq<Seq<char>>) -> bool {
    &&& c.path@ == args[1]
    &&& c.by_height == args.contains("--fit-height"@)
    &&& c.stretch == args.contains("--stretch"@)
    &&& c.no_color == args.contains("--no-color"@)
    &&& c.invert == args.contains("--invert"@)
    &&& c.loop_playback == args.contains("--loop"@)
    &&& c.no_audio == args.contains("--no-audio"@)
    &&& c.charset == charset_arg(args)
    &&& opt_text(c.fps) == arg_value(args, "--fps"@)
    &&& c.width == dimension_arg(arg_value(args, "--width"@))
    &&& c.height == dimension_arg(arg_value(args, "--height"@))
    &&& opt_text(c.brightness) == arg_value(args, "--brightness"@)
    &&& opt_text(c.contrast) == arg_value(args, "--contrast"@)
}

/// Whether `flag` is one of `args`.
fn has_flag(args: &Vec<String>, flag: &str) -> (r: bool)
    ensures
        r == args.deep_view().contains(flag@),
{
    let f = flag.to_owned();
    let mut i: usize = 0;
    while i < args.len()
        invariant
            i <= args@.len(),
            f@ == flag@,
            forall|j: int| 0 <= j < i ==> args.deep_view()[j] != flag@,
        decreases args@.len() - i,
    {
        if args[i] == f {
            assert(args.deep_view()[i as int] == flag@);
            return true;
        }
        i = i + 1;
    }
    false
}

/// The argument after the first `flag`.
fn flag_value(args: &Vec<String>, flag: &str) -> (r: Option<String>)
    ensures
        opt_text(r) == arg_value(args.deep_view(), flag@),
{
    let f = flag.to_owned();
    let ghost a = args.deep_view();
    let mut i: usize = 0;
    while i < args.len()
        invariant
            i <= args@.len(),
            a == args.deep_view(),
            f@ == flag@,
            arg_value(a, flag@) == arg_value_from(a, flag@, i as int),
        decreases args@.len() - i,
    {
        if args[i] == f {
            if i + 1 < args.len() {
                return Some(args[i + 1].clone());
            } else {
                return None;
            }
        }
        i = i + 1;
    }
    None
}

/// A number of cells after `flag`, where it is a decimal `u32`.
fn dimension_flag(args: &Vec<String>, flag: &str) -> (r: Option<u32>)
    ensures
        r == dimension_arg(arg_value(args.deep_view(), flag@)),
{
    match flag_value(args, flag) {
        Some(t) => {
            let cs = chars_of(t.as_str());
            match parse_u32(cs.as_slice()) {
                Ok(v) => Some(v),
                Err(_) => None,
            }
        },
        None => None,
    }
}

/// Reads the command line `args`, the program's name first.
///
/// Returns `None` where help is asked for (see [`wants_help`]), and the
/// settings otherwise (see [`config_matches`]).
pub fn parse_args(args: &Vec<String>) -> (r: Option<Config>)
    ensures
        r is None <==> wants_help(args.deep_view()),
        r matches Some(c) ==> config_matches(c, args.deep_view()),
        r matches Some(c) ==> (args.deep_view().contains("--simple"@) ==> c.charset
            == CharSet::Simple),
        r matches Some(c) ==> (!args.deep_view().contains("--simple"@) && args.deep_view().contains(
            "--blocks"@,
        ) ==> c.charset == CharSet::Blocks),
{
    if args.len() < 2 || has_flag(args, "--help") || has_flag(args, "-h") {
        return None;
    }
    let path = args[1].clone();
    let charset = if has_flag(args, "--simple") {
        CharSet::Simple
    } else if has_flag(args, "--blocks") {
        CharSet::Blocks
    } else {
        CharSet::Detailed
    };
    Some(
        Config {
            path,
            by_height: has_flag(args, "--fit-height"),
            stretch: has_flag(args, "--stretch"),
            no_color: has_flag(args, "--no-color"),
            invert: has_flag(args, "--invert"),
            loop_playback: has_flag(args, "--loop"),
            charset,
            fps: flag_value(args, "--fps"),
            width: dimension_flag(args, "--width"),
            height: dimension_flag(args, "--height"),
            no_audio: has_flag(args, "--no-audio"),
            brightness: flag_value(args, "--brightness"),
            contrast: flag_value(args, "--contrast"),
        },
    )
}

/// The character set follows the flags: `--simple` gives the simple set
/// whether or not `--blocks` is there too, `--blocks` alone gives the block
/// set, and neither gives the detailed set.
pub proof fn lemma_charset_flags(c: Config, args: Seq<Seq<char>>)
    requires
        config_matches(c, args),
    ensures
        args.contains("--simple"@) ==> c.charset == CharSet::Simple,
        !args.contains("--simple"@) && args.contains("--blocks"@) ==> c.charset == CharSet::Blocks,
        !args.contains("--simple"@) && !args.contains("--blocks"@) ==> c.charset
            == CharSet::Detailed,
{
}

} // verus!
