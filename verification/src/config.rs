//! Run configuration: the resize directive, rotation angle and flip flags,
//! and the parser for the textual resize directive (`WxH`, `N%`, `Nw`, `Nh`).

use vstd::prelude::*;
use crate::bytes::{find_first, first_byte, parse_u32, parse_u32_spec, sub_bytes};

verus! {

/// How to resize an image, if at all.
#[derive(Clone, Copy, PartialEq, Eq, Structural, Debug)]
pub enum ResizeOption {
    /// Resample to exactly this width and height, ignoring aspect ratio.
    Exact(u32, u32),
    /// Scale both axes to `floor(dim * p / 100)`. The percentage is a whole
    /// number: fractional directives are outside this library's arithmetic
    /// and are rejected by the parser.
    Percentage(u32),
    /// Scale, preserving aspect ratio, so that the width fits this target.
    Width(u32),
    /// Scale, preserving aspect ratio, so that the height fits this target.
    Height(u32),
}

/// The geometric transform configuration for a whole run, shared read-only
/// by every worker.
#[derive(Clone, Copy, PartialEq, Eq, Structural, Debug)]
pub struct Config {
    /// The resize directive, if one was given.
    pub resize: Option<ResizeOption>,
    /// The rotation angle in degrees; only 90, 180 and 270 rotate.
    pub rotate: Option<u32>,
    /// Mirror around the vertical axis, after any rotation.
    pub flip_horizontal: bool,
    /// Mirror around the horizontal axis, after any rotation.
    pub flip_vertical: bool,
}

/// `true` iff `a` is an angle the pipeline actually rotates by.
pub open spec fn valid_angle(a: u32) -> bool {
    a == 90 || a == 180 || a == 270
}

/// `true` iff the configuration carries a rotation angle that is silently a
/// no-op and must be surfaced as a warning.
pub open spec fn rotation_warning_spec(c: Config) -> bool {
    match c.rotate {
        Some(a) => !valid_angle(a),
        None => false,
    }
}

/// Whether `c`'s rotation angle is invalid and deserves a warning.
pub fn rotation_warning(c: &Config) -> (r: bool)
    ensures
        r == rotation_warning_spec(*c),
{
    match c.rotate {
        Some(a) => !(a == 90 || a == 180 || a == 270),
        None => false,
    }
}

/// What parsing a resize directive yields. A trailing `%`, `w` or `h`
/// selects percentage, fixed-width or fixed-height, with the digits before
/// it; otherwise the form `WxH` (exactly one `x`) selects an exact size.
/// Every number is a decimal whole number: a fractional percentage such as
/// `50.5%` is rejected, since the directive feeds integer arithmetic.
/// Anything else, including unparsable numbers, yields nothing.
pub open spec fn parse_resize_spec(s: Seq<u8>) -> Option<ResizeOption> {
    if s.len() > 0 && s.last() == 37 {
        match parse_u32_spec(s.drop_last()) {
            Some(p) => Some(ResizeOption::Percentage(p)),
            None => None,
        }
    } else if s.len() > 0 && s.last() == 119 {
        match parse_u32_spec(s.drop_last()) {
            Some(w) => Some(ResizeOption::Width(w)),
            None => None,
        }
    } else if s.len() > 0 && s.last() == 104 {
        match parse_u32_spec(s.drop_last()) {
            Some(h) => Some(ResizeOption::Height(h)),
            None => None,
        }
    } else {
        match find_first(s, 120) {
            Some(i) => if find_first(s.subrange(i + 1, s.len() as int), 120) is Some {
                None
            } else {
                match (parse_u32_spec(s.take(i)), parse_u32_spec(
                    s.subrange(i + 1, s.len() as int),
                )) {
                    (Some(w), Some(h)) => Some(ResizeOption::Exact(w, h)),
                    _ => None,
                }
            },
            None => None,
        }
    }
}

/// Parse a resize directive.
pub fn parse_resize(s: &[u8]) -> (r: Option<ResizeOption>)
    ensures
        r == parse_resize_spec(s@),
{
    let n = s.len();
    if n > 0 && s[n - 1] == 37 {
        proof {
            assert(s@.take(n as int - 1) =~= s@.drop_last());
        }
        let head = sub_bytes(s, 0, n - 1);
        return match parse_u32(head.as_slice()) {
            Some(p) => Some(ResizeOption::Percentage(p)),
            None => None,
        };
    }
    if n > 0 && s[n - 1] == 119 {
        proof {
            assert(s@.take(n as int - 1) =~= s@.drop_last());
        }
        let head = sub_bytes(s, 0, n - 1);
        return match parse_u32(head.as_slice()) {
            Some(w) => Some(ResizeOption::Width(w)),
            None => None,
        };
    }
    if n > 0 && s[n - 1] == 104 {
        proof {
            assert(s@.take(n as int - 1) =~= s@.drop_last());
        }
        let head = sub_bytes(s, 0, n - 1);
        return match parse_u32(head.as_slice()) {
            Some(h) => Some(ResizeOption::Height(h)),
            None => None,
        };
    }
    match first_byte(s, 120) {
        Some(i) => {
            let tail = sub_bytes(s, i + 1, n);
            match first_byte(tail.as_slice(), 120) {
                Some(_) => None,
                None => {
                    let head = sub_bytes(s, 0, i);
                    match (parse_u32(head.as_slice()), parse_u32(tail.as_slice())) {
                        (Some(w), Some(h)) => Some(ResizeOption::Exact(w, h)),
                        _ => None,
                    }
                },
            }
        },
        None => None,
    }
}

/// Turn a flip-menu selection (none, horizontal, vertical, both) into the
/// two flip flags.
pub fn flips_from_selection(selection: usize) -> (r: (bool, bool))
    ensures
        r.0 == (selection == 1 || selection == 3),
        r.1 == (selection == 2 || selection == 3),
{
    (selection == 1 || selection == 3, selection == 2 || selection == 3)
}

} // verus!
