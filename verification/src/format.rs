//! Coloring of terminal text through the `colored` crate. Whether color is
//! applied depends on the process environment (`NO_COLOR`, `CLICOLOR`,
//! `CLICOLOR_FORCE`, whether stdout is a terminal), so the contracts state
//! what holds of both outcomes.
use colored::{Color, Colorize};
use vstd::prelude::*;

verus! {

/// The three colors the command output uses.
#[derive(Clone, Copy, Debug, PartialEq, Eq)]
pub enum Hue {
    Green,
    Red,
    Yellow,
}

/// The SGR foreground code of a hue.
pub open spec fn hue_code(h: Hue) -> Seq<char> {
    match h {
        Hue::Green => seq!['3', '2'],
        Hue::Red => seq!['3', '1'],
        Hue::Yellow => seq!['3', '3'],
    }
}

/// The escape sequence that starts text of hue `h`.
pub open spec fn hue_start(h: Hue) -> Seq<char> {
    seq!['\x1b', '['] + hue_code(h) + seq!['m']
}

/// The escape sequence that ends colored text.
pub open spec fn ansi_reset() -> Seq<char> {
    seq!['\x1b', '[', '0', 'm']
}

/// Whether `s` holds the reset sequence somewhere.
pub open spec fn has_reset(s: Seq<char>) -> bool {
    exists|i: int| 0 <= i && i + 4 <= s.len() && #[trigger] s.subrange(i, i + 4) == ansi_reset()
}

/// `r` is `s` rendered in hue `h`: either `s` unchanged (color disabled) or
/// `s` wrapped in the hue's start sequence and the reset sequence.
pub open spec fn painted(r: Seq<char>, s: Seq<char>, h: Hue) -> bool {
    ||| r == s
    ||| {
        &&& r.len() >= hue_start(h).len() + ansi_reset().len()
        &&& r.take(hue_start(h).len() as int) == hue_start(h)
        &&& r.skip(r.len() - ansi_reset().len()) == ansi_reset()
        &&& !has_reset(s) ==> r == hue_start(h) + s + ansi_reset()
    }
}

/// `s.color(h).to_string()` from `colored`. With color enabled it writes
/// the hue's start sequence, `s` (with the start sequence re-inserted after
/// every inner reset), then the reset sequence; otherwise `s` unchanged.
#[verifier::external_body]
fn apply_color(s: &str, h: Hue) -> (r: String)
    ensures
        painted(r@, s@, h),
{
    let color = match h {
        Hue::Green => Color::Green,
        Hue::Red => Color::Red,
        Hue::Yellow => Color::Yellow,
    };
    s.color(color).to_string()
}

/// `s` in green.
pub fn green_string(s: &str) -> (r: String)
    ensures
        painted(r@, s@, Hue::Green),
{
    apply_color(s, Hue::Green)
}

/// `s` in red.
pub fn red_string(s: &str) -> (r: String)
    ensures
        painted(r@, s@, Hue::Red),
{
    apply_color(s, Hue::Red)
}

/// `s` in yellow.
pub fn yellow_string(s: &str) -> (r: String)
    ensures
        painted(r@, s@, Hue::Yellow),
{
    apply_color(s, Hue::Yellow)
}

} // verus!
