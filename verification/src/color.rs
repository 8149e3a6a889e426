//! ANSI colors, which the `NO_COLOR` convention (https://no-color.org/)
//! switches off.
use vstd::prelude::*;

verus! {

pub const RESET: &'static str = "\x1b[0m";

pub const DIM: &'static str = "\x1b[2m";

pub const BOLD: &'static str = "\x1b[1m";

/// The background colors that groups of repositories get in turn.
pub open spec fn spec_group_color(i: int) -> Seq<char> {
    if i == 0 {
        "\x1b[48;5;24m\x1b[97m"@  // dark blue
    } else if i == 1 {
        "\x1b[48;5;22m\x1b[97m"@  // dark green
    } else if i == 2 {
        "\x1b[48;5;94m\x1b[97m"@  // dark orange
    } else if i == 3 {
        "\x1b[48;5;30m\x1b[97m"@  // teal
    } else {
        "\x1b[48;5;238m\x1b[97m"@  // dark gray
    }
}

/// The number of group colors.
pub open spec fn group_color_count() -> int {
    5
}

/// The group color for slot `i`, counting round the five colors.
pub fn group_color(i: usize) -> (r: &'static str)
    ensures
        r@ == spec_group_color(i as int % group_color_count()),
{
    let k = i % 5;
    if k == 0 {
        "\x1b[48;5;24m\x1b[97m"
    } else if k == 1 {
        "\x1b[48;5;22m\x1b[97m"
    } else if k == 2 {
        "\x1b[48;5;94m\x1b[97m"
    } else if k == 3 {
        "\x1b[48;5;30m\x1b[97m"
    } else {
        "\x1b[48;5;238m\x1b[97m"
    }
}

/// `code` where colors are on, else nothing.
pub open spec fn spec_color(code: Seq<char>, enabled: bool) -> Seq<char> {
    if enabled {
        code
    } else {
        Seq::empty()
    }
}

/// Get a color code, returning empty string if colors are disabled.
/// `enabled` is whether `NO_COLOR` is unset in the environment.
pub fn color<'a>(code: &'a str, enabled: bool) -> (r: &'a str)
    ensures
        r@ == spec_color(code@, enabled),
{
    if enabled {
        code
    } else {
        proof {
            reveal_strlit("");
        }
        ""
    }
}

} // verus!
