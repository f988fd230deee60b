//! Console message formatting: ANSI colouring and level-tagged log lines.

use vstd::prelude::*;
use crate::text::str_eq;

verus! {

/// The ANSI escape sequence that opens text in the named colour, if the name is known.
pub open spec fn color_prefix(color: Seq<char>) -> Option<Seq<char>> {
    if color == "red"@ {
        Some("\x1b[31m"@)
    } else if color == "orange"@ || color == "yellow"@ {
        Some("\x1b[33m"@)
    } else if color == "green"@ {
        Some("\x1b[32m"@)
    } else if color == "blue"@ {
        Some("\x1b[34m"@)
    } else if color == "cyan"@ {
        Some("\x1b[36m"@)
    } else if color == "magenta"@ {
        Some("\x1b[35m"@)
    } else if color == "light_blue"@ {
        Some("\x1b[94m"@)
    } else if color == "light_green"@ {
        Some("\x1b[92m"@)
    } else if color == "light_cyan"@ {
        Some("\x1b[96m"@)
    } else if color == "light_red"@ {
        Some("\x1b[91m"@)
    } else if color == "light_magenta"@ {
        Some("\x1b[95m"@)
    } else if color == "light_yellow"@ {
        Some("\x1b[93m"@)
    } else if color == "gray"@ || color == "grey"@ {
        Some("\x1b[90m"@)
    } else if color == "white"@ {
        Some("\x1b[97m"@)
    } else if color == "pink"@ {
        Some("\x1b[38;5;207m"@)
    } else if color == "nextjs_pink"@ {
        Some("\x1b[38;5;183m"@)
    } else {
        None
    }
}

/// The escape sequence that restores the terminal's default colour.
pub open spec fn color_reset() -> Seq<char> {
    "\x1b[0m"@
}

/// `message` wrapped in the escape sequences of `color`; unchanged for an unknown colour.
pub open spec fn colorized(color: Seq<char>, message: Seq<char>) -> Seq<char> {
    match color_prefix(color) {
        Some(p) => p + message + color_reset(),
        None => message,
    }
}

fn color_prefix_of(color: &str) -> (r: Option<&'static str>)
    ensures
        r.is_some() == color_prefix(color@).is_some(),
        r matches Some(p) ==> color_prefix(color@) == Some(p@),
{
    if str_eq(color, "red") {
        Some("\x1b[31m")
    } else if str_eq(color, "orange") || str_eq(color, "yellow") {
        Some("\x1b[33m")
    } else if str_eq(color, "green") {
        Some("\x1b[32m")
    } else if str_eq(color, "blue") {
        Some("\x1b[34m")
    } else if str_eq(color, "cyan") {
        Some("\x1b[36m")
    } else if str_eq(color, "magenta") {
        Some("\x1b[35m")
    } else if str_eq(color, "light_blue") {
        Some("\x1b[94m")
    } else if str_eq(color, "light_green") {
        Some("\x1b[92m")
    } else if str_eq(color, "light_cyan") {
        Some("\x1b[96m")
    } else if str_eq(color, "light_red") {
        Some("\x1b[91m")
    } else if str_eq(color, "light_magenta") {
        Some("\x1b[95m")
    } else if str_eq(color, "light_yellow") {
        Some("\x1b[93m")
    } else if str_eq(color, "gray") || str_eq(color, "grey") {
        Some("\x1b[90m")
    } else if str_eq(color, "white") {
        Some("\x1b[97m")
    } else if str_eq(color, "pink") {
        Some("\x1b[38;5;207m")
    } else if str_eq(color, "nextjs_pink") {
        Some("\x1b[38;5;183m")
    } else {
        None
    }
}

/// Wraps `message` in the ANSI colour sequences for `color`.
/// An unknown colour name leaves the message as it is.
pub fn colorize(color: &str, message: &str) -> (r: String)
    ensures
        r@ == colorized(color@, message@),
{
    match color_prefix_of(color) {
        Some(p) => {
            let mut out = String::from_str(p);
            out.append(message);
            out.append("\x1b[0m");
            out
        },
        None => String::from_str(message),
    }
}

/// The log line for a message at a level already folded to lower case.
pub open spec fn level_line(message: Seq<char>, level: Seq<char>) -> Seq<char> {
    if level == "info"@ {
        colorized("white"@, "snpm"@) + " "@ + colorized("light_blue"@, "info"@) + " "@ + message
    } else if level == "warn"@ {
        colorized("white"@, "snpm"@) + " "@ + colorized("yellow"@, "warn"@) + " "@ + message
    } else if level == "error"@ {
        colorized("white"@, "snpm"@) + " "@ + colorized("red"@, "err"@) + " "@ + message
    } else {
        "Unknown color"@ + " "@ + message
    }
}

/// What `str::to_lowercase` makes of a string.
pub uninterp spec fn lower_of(s: Seq<char>) -> Seq<char>;

/// Relies on `str::to_lowercase`: the lower-case mapping of each character,
/// a function of the characters alone.
#[verifier::external_body]
fn lowercase(s: &str) -> (r: String)
    ensures
        r@ == lower_of(s@),
{
    s.to_lowercase()
}

fn tagged(tag_color: &str, tag: &str, message: &str) -> (r: String)
    ensures
        r@ == colorized("white"@, "snpm"@) + " "@ + colorized(tag_color@, tag@) + " "@ + message@,
{
    let mut out = colorize("white", "snpm");
    out.append(" ");
    let t = colorize(tag_color, tag);
    out.append(t.as_str());
    out.append(" ");
    out.append(message);
    out
}

/// Formats a log line for a level name that is already in lower case:
/// `info`, `warn` and `error` get a coloured tag, any other level a fixed prefix.
pub fn format_level_line(message: &str, level: &str) -> (r: String)
    ensures
        r@ == level_line(message@, level@),
{
    if str_eq(level, "info") {
        tagged("light_blue", "info", message)
    } else if str_eq(level, "warn") {
        tagged("yellow", "warn", message)
    } else if str_eq(level, "error") {
        tagged("red", "err", message)
    } else {
        let mut out = String::from_str("Unknown color");
        out.append(" ");
        out.append(message);
        out
    }
}

/// Formats a log line; the level name is matched regardless of case.
pub fn format_message(message: String, log_type: &str) -> (r: String)
    ensures
        r@ == level_line(message@, lower_of(log_type@)),
{
    let level = lowercase(log_type);
    format_level_line(message.as_str(), level.as_str())
}

} // verus!
