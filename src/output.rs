use vstd::prelude::*;

use crate::text::{str_eq, upper_of, uppercase};

verus! {

/// How an item's status is shown.
#[derive(Clone, Copy, PartialEq, Eq, Structural, Debug)]
pub enum StatusStyle {
    Green,
    Yellow,
    Cyan,
    Red,
    Plain,
}

/// The style of an upper-case status.
pub open spec fn style_of(upper: Seq<char>) -> StatusStyle {
    if upper == "READY"@ {
        StatusStyle::Green
    } else if upper == "DRAFT"@ {
        StatusStyle::Yellow
    } else if upper == "PROCESSING"@ {
        StatusStyle::Cyan
    } else if upper == "FAILED"@ {
        StatusStyle::Red
    } else {
        StatusStyle::Plain
    }
}

/// The style of an upper-case status.
pub fn status_style(upper: &str) -> (r: StatusStyle)
    ensures
        r == style_of(upper@),
{
    if str_eq(upper, "READY") {
        StatusStyle::Green
    } else if str_eq(upper, "DRAFT") {
        StatusStyle::Yellow
    } else if str_eq(upper, "PROCESSING") {
        StatusStyle::Cyan
    } else if str_eq(upper, "FAILED") {
        StatusStyle::Red
    } else {
        StatusStyle::Plain
    }
}

/// The terminal colour code of a style.
pub open spec fn color_code(s: StatusStyle) -> Seq<char> {
    match s {
        StatusStyle::Green => "32"@,
        StatusStyle::Yellow => "33"@,
        StatusStyle::Cyan => "36"@,
        StatusStyle::Red => "31"@,
        StatusStyle::Plain => Seq::empty(),
    }
}

/// `text` wrapped in the escape codes that colour it with `code`.
pub open spec fn painted(code: Seq<char>, text: Seq<char>) -> Seq<char> {
    "\u{1b}["@ + code + "m"@ + text + "\u{1b}[0m"@
}

/// Relies on colored's `Colorize::color` and the `Display` of its
/// `ColoredString`: where colouring is off the text comes back as it is,
/// else (for text without escape codes of its own) wrapped in the codes of
/// the foreground colour.
#[verifier::external_body]
fn paint(text: &str, style: StatusStyle) -> (r: String)
    requires
        style != StatusStyle::Plain,
    ensures
        !text@.contains('\u{1b}') ==> (r@ == text@ || r@ == painted(color_code(style), text@)),
{
    let color = match style {
        StatusStyle::Green => colored::Color::Green,
        StatusStyle::Yellow => colored::Color::Yellow,
        StatusStyle::Cyan => colored::Color::Cyan,
        StatusStyle::Red => colored::Color::Red,
        StatusStyle::Plain => colored::Color::White,
    };
    colored::Colorize::color(text, color).to_string()
}

/// An item status as shown: coloured by what it says, in any case; an
/// unknown status is shown as it is.
pub fn format_status(status: &str) -> (r: String)
    ensures
        style_of(upper_of(status@)) == StatusStyle::Plain ==> r@ == status@,
        style_of(upper_of(status@)) != StatusStyle::Plain && !status@.contains('\u{1b}') ==> (r@
            == status@ || r@ == painted(color_code(style_of(upper_of(status@))), status@)),
{
    let upper = uppercase(status);
    let style = status_style(upper.as_str());
    match style {
        StatusStyle::Plain => String::from_str(status),
        _ => paint(status, style),
    }
}

} // verus!
