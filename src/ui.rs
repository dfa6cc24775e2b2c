//! Terminal styling and the text of provider listings.
use vstd::prelude::*;
use colored::Colorize;
use crate::model::Provider;
use crate::text::occurs_in;

verus! {

pub open spec fn reset_code() -> Seq<char> {
    "\x1B[0m"@
}

/// The escape sequence that selects the style `code`.
pub open spec fn style_code(code: Seq<char>) -> Seq<char> {
    "\x1B["@ + code + "m"@
}

/// `r` shows `text`: as it is when the terminal gets no colors, or opened
/// with the style `code` and closed with a reset; exactly
/// `style + text + reset` when `text` holds no reset of its own.
pub open spec fn painted(r: Seq<char>, code: Seq<char>, text: Seq<char>) -> bool {
    r == text || {
        &&& r.len() >= style_code(code).len() + reset_code().len()
        &&& r.take(style_code(code).len() as int) == style_code(code)
        &&& r.skip(r.len() - reset_code().len()) == reset_code()
        &&& !occurs_in(text, reset_code()) ==> r == style_code(code) + text + reset_code()
    }
}

pub open spec fn green_code() -> Seq<char> {
    "32"@
}

pub open spec fn red_code() -> Seq<char> {
    "31"@
}

pub open spec fn yellow_code() -> Seq<char> {
    "33"@
}

pub open spec fn cyan_code() -> Seq<char> {
    "36"@
}

/// Bold, then bright blue.
pub open spec fn highlight_code() -> Seq<char> {
    "1;94"@
}

/// Relies on colored's `Colorize::green` and the `Display` of its
/// `ColoredString`: green text, or the text alone when colors are off.
#[verifier::external_body]
fn paint_green(text: &str) -> (r: String)
    ensures
        painted(r@, green_code(), text@),
{
    text.green().to_string()
}

/// Relies on colored's `Colorize::red` and the `Display` of its
/// `ColoredString`: red text, or the text alone when colors are off.
#[verifier::external_body]
fn paint_red(text: &str) -> (r: String)
    ensures
        painted(r@, red_code(), text@),
{
    text.red().to_string()
}

/// Relies on colored's `Colorize::yellow` and the `Display` of its
/// `ColoredString`: yellow text, or the text alone when colors are off.
#[verifier::external_body]
fn paint_yellow(text: &str) -> (r: String)
    ensures
        painted(r@, yellow_code(), text@),
{
    text.yellow().to_string()
}

/// Relies on colored's `Colorize::cyan` and the `Display` of its
/// `ColoredString`: cyan text, or the text alone when colors are off.
#[verifier::external_body]
fn paint_cyan(text: &str) -> (r: String)
    ensures
        painted(r@, cyan_code(), text@),
{
    text.cyan().to_string()
}

/// Relies on colored's `Colorize::bright_blue` and `bold` and the
/// `Display` of its `ColoredString`: the bold style is written before the
/// color, or the text stays alone when colors are off.
#[verifier::external_body]
fn paint_highlight(text: &str) -> (r: String)
    ensures
        painted(r@, highlight_code(), text@),
{
    text.bright_blue().bold().to_string()
}

/// Text for a completed action.
pub fn success(text: &str) -> (r: String)
    ensures
        painted(r@, green_code(), text@),
{
    paint_green(text)
}

/// Text for a failure.
pub fn error(text: &str) -> (r: String)
    ensures
        painted(r@, red_code(), text@),
{
    paint_red(text)
}

/// Text for a caution.
pub fn warning(text: &str) -> (r: String)
    ensures
        painted(r@, yellow_code(), text@),
{
    paint_yellow(text)
}

/// Text for a remark.
pub fn info(text: &str) -> (r: String)
    ensures
        painted(r@, cyan_code(), text@),
{
    paint_cyan(text)
}

/// Text that stands out, such as the current selection.
pub fn highlight(text: &str) -> (r: String)
    ensures
        painted(r@, highlight_code(), text@),
{
    paint_highlight(text)
}

/// A Unix timestamp rendered in UTC with a `strftime`-style pattern.
pub uninterp spec fn utc_text(ts: int, pattern: Seq<char>) -> Seq<char>;

pub open spec fn minute_pattern() -> Seq<char> {
    "%Y-%m-%d %H:%M"@
}

pub open spec fn second_pattern() -> Seq<char> {
    "%Y-%m-%d %H:%M:%S"@
}

/// Timestamps well inside the years that chrono's dates can hold.
pub open spec fn timestamp_in_range(ts: int) -> bool {
    -8_000_000_000_000 <= ts <= 8_000_000_000_000
}

/// `r` is the creation time shown for `created_at` with `pattern`.
pub open spec fn created_text(r: Seq<char>, created_at: Option<i64>, pattern: Seq<char>) -> bool {
    match created_at {
        Some(ts) => if timestamp_in_range(ts as int) {
            r == utc_text(ts as int, pattern)
        } else {
            r == utc_text(ts as int, pattern) || r == "Unknown"@
        },
        None => r == "Unknown"@,
    }
}

/// Relies on chrono's `DateTime::<Utc>::from_timestamp` (no value only
/// for a date outside the years it can hold, about 262,000 years around
/// the epoch) and `format` with a valid pattern.
#[verifier::external_body]
fn format_utc(ts: i64, pattern: &str) -> (r: Option<String>)
    requires
        pattern@ == minute_pattern() || pattern@ == second_pattern(),
    ensures
        r matches Some(s) ==> s@ == utc_text(ts as int, pattern@),
        timestamp_in_range(ts as int) ==> r is Some,
{
    match chrono::DateTime::<chrono::Utc>::from_timestamp(ts, 0) {
        Some(dt) => Some(dt.format(pattern).to_string()),
        None => None,
    }
}

/// The creation time shown for a provider: the UTC date and time, or
/// "Unknown" when there is none or it is out of range.
pub fn created_label(created_at: Option<i64>, with_seconds: bool) -> (r: String)
    ensures
        created_text(r@, created_at, if with_seconds { second_pattern() } else { minute_pattern() }),
{
    match created_at {
        None => "Unknown".to_owned(),
        Some(ts) => {
            let shown = if with_seconds {
                format_utc(ts, "%Y-%m-%d %H:%M:%S")
            } else {
                format_utc(ts, "%Y-%m-%d %H:%M")
            };
            match shown {
                Some(s) => s,
                None => "Unknown".to_owned(),
            }
        },
    }
}

/// The category shown for a provider.
pub open spec fn category_text(p: Provider) -> Seq<char> {
    match p.category {
        Some(c) => c@,
        None => "unknown"@,
    }
}

pub fn category_label(p: &Provider) -> (r: String)
    ensures
        r@ == category_text(*p),
{
    match &p.category {
        Some(c) => c.clone(),
        None => "unknown".to_owned(),
    }
}

} // verus!
