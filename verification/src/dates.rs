//! The date of an entry as the lists show it: day and month, such as `02 May`.

use vstd::prelude::*;

verus! {

/// What `chrono` makes of a date given as RFC 3339: what it parses, formatted after
/// `format`, or `None` where it parses nothing.
pub uninterp spec fn rfc3339_label(text: Seq<char>, format: Seq<char>) -> Option<Seq<char>>;

/// What `chrono` makes of a date given as RFC 2822: what it parses, formatted after
/// `format`, or `None` where it parses nothing.
pub uninterp spec fn rfc2822_label(text: Seq<char>, format: Seq<char>) -> Option<Seq<char>>;

/// What `chrono` makes of a date written after `pattern`: what it parses, formatted
/// after `format`, or `None` where it parses nothing.
pub uninterp spec fn pattern_label(text: Seq<char>, pattern: Seq<char>, format: Seq<char>)
    -> Option<Seq<char>>;

/// What is shown where there is no date, or none that can be read: five spaces.
pub open spec fn blank_label() -> Seq<char> {
    "     "@
}

/// How a date is shown: the day of the month in two digits, and the short name of the
/// month.
pub open spec fn label_format() -> Seq<char> {
    "%d %b"@
}

/// The patterns that a date without a time is read by, in the order in which they are
/// tried: year first, then day first, then month first.
pub open spec fn date_patterns() -> Seq<Seq<char>> {
    seq!["%Y-%m-%d"@, "%d/%m/%Y"@, "%m/%d/%Y"@]
}

/// What is shown for the date `text`: the label of the first reading that succeeds, as
/// RFC 3339, as RFC 2822, and by each of `date_patterns`; blank where none does.
pub open spec fn read_label(text: Seq<char>) -> Seq<char> {
    if rfc3339_label(text, label_format()) is Some {
        rfc3339_label(text, label_format())->0
    } else if rfc2822_label(text, label_format()) is Some {
        rfc2822_label(text, label_format())->0
    } else if pattern_label(text, date_patterns()[0], label_format()) is Some {
        pattern_label(text, date_patterns()[0], label_format())->0
    } else if pattern_label(text, date_patterns()[1], label_format()) is Some {
        pattern_label(text, date_patterns()[1], label_format())->0
    } else if pattern_label(text, date_patterns()[2], label_format()) is Some {
        pattern_label(text, date_patterns()[2], label_format())->0
    } else {
        blank_label()
    }
}

/// What is shown for the date of an entry: blank where it has none or an empty one.
pub open spec fn date_label(date: Option<Seq<char>>) -> Seq<char> {
    match date {
        Some(text) => if text.len() > 0 {
            read_label(text)
        } else {
            blank_label()
        },
        None => blank_label(),
    }
}

/// Reads `text` as RFC 3339 and formats it after `format`.
///
/// Trusted: calls `chrono::DateTime::parse_from_rfc3339` and `format` on what it gives.
/// The contract says no more than that the outcome depends on the characters of the text
/// and of the format alone. The one format admitted is `label_format`, which `chrono`
/// knows: on a format that it does not know, writing the result out would panic.
#[verifier::external_body]
fn label_rfc3339(text: &str, format: &str) -> (r: Option<String>)
    requires
        format@ == label_format(),
    ensures
        r.deep_view() == rfc3339_label(text@, format@),
{
    match chrono::DateTime::parse_from_rfc3339(text) {
        Ok(at) => Some(at.format(format).to_string()),
        Err(_) => None,
    }
}

/// Reads `text` as RFC 2822 and formats it after `format`.
///
/// Trusted: calls `chrono::DateTime::parse_from_rfc2822` and `format` on what it gives.
/// The contract says no more than that the outcome depends on the characters of the text
/// and of the format alone. The one format admitted is `label_format`.
#[verifier::external_body]
fn label_rfc2822(text: &str, format: &str) -> (r: Option<String>)
    requires
        format@ == label_format(),
    ensures
        r.deep_view() == rfc2822_label(text@, format@),
{
    match chrono::DateTime::parse_from_rfc2822(text) {
        Ok(at) => Some(at.format(format).to_string()),
        Err(_) => None,
    }
}

/// Reads `text` as a date written after `pattern` and formats it after `format`.
///
/// Trusted: calls `chrono::NaiveDate::parse_from_str` and `format` on what it gives. The
/// contract says no more than that the outcome depends on the characters of the text, of
/// the pattern and of the format alone. The patterns admitted are those of
/// `date_patterns`, and the one format is `label_format`.
#[verifier::external_body]
fn label_pattern(text: &str, pattern: &str, format: &str) -> (r: Option<String>)
    requires
        date_patterns().contains(pattern@),
        format@ == label_format(),
    ensures
        r.deep_view() == pattern_label(text@, pattern@, format@),
{
    match chrono::NaiveDate::parse_from_str(text, pattern) {
        Ok(on) => Some(on.format(format).to_string()),
        Err(_) => None,
    }
}

/// What is shown where there is no date, or none that can be read.
pub fn blank() -> (r: String)
    ensures
        r@ == blank_label(),
{
    "     ".to_owned()
}

/// What is shown for the date of an entry: day and month, such as `02 May`, and five
/// spaces where the entry has no date or one that cannot be read.
pub fn format_entry_date(date_str: Option<&str>) -> (r: String)
    ensures
        r@ == date_label(date_str.deep_view()),
{
    let text = match date_str {
        Some(text) => text,
        None => {
            return blank();
        },
    };
    if text.is_empty() {
        return blank();
    }
    let format = "%d %b";
    assert(date_patterns()[0] == "%Y-%m-%d"@ && date_patterns()[1] == "%d/%m/%Y"@
        && date_patterns()[2] == "%m/%d/%Y"@);
    if let Some(label) = label_rfc3339(text, format) {
        return label;
    }
    if let Some(label) = label_rfc2822(text, format) {
        return label;
    }
    if let Some(label) = label_pattern(text, "%Y-%m-%d", format) {
        return label;
    }
    if let Some(label) = label_pattern(text, "%d/%m/%Y", format) {
        return label;
    }
    if let Some(label) = label_pattern(text, "%m/%d/%Y", format) {
        return label;
    }
    blank()
}

} // verus!
