//! Calendar days, identified by their number in the proleptic Gregorian calendar
//! (January 1 of year 1 is day 1), and their `YYYY-MM-DD` text, both as `chrono` computes them.
use vstd::prelude::*;

verus! {

/// The text `%Y-%m-%d` that `chrono` gives the day with the given number, if `chrono` can
/// represent that day.
pub uninterp spec fn chrono_date_text(days_from_ce: i32) -> Option<Seq<char>>;

/// What `chrono` reads from a `%Y-%m-%d` text: the number of the day, or the text of its
/// parse error.
pub uninterp spec fn chrono_parse_date(text: Seq<char>) -> Result<i32, Seq<char>>;

/// The file stem that `Path::file_stem` finds in a path: the file name without its last
/// extension.
pub uninterp spec fn std_file_stem(path: Seq<char>) -> Option<Seq<char>>;

/// The day of 1970-01-01.
pub open spec fn unix_epoch_day() -> int {
    719_163
}

/// A character of a `%Y-%m-%d` text: a digit, `-`, or the `+` of a year past 9999.
pub open spec fn is_date_char(c: char) -> bool {
    ('0' <= c && c <= '9') || c == '-' || c == '+'
}

/// A non-empty text of date characters.
pub open spec fn is_date_text(t: Seq<char>) -> bool {
    t.len() > 0 && forall|i: int| 0 <= i < t.len() ==> is_date_char(#[trigger] t[i])
}

/// `NaiveDate::from_num_days_from_ce_opt` then `format("%Y-%m-%d")`: the text of the day with
/// the given number, or nothing when the day is out of `chrono`'s range. The text holds digits
/// and `-`, and a sign before a year outside `0..=9999`; `parse_from_str` with the same format
/// reads it back as the same day (`%Y` is read with or without a sign).
#[verifier::external_body]
fn chrono_day_text(days_from_ce: i32) -> (res: Option<String>)
    ensures
        match res {
            Some(t) => chrono_date_text(days_from_ce) == Some(t@) && chrono_parse_date(t@) == Ok::<
                i32,
                Seq<char>,
            >(days_from_ce) && is_date_text(t@),
            None => chrono_date_text(days_from_ce) is None,
        },
{
    match chrono::NaiveDate::from_num_days_from_ce_opt(days_from_ce) {
        Some(d) => Some(d.format("%Y-%m-%d").to_string()),
        None => None,
    }
}

/// `NaiveDate::parse_from_str(text, "%Y-%m-%d")` then `num_days_from_ce`: the number of the
/// day, or `chrono`'s parse error as text (its `Display`). The format is fixed here because a
/// general format string can make the formatting side of `chrono` fail.
#[verifier::external_body]
fn chrono_parse_day(text: &str) -> (res: Result<i32, String>)
    ensures
        match res {
            Ok(d) => chrono_parse_date(text@) == Ok::<i32, Seq<char>>(d),
            Err(e) => chrono_parse_date(text@) == Err::<i32, Seq<char>>(e@),
        },
{
    match chrono::NaiveDate::parse_from_str(text, "%Y-%m-%d") {
        Ok(d) => Ok(chrono::Datelike::num_days_from_ce(&d)),
        Err(err) => Err(err.to_string()),
    }
}

/// `DateTime::from_timestamp(secs, 0)` then `date_naive().num_days_from_ce()`: the UTC day of a
/// UNIX timestamp. `chrono`'s source computes it as `secs.div_euclid(86_400) + 719_163` and
/// gives nothing exactly when that day is out of its range.
#[verifier::external_body]
fn chrono_utc_day(unix_secs: i64) -> (res: Option<i32>)
    ensures
        match res {
            Some(d) => d == unix_secs / 86_400 + unix_epoch_day() && chrono_date_text(d) is Some,
            None => !(i32::MIN <= unix_secs / 86_400 + unix_epoch_day() <= i32::MAX)
                || chrono_date_text((unix_secs / 86_400 + unix_epoch_day()) as i32) is None,
        },
{
    match chrono::DateTime::from_timestamp(unix_secs, 0) {
        Some(dt) => Some(chrono::Datelike::num_days_from_ce(&dt.date_naive())),
        None => None,
    }
}

/// A file name stem that holds no separator and no dot, and is not empty.
pub open spec fn is_plain_stem(t: Seq<char>) -> bool {
    &&& t.len() > 0
    &&& forall|i: int| 0 <= i < t.len() ==> #[trigger] t[i] != '/' && t[i] != '\\' && t[i] != '.'
}

/// The path ends in `/`, then `t` and `.md`, for a plain stem `t`.
pub open spec fn is_md_file_path(path: Seq<char>, t: Seq<char>) -> bool {
    &&& is_plain_stem(t)
    &&& path.len() >= t.len() + 4
    &&& path.subrange(path.len() - t.len() - 4, path.len() as int) == "/"@ + t + ".md"@
}

/// A date text is a plain file stem.
pub proof fn lemma_date_text_is_plain_stem(t: Seq<char>)
    requires
        is_date_text(t),
    ensures
        is_plain_stem(t),
{
    assert forall|i: int| 0 <= i < t.len() implies #[trigger] t[i] != '/' && t[i] != '\\' && t[i]
        != '.' by {
        assert(is_date_char(t[i]));
    }
}

/// `Path::new(path).file_stem()` as text. As `std` documents it, the stem of a path that ends
/// in `/` and `{t}.md`, for a plain stem `t`, is `t`: the last component is the file name, and
/// the stem is the part before its last dot.
#[verifier::external_body]
fn path_file_stem(path: &str) -> (res: Option<String>)
    ensures
        match res {
            Some(s) => std_file_stem(path@) == Some(s@) && forall|t: Seq<char>|
                #[trigger] is_md_file_path(path@, t) ==> s@ == t,
            None => std_file_stem(path@) is None && forall|t: Seq<char>|
                !#[trigger] is_md_file_path(path@, t),
        },
{
    match std::path::Path::new(path).file_stem() {
        Some(stem) => Some(stem.to_string_lossy().into_owned()),
        None => None,
    }
}

/// The `YYYY-MM-DD` text of the day with the given number, if `chrono` can represent it.
pub fn day_text(days_from_ce: i32) -> (res: Option<String>)
    ensures
        match res {
            Some(t) => chrono_date_text(days_from_ce) == Some(t@) && chrono_parse_date(t@) == Ok::<
                i32,
                Seq<char>,
            >(days_from_ce) && is_date_text(t@),
            None => chrono_date_text(days_from_ce) is None,
        },
{
    chrono_day_text(days_from_ce)
}

/// The texts of a day and of the days before and after it.
pub struct DayTexts {
    pub date: String,
    pub yesterday: String,
    pub tomorrow: String,
}

/// The texts of the day with the given number and of its neighbours; nothing when one of the
/// three days is out of `chrono`'s range.
pub fn day_texts(days_from_ce: i32) -> (res: Option<DayTexts>)
    ensures
        match res {
            Some(t) => {
                &&& i32::MIN < days_from_ce < i32::MAX
                &&& chrono_date_text(days_from_ce) == Some(t.date@)
                &&& chrono_parse_date(t.date@) == Ok::<i32, Seq<char>>(days_from_ce)
                &&& is_date_text(t.date@)
                &&& chrono_date_text((days_from_ce - 1) as i32) == Some(t.yesterday@)
                &&& chrono_date_text((days_from_ce + 1) as i32) == Some(t.tomorrow@)
            },
            None => {
                ||| days_from_ce == i32::MIN
                ||| days_from_ce == i32::MAX
                ||| chrono_date_text(days_from_ce) is None
                ||| chrono_date_text((days_from_ce - 1) as i32) is None
                ||| chrono_date_text((days_from_ce + 1) as i32) is None
            },
        },
{
    if days_from_ce == i32::MIN || days_from_ce == i32::MAX {
        return None;
    }
    let date = match chrono_day_text(days_from_ce) {
        Some(t) => t,
        None => {
            return None;
        },
    };
    let yesterday = match chrono_day_text(days_from_ce - 1) {
        Some(t) => t,
        None => {
            return None;
        },
    };
    let tomorrow = match chrono_day_text(days_from_ce + 1) {
        Some(t) => t,
        None => {
            return None;
        },
    };
    Some(DayTexts { date, yesterday, tomorrow })
}

/// The catchup date of a UNIX timestamp: the `YYYY-MM-DD` text of its UTC day, or nothing when
/// the day is out of `chrono`'s range.
pub fn format_catchup_date(unix_secs: i64) -> (res: Option<String>)
    ensures
        match res {
            Some(t) => {
                &&& i32::MIN <= unix_secs / 86_400 + unix_epoch_day() <= i32::MAX
                &&& chrono_date_text((unix_secs / 86_400 + unix_epoch_day()) as i32) == Some(t@)
            },
            None => !(i32::MIN <= unix_secs / 86_400 + unix_epoch_day() <= i32::MAX)
                || chrono_date_text((unix_secs / 86_400 + unix_epoch_day()) as i32) is None,
        },
{
    match chrono_utc_day(unix_secs) {
        Some(d) => chrono_day_text(d),
        None => None,
    }
}

/// The message prefix of a catchup date that cannot be read.
pub open spec fn invalid_date_prefix() -> Seq<char> {
    "invalid format, expected YYYY-MM-DD: "@
}

/// Reads a catchup date `YYYY-MM-DD` into its day number; the error names the expected format
/// and then gives `chrono`'s reason.
pub fn parse_catchup_date(date_text: &str) -> (res: Result<i32, String>)
    ensures
        match res {
            Ok(d) => chrono_parse_date(date_text@) == Ok::<i32, Seq<char>>(d),
            Err(e) => chrono_parse_date(date_text@) matches Err(reason) && e@ == invalid_date_prefix()
                + reason,
        },
{
    match chrono_parse_day(date_text) {
        Ok(d) => Ok(d),
        Err(reason) => {
            let mut msg = String::from_str("invalid format, expected YYYY-MM-DD: ");
            msg.append(reason.as_str());
            Err(msg)
        },
    }
}

/// The day of a navigation path such as `topic/2025-01-31.md`: its file stem read as a
/// `YYYY-MM-DD` date.
pub open spec fn nav_path_day(path: Seq<char>) -> Option<i32> {
    match std_file_stem(path) {
        Some(stem) => match chrono_parse_date(stem) {
            Ok(d) => Some(d),
            Err(_) => None,
        },
        None => None,
    }
}

/// Reads the day of a navigation path from its file stem.
pub fn extract_date_from_nav_path(path: &str) -> (res: Option<i32>)
    ensures
        res == nav_path_day(path@),
        forall|t: Seq<char>| #[trigger] is_md_file_path(path@, t) ==> std_file_stem(path@) == Some(t),
{
    match path_file_stem(path) {
        Some(stem) => match chrono_parse_day(stem.as_str()) {
            Ok(d) => Some(d),
            Err(_) => None,
        },
        None => None,
    }
}

} // verus!
