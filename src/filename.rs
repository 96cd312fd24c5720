//! Destination file names: `<date prefix><sanitized title>.<extension>`.
use vstd::prelude::*;
use crate::sanitize::{sanitize_filename, sanitized};
use crate::text::push_char;
use chrono::Datelike;

verus! {

/// A calendar date as read from an episode's publication date.
#[derive(Clone, Copy, Debug, PartialEq, Eq)]
pub struct PubDate {
    pub year: i32,
    pub month: u32,
    pub day: u32,
}

impl PubDate {
    pub open spec fn wf(&self) -> bool {
        1 <= self.month <= 12 && 1 <= self.day <= 31
    }

    pub open spec fn ymd(&self) -> (i32, u32, u32) {
        (self.year, self.month, self.day)
    }
}

/// The date that chrono's RFC 2822 parser reads from a string, in the
/// string's own offset, or `None` where it rejects the string.
pub uninterp spec fn rfc2822_date(s: Seq<char>) -> Option<(i32, u32, u32)>;

/// The date that chrono's strftime-style parser reads from a string with
/// the given format, or `None` where it rejects the string.
pub uninterp spec fn formatted_date(s: Seq<char>, fmt: Seq<char>) -> Option<(i32, u32, u32)>;

/// The extension of the last component of a path, as `Path::extension`
/// gives it.
pub uninterp spec fn path_extension(s: Seq<char>) -> Option<Seq<char>>;

pub open spec fn date_of(r: Option<PubDate>) -> Option<(i32, u32, u32)> {
    match r {
        Some(d) => Some(d.ymd()),
        None => None,
    }
}

/// Relies on `chrono::DateTime::parse_from_rfc2822` and chrono's `Datelike`
/// accessors: the local year, month (1 to 12) and day (1 to 31).
#[verifier::external_body]
fn parse_rfc2822_date(s: &str) -> (r: Option<PubDate>)
    ensures
        date_of(r) == rfc2822_date(s@),
        r matches Some(d) ==> d.wf(),
{
    chrono::DateTime::parse_from_rfc2822(s).ok().map(
        |d| PubDate { year: d.year(), month: d.month(), day: d.day() },
    )
}

/// Relies on `chrono::NaiveDateTime::parse_from_str` and chrono's `Datelike`
/// accessors: the year, month (1 to 12) and day (1 to 31).
#[verifier::external_body]
fn parse_date_with_format(s: &str, fmt: &str) -> (r: Option<PubDate>)
    ensures
        date_of(r) == formatted_date(s@, fmt@),
        r matches Some(d) ==> d.wf(),
{
    chrono::NaiveDateTime::parse_from_str(s, fmt).ok().map(
        |d| PubDate { year: d.year(), month: d.month(), day: d.day() },
    )
}

/// Relies on `std::path::Path::extension`: the part of the last path
/// component after its final `.`, if any.
#[verifier::external_body]
fn url_extension(url: &str) -> (r: Option<String>)
    ensures
        r matches Some(e) ==> path_extension(url@) == Some(e@),
        r is None ==> path_extension(url@) is None,
{
    std::path::Path::new(url).extension().and_then(|e| e.to_str()).map(|e| e.to_string())
}

pub open spec fn digit(n: nat) -> char {
    if n == 0 { '0' }
    else if n == 1 { '1' }
    else if n == 2 { '2' }
    else if n == 3 { '3' }
    else if n == 4 { '4' }
    else if n == 5 { '5' }
    else if n == 6 { '6' }
    else if n == 7 { '7' }
    else if n == 8 { '8' }
    else { '9' }
}

/// Decimal digits of `n`, without leading zeros.
pub open spec fn digits(n: nat) -> Seq<char>
    decreases n,
{
    if n < 10 {
        seq![digit(n)]
    } else {
        digits(n / 10).push(digit(n % 10))
    }
}

/// Decimal digits of `n`, zero-padded to at least four.
pub open spec fn digits4(n: nat) -> Seq<char> {
    if n < 10 {
        seq!['0', '0', '0'] + digits(n)
    } else if n < 100 {
        seq!['0', '0'] + digits(n)
    } else if n < 1000 {
        seq!['0'] + digits(n)
    } else {
        digits(n)
    }
}

/// A year as four digits; outside 0 to 9999 with an explicit sign.
pub open spec fn year_text(y: int) -> Seq<char> {
    if 0 <= y <= 9999 {
        digits4(y as nat)
    } else if y < 0 {
        seq!['-'] + digits4((-y) as nat)
    } else {
        seq!['+'] + digits4(y as nat)
    }
}

pub open spec fn two_digits(n: nat) -> Seq<char> {
    seq![digit(n / 10), digit(n % 10)]
}

/// `YYYY-MM-DD - ` for a date.
pub open spec fn date_prefix_text(d: (i32, u32, u32)) -> Seq<char> {
    year_text(d.0 as int) + seq!['-'] + two_digits(d.1 as nat) + seq!['-'] + two_digits(d.2 as nat)
        + seq![' ', '-', ' ']
}

/// The prefix for a publication date: the first parse that succeeds gives
/// it, and there is none where both fail.
pub open spec fn prefix_of(first: Option<(i32, u32, u32)>, second: Option<(i32, u32, u32)>) -> Seq<
    char,
> {
    match first {
        Some(d) => date_prefix_text(d),
        None => match second {
            Some(d) => date_prefix_text(d),
            None => Seq::empty(),
        },
    }
}

/// The layout tried when a publication date is not strict RFC 2822.
pub open spec fn fallback_layout() -> Seq<char> {
    seq!['%', 'a', ',', ' ', '%', 'd', ' ', '%', 'b', ' ', '%', 'Y', ' ', '%', 'H', ':', '%', 'M', ':', '%', 'S', ' ', '%', 'z']
}

/// The date prefix that a publication date string yields.
pub open spec fn pub_date_prefix(pub_date: Option<Seq<char>>) -> Seq<char> {
    match pub_date {
        Some(s) => prefix_of(rfc2822_date(s), formatted_date(s, fallback_layout())),
        None => Seq::empty(),
    }
}

pub open spec fn unknown_episode() -> Seq<char> {
    seq!['U', 'n', 'k', 'n', 'o', 'w', 'n', ' ', 'E', 'p', 'i', 's', 'o', 'd', 'e']
}

pub open spec fn mp3() -> Seq<char> {
    seq!['m', 'p', '3']
}

pub open spec fn opt_view(s: Option<&str>) -> Option<Seq<char>> {
    match s {
        Some(t) => Some(t@),
        None => None,
    }
}

/// The file name for a date prefix, an optional title and an optional
/// extension.
pub open spec fn filename_of(prefix: Seq<char>, title: Option<Seq<char>>, ext: Option<Seq<char>>) -> Seq<char> {
    let t = match title {
        Some(t) => t,
        None => unknown_episode(),
    };
    let e = match ext {
        Some(e) => e,
        None => mp3(),
    };
    prefix + sanitized(t) + seq!['.'] + e
}

fn push_digit(out: &mut String, n: u64)
    requires
        n < 10,
    ensures
        final(out)@ == old(out)@.push(digit(n as nat)),
{
    let c = if n == 0 { '0' }
    else if n == 1 { '1' }
    else if n == 2 { '2' }
    else if n == 3 { '3' }
    else if n == 4 { '4' }
    else if n == 5 { '5' }
    else if n == 6 { '6' }
    else if n == 7 { '7' }
    else if n == 8 { '8' }
    else { '9' };
    push_char(out, c);
}

pub(crate) fn push_digits(out: &mut String, n: u64)
    ensures
        final(out)@ == old(out)@ + digits(n as nat),
    decreases n,
{
    if n >= 10 {
        push_digits(out, n / 10);
        push_digit(out, n % 10);
        assert(out@ =~= old(out)@ + digits(n as nat));
    } else {
        push_digit(out, n);
        assert(out@ =~= old(out)@ + digits(n as nat));
    }
}

fn push_digits4(out: &mut String, n: u64)
    ensures
        final(out)@ == old(out)@ + digits4(n as nat),
{
    let ghost start = out@;
    if n < 1000 {
        push_char(out, '0');
    }
    if n < 100 {
        push_char(out, '0');
    }
    if n < 10 {
        push_char(out, '0');
    }
    push_digits(out, n);
    assert(out@ =~= start + digits4(n as nat));
}

/// Appends `YYYY-MM-DD - ` for a date.
pub fn push_date_prefix(out: &mut String, d: PubDate)
    requires
        d.wf(),
    ensures
        final(out)@ == old(out)@ + date_prefix_text(d.ymd()),
{
    let ghost start = out@;
    if 0 <= d.year && d.year <= 9999 {
        push_digits4(out, d.year as u64);
    } else if d.year < 0 {
        push_char(out, '-');
        let a: u64 = if d.year == i32::MIN { 2147483648u64 } else { (-d.year) as u64 };
        push_digits4(out, a);
    } else {
        push_char(out, '+');
        push_digits4(out, d.year as u64);
    }
    let ghost y = out@;
    assert(y == start + year_text(d.year as int));
    push_char(out, '-');
    push_digit(out, (d.month / 10) as u64);
    push_digit(out, (d.month % 10) as u64);
    push_char(out, '-');
    push_digit(out, (d.day / 10) as u64);
    push_digit(out, (d.day % 10) as u64);
    push_char(out, ' ');
    push_char(out, '-');
    push_char(out, ' ');
    assert(out@ =~= start + date_prefix_text(d.ymd()));
}

/// The date prefix for the results of the two date parsers: the first
/// that succeeded gives it; the prefix is empty where both failed.
pub fn date_prefix(first: Option<PubDate>, second: Option<PubDate>) -> (r: String)
    requires
        first matches Some(d) ==> d.wf(),
        second matches Some(d) ==> d.wf(),
    ensures
        r@ == prefix_of(date_of(first), date_of(second)),
{
    let mut out = String::new();
    match first {
        Some(d) => push_date_prefix(&mut out, d),
        None => match second {
            Some(d) => push_date_prefix(&mut out, d),
            None => {},
        },
    }
    assert(out@ =~= prefix_of(date_of(first), date_of(second)));
    out
}

/// The date prefix for an optional publication date string.
pub fn pub_date_prefix_of(pub_date: Option<&str>) -> (r: String)
    ensures
        r@ == pub_date_prefix(opt_view(pub_date)),
{
    match pub_date {
        Some(s) => {
            let first = parse_rfc2822_date(s);
            if first.is_some() {
                date_prefix(first, None)
            } else {
                let second = parse_date_with_format(s, "%a, %d %b %Y %H:%M:%S %z");
                proof {
                    reveal_strlit("%a, %d %b %Y %H:%M:%S %z");
                    assert("%a, %d %b %Y %H:%M:%S %z"@ =~= fallback_layout());
                }
                date_prefix(None, second)
            }
        },
        None => String::new(),
    }
}

/// Joins a date prefix, a title (or a placeholder) after sanitizing it, and
/// an extension (or `mp3`) into a file name.
pub fn compose_from_parts(prefix: &str, title: Option<&str>, extension: Option<&str>) -> (r: String)
    ensures
        r@ == filename_of(prefix@, opt_view(title), opt_view(extension)),
{
    let t = match title {
        Some(t) => t,
        None => "Unknown Episode",
    };
    proof {
        reveal_strlit("Unknown Episode");
        reveal_strlit("mp3");
        assert("Unknown Episode"@ =~= unknown_episode());
        assert("mp3"@ =~= mp3());
    }
    let clean = sanitize_filename(t);
    let e = match extension {
        Some(e) => e,
        None => "mp3",
    };
    let mut out = String::from_str(prefix);
    out.append(clean.as_str());
    push_char(&mut out, '.');
    out.append(e);
    assert(out@ =~= filename_of(prefix@, opt_view(title), opt_view(extension)));
    out
}

/// The destination file name of an episode: date prefix from the
/// publication date, sanitized title, and the extension of the URL's last
/// path segment. Defined for every input, an empty URL included; a date
/// that does not parse only drops the prefix.
pub fn compose_filename(pub_date: Option<&str>, title: Option<&str>, url: &str) -> (r: String)
    ensures
        r@ == filename_of(pub_date_prefix(opt_view(pub_date)), opt_view(title), path_extension(url@)),
{
    let prefix = pub_date_prefix_of(pub_date);
    let ext = url_extension(url);
    match ext {
        Some(e) => compose_from_parts(prefix.as_str(), title, Some(e.as_str())),
        None => compose_from_parts(prefix.as_str(), title, None),
    }
}

} // verus!
