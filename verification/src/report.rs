//! The report of a finished scan, and the lines it is written out as.
//!
//! Two things are left to other code and stated here without proof: how
//! Rust quotes a string for debugging output, and how `chrono` writes a
//! point in time.

use crate::collector::texts;
use crate::text::{decimal, digit_char, digit_text, render_decimal, text_of};
use vstd::prelude::*;
use vstd::string::StringExecFns;

verus! {

/// The number of nanoseconds in a second.
pub const NANOS_PER_SECOND: u64 = 1000000000;

/// How a string is quoted by Rust's `Debug` formatting: in double quotes,
/// with the characters that need it escaped.
pub uninterp spec fn quoted_text(text: Seq<char>) -> Seq<char>;

/// What `chrono` writes for the point in time `seconds` after the start of
/// 1970 in UTC, under the format `pattern`; `None` where `chrono` cannot
/// represent that point in time.
pub uninterp spec fn utc_text(seconds: int, pattern: Seq<char>) -> Option<Seq<char>>;

/// Calls the `format` macro of std with `{:?}` on a string.
///
/// Assumed: the result depends on the characters of the string alone; it is
/// called `quoted_text`.
#[verifier::external_body]
fn quote(text: &str) -> (quoted: String)
    ensures
        quoted@ == quoted_text(text@),
{
    format!("{:?}", text)
}

/// Calls `chrono::DateTime::from_timestamp` with no nanoseconds, and on the
/// point in time it gives `chrono::DateTime::format` with `pattern`.
///
/// Assumed: the result depends on `seconds` and `pattern` alone; it is
/// called `utc_text`. The pattern is the one that the report uses, which
/// `chrono` accepts.
#[verifier::external_body]
fn format_utc(seconds: i64, pattern: &str) -> (text: Option<String>)
    requires
        pattern@ == "%Y-%m-%d %H:%M:%S"@,
    ensures
        text_of(text) == utc_text(seconds as int, pattern@),
{
    chrono::DateTime::from_timestamp(seconds, 0).map(|at| at.format(pattern).to_string())
}

/// The quoted items, separated by a comma and a space.
pub open spec fn joined(items: Seq<Seq<char>>) -> Seq<char>
    decreases items.len(),
{
    if items.len() == 0 {
        Seq::empty()
    } else if items.len() == 1 {
        quoted_text(items[0])
    } else {
        joined(items.drop_last()) + ", "@ + quoted_text(items.last())
    }
}

/// A list of strings as Rust's `Debug` formatting writes it: the quoted
/// items between square brackets, separated by a comma and a space.
pub open spec fn list_text(items: Seq<Seq<char>>) -> Seq<char> {
    "["@ + joined(items) + "]"@
}

/// The line that one run appends to the output file: the time in square
/// brackets, the host's name in angle brackets, and the list of entries.
pub open spec fn line_text(timestamp: Seq<char>, hostname: Seq<char>, entries: Seq<Seq<char>>) -> Seq<
    char,
> {
    "["@ + timestamp + "] <"@ + hostname + "> Open Ports: "@ + list_text(entries) + "\n"@
}

/// The first `places` digits after the decimal point of `part` nanoseconds
/// written in seconds, for `part` below one second, up to the last digit
/// that is not zero.
pub open spec fn fraction_digits(part: nat, places: nat) -> Seq<char>
    decreases places,
{
    if part == 0 || places == 0 {
        Seq::empty()
    } else {
        seq![digit_char(part * 10 / (NANOS_PER_SECOND as nat))] + fraction_digits(
            part * 10 % (NANOS_PER_SECOND as nat),
            (places - 1) as nat,
        )
    }
}

/// A time of `nanos` nanoseconds written in seconds: the whole seconds, and
/// where there is a fraction, a point and its digits without trailing
/// zeros.
pub open spec fn seconds_text(nanos: nat) -> Seq<char> {
    let whole = nanos / (NANOS_PER_SECOND as nat);
    let part = nanos % (NANOS_PER_SECOND as nat);
    if part == 0 {
        decimal(whole)
    } else {
        decimal(whole) + "."@ + fraction_digits(part, 9)
    }
}

/// The closing lines on the console: the list of entries and the time taken.
pub open spec fn summary_text(entries: Seq<Seq<char>>, elapsed_nanos: nat) -> Seq<char> {
    "\nOpen Ports: "@ + list_text(entries) + " \nPort scanning has been completed in "@
        + seconds_text(elapsed_nanos) + " second(s)!"@
}

/// Writes a list of strings as Rust's `Debug` formatting does.
pub fn format_list(items: &Vec<String>) -> (text: String)
    ensures
        text@ == list_text(texts(items@)),
{
    let mut inner = String::new();
    let mut i: usize = 0;
    while i < items.len()
        invariant
            i <= items.len(),
            inner@ == joined(texts(items@).subrange(0, i as int)),
        decreases items.len() - i,
    {
        let ghost before = texts(items@).subrange(0, i as int);
        let ghost after = texts(items@).subrange(0, i + 1);
        proof {
            assert(after.drop_last() =~= before);
            assert(after.last() == items[i as int]@);
        }
        if i > 0 {
            inner.append(", ");
        }
        let quoted = quote(items[i].as_str());
        inner.append(quoted.as_str());
        proof {
            if i == 0 {
                assert(inner@ =~= quoted_text(after[0]));
            }
        }
        i = i + 1;
    }
    assert(texts(items@).subrange(0, i as int) =~= texts(items@));
    let mut text = String::from_str("[");
    text.append(inner.as_str());
    text.append("]");
    text
}

/// Writes the point in time `seconds` after the start of 1970 in UTC as
/// year, month, day, hour, minute and second; `None` where it cannot be
/// represented.
pub fn utc_timestamp(seconds: i64) -> (text: Option<String>)
    ensures
        text_of(text) == utc_text(seconds as int, "%Y-%m-%d %H:%M:%S"@),
{
    format_utc(seconds, "%Y-%m-%d %H:%M:%S")
}

/// Writes a time of `nanos` nanoseconds in seconds.
pub fn format_seconds(nanos: u64) -> (text: String)
    ensures
        text@ == seconds_text(nanos as nat),
{
    let mut text = render_decimal(nanos / NANOS_PER_SECOND);
    let mut part: u64 = nanos % NANOS_PER_SECOND;
    if part == 0 {
        return text;
    }
    text.append(".");
    let mut places: u64 = 9;
    let ghost head = text@;
    let ghost all = fraction_digits(part as nat, places as nat);
    while part > 0 && places > 0
        invariant
            part < NANOS_PER_SECOND,
            head + all == text@ + fraction_digits(part as nat, places as nat),
        decreases places,
    {
        let ghost before = text@;
        let ghost rest = fraction_digits(
            (part as nat) * 10 % (NANOS_PER_SECOND as nat),
            (places - 1) as nat,
        );
        let digit = part * 10 / NANOS_PER_SECOND;
        text.append(digit_text(digit));
        proof {
            assert(fraction_digits(part as nat, places as nat) == seq![
                digit_char(digit as nat),
            ] + rest);
            assert(before + (seq![digit_char(digit as nat)] + rest) =~= text@ + rest);
        }
        part = part * 10 % NANOS_PER_SECOND;
        places = places - 1;
    }
    proof {
        assert(fraction_digits(part as nat, places as nat) =~= Seq::<char>::empty());
        assert(text@ =~= head + all);
    }
    text
}

/// The open ports of a finished scan, in the order of discovery, and the
/// time that the scan took.
pub struct ScanReport {
    hostname: String,
    ports: Vec<u16>,
    open_ports: Vec<String>,
    elapsed_nanos: u64,
}

impl ScanReport {
    /// The open ports in the order of discovery.
    pub closed spec fn reported(&self) -> Seq<u16> {
        self.ports@
    }

    /// The entries of the open ports in the order of discovery.
    pub closed spec fn entries(&self) -> Seq<Seq<char>> {
        texts(self.open_ports@)
    }

    /// The time that the scan took, in nanoseconds.
    pub closed spec fn elapsed(&self) -> int {
        self.elapsed_nanos as int
    }

    /// The name of the host that was scanned, as it was given.
    pub closed spec fn host(&self) -> Seq<char> {
        self.hostname@
    }

    /// A report on the host of the given ports, their entries and the time
    /// taken.
    pub fn new(
        hostname: String,
        ports: Vec<u16>,
        open_ports: Vec<String>,
        elapsed_nanos: u64,
    ) -> (report: ScanReport)
        ensures
            report.host() == hostname@,
            report.reported() == ports@,
            report.entries() == texts(open_ports@),
            report.elapsed() == elapsed_nanos,
    {
        ScanReport { hostname, ports, open_ports, elapsed_nanos }
    }

    /// The name of the host that was scanned, as it was given.
    pub fn hostname(&self) -> (name: &str)
        ensures
            name@ == self.host(),
    {
        self.hostname.as_str()
    }

    /// The open ports in the order of discovery.
    pub fn ports(&self) -> (ports: &Vec<u16>)
        ensures
            ports@ == self.reported(),
    {
        &self.ports
    }

    /// The entries of the open ports in the order of discovery.
    pub fn open_ports(&self) -> (entries: &Vec<String>)
        ensures
            texts(entries@) == self.entries(),
    {
        &self.open_ports
    }

    /// The time that the scan took, in nanoseconds.
    pub fn elapsed_nanos(&self) -> (nanos: u64)
        ensures
            nanos == self.elapsed(),
    {
        self.elapsed_nanos
    }

    /// The line that this run appends to the output file, for a time that
    /// has been written already.
    pub fn report_line(&self, timestamp: &str) -> (line: String)
        ensures
            line@ == line_text(timestamp@, self.host(), self.entries()),
    {
        let list = format_list(&self.open_ports);
        let mut line = String::from_str("[");
        line.append(timestamp);
        line.append("] <");
        line.append(self.hostname.as_str());
        line.append("> Open Ports: ");
        line.append(list.as_str());
        line.append("\n");
        line
    }

    /// The line that this run appends to the output file at the point in
    /// time `now_seconds` after the start of 1970; `None` where that point
    /// in time cannot be written.
    pub fn stamped_line(&self, now_seconds: i64) -> (line: Option<String>)
        ensures
            line is Some <==> utc_text(now_seconds as int, "%Y-%m-%d %H:%M:%S"@) is Some,
            line matches Some(text) ==> text@ == line_text(
                utc_text(now_seconds as int, "%Y-%m-%d %H:%M:%S"@)->0,
                self.host(),
                self.entries(),
            ),
    {
        match utc_timestamp(now_seconds) {
            Some(timestamp) => Some(self.report_line(timestamp.as_str())),
            None => None,
        }
    }

    /// The closing lines on the console.
    pub fn summary(&self) -> (text: String)
        ensures
            text@ == summary_text(self.entries(), self.elapsed() as nat),
    {
        let list = format_list(&self.open_ports);
        let seconds = format_seconds(self.elapsed_nanos);
        let mut text = String::from_str("\nOpen Ports: ");
        text.append(list.as_str());
        text.append(" \nPort scanning has been completed in ");
        text.append(seconds.as_str());
        text.append(" second(s)!");
        text
    }
}

} // verus!
