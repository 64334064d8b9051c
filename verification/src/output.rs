//! Output mode of a tick and the name of the file that it writes.
//!
//! Each tick writes one file, `data/<YYYY>/<MM>/<DD>/<height>_<unix
//! time>_<full|delta>.parquet`, where the day is that of the tick in UTC.
//! The numbers are written in decimal, without padding.

use vstd::prelude::*;
use vstd::string::*;

verus! {

/// Whether a tick dumps the whole pool or the changes since the last tick.
#[derive(Clone, Copy, Debug, PartialEq, Eq, Structural)]
pub enum Mode {
    /// The delta against an empty pool: every current entry as an added row.
    Full,
    /// The delta against the snapshot of the previous tick.
    Delta,
}

impl Mode {
    /// The suffix that marks the mode in a file name.
    pub open spec fn suffix_text(self) -> Seq<char> {
        match self {
            Mode::Full => "full"@,
            Mode::Delta => "delta"@,
        }
    }

    /// The suffix that marks the mode in a file name.
    pub fn suffix(&self) -> (text: &'static str)
        ensures
            text@ == self.suffix_text(),
    {
        match self {
            Mode::Full => "full",
            Mode::Delta => "delta",
        }
    }
}

/// The decimal digit `d`, as text.
pub open spec fn digit_text(d: nat) -> Seq<char>
    recommends
        d < 10,
{
    if d == 0 {
        "0"@
    } else if d == 1 {
        "1"@
    } else if d == 2 {
        "2"@
    } else if d == 3 {
        "3"@
    } else if d == 4 {
        "4"@
    } else if d == 5 {
        "5"@
    } else if d == 6 {
        "6"@
    } else if d == 7 {
        "7"@
    } else if d == 8 {
        "8"@
    } else {
        "9"@
    }
}

/// The decimal numeral of `n`, without leading zeros.
pub open spec fn decimal_text(n: nat) -> Seq<char>
    decreases n,
{
    if n < 10 {
        digit_text(n)
    } else {
        decimal_text(n / 10) + digit_text(n % 10)
    }
}

/// The decimal numeral of `n`, with a minus sign where `n` is negative.
pub open spec fn signed_decimal_text(n: int) -> Seq<char> {
    if n < 0 {
        "-"@ + decimal_text((-n) as nat)
    } else {
        decimal_text(n as nat)
    }
}

/// The name of the file of the tick at unix time `now` and chain height
/// `height`: `<height>_<now>_<suffix>.parquet`.
pub open spec fn file_name_text(height: u64, now: i64, mode: Mode) -> Seq<char> {
    decimal_text(height as nat) + "_"@ + signed_decimal_text(now as int) + "_"@ + mode.suffix_text()
        + ".parquet"@
}

/// The path of that file below the directory of the day `date`:
/// `data/<date>/<file name>`.
pub open spec fn path_text(date: Seq<char>, height: u64, now: i64, mode: Mode) -> Seq<char> {
    "data/"@ + date + "/"@ + file_name_text(height, now, mode)
}

/// The text of one decimal digit.
fn digit(d: u64) -> (text: &'static str)
    requires
        d < 10,
    ensures
        text@ == digit_text(d as nat),
{
    if d == 0 {
        "0"
    } else if d == 1 {
        "1"
    } else if d == 2 {
        "2"
    } else if d == 3 {
        "3"
    } else if d == 4 {
        "4"
    } else if d == 5 {
        "5"
    } else if d == 6 {
        "6"
    } else if d == 7 {
        "7"
    } else if d == 8 {
        "8"
    } else {
        "9"
    }
}

/// Appends the decimal numeral of `n` to `out`.
fn append_decimal(out: &mut String, n: u64)
    ensures
        final(out)@ == old(out)@ + decimal_text(n as nat),
    decreases n,
{
    if n >= 10 {
        append_decimal(out, n / 10);
    }
    out.append(digit(n % 10));
}

/// Appends the decimal numeral of `n`, signed where negative, to `out`.
fn append_signed_decimal(out: &mut String, n: i64)
    ensures
        final(out)@ == old(out)@ + signed_decimal_text(n as int),
{
    if n < 0 {
        out.append("-");
        let magnitude: u64 = (0 - (n as i128)) as u64;
        append_decimal(out, magnitude);
    } else {
        append_decimal(out, n as u64);
    }
}

/// The name of the file of one tick.
pub fn file_name(height: u64, now: i64, mode: Mode) -> (name: String)
    ensures
        name@ == file_name_text(height, now, mode),
{
    let mut name = String::new();
    append_decimal(&mut name, height);
    name.append("_");
    append_signed_decimal(&mut name, now);
    name.append("_");
    name.append(mode.suffix());
    name.append(".parquet");
    name
}

/// The path of the file of one tick, given the text of its day.
pub fn snapshot_path(date: &str, height: u64, now: i64, mode: Mode) -> (path: String)
    ensures
        path@ == path_text(date@, height, now, mode),
{
    let mut path = String::from_str("data/");
    path.append(date);
    path.append("/");
    let name = file_name(height, now, mode);
    path.append(name.as_str());
    path
}

} // verus!
