use vstd::prelude::*;

use crate::dates::Date;
use crate::textnorm::push_char;

verus! {

/// The character for one decimal digit.
pub open spec fn digit_char(d: int) -> char {
    if d == 0 {
        '0'
    } else if d == 1 {
        '1'
    } else if d == 2 {
        '2'
    } else if d == 3 {
        '3'
    } else if d == 4 {
        '4'
    } else if d == 5 {
        '5'
    } else if d == 6 {
        '6'
    } else if d == 7 {
        '7'
    } else if d == 8 {
        '8'
    } else {
        '9'
    }
}

/// A number written with two digits, zero-padded.
pub open spec fn two_digits(n: int) -> Seq<char> {
    seq![digit_char(n / 10 % 10), digit_char(n % 10)]
}

/// A number written with four digits, zero-padded.
pub open spec fn four_digits(n: int) -> Seq<char> {
    seq![
        digit_char(n / 1000 % 10),
        digit_char(n / 100 % 10),
        digit_char(n / 10 % 10),
        digit_char(n % 10),
    ]
}

/// A date written as `YYYY-MM-DD`.
pub open spec fn date_text(d: Date) -> Seq<char> {
    four_digits(d.year as int) + seq!['-'] + two_digits(d.month as int) + seq!['-'] + two_digits(
        d.day as int,
    )
}

/// Where one run's merged table is persisted: a name derived from nothing but
/// the requested interval's start and end dates, inside the output directory.
pub open spec fn output_path_text(start: Date, end: Date) -> Seq<char> {
    "output/curtailment_"@ + date_text(start) + "_"@ + date_text(end) + ".parquet"@
}

fn digit_to_char(d: u32) -> (r: char)
    requires
        d <= 9,
    ensures
        r == digit_char(d as int),
{
    match d {
        0 => '0',
        1 => '1',
        2 => '2',
        3 => '3',
        4 => '4',
        5 => '5',
        6 => '6',
        7 => '7',
        8 => '8',
        _ => '9',
    }
}

fn push_two_digits(out: &mut String, n: u32)
    requires
        n <= 99,
    ensures
        final(out)@ == old(out)@ + two_digits(n as int),
{
    push_char(out, digit_to_char(n / 10));
    push_char(out, digit_to_char(n % 10));
    proof {
        assert(out@ =~= old(out)@ + two_digits(n as int));
    }
}

fn push_four_digits(out: &mut String, n: u32)
    requires
        n <= 9999,
    ensures
        final(out)@ == old(out)@ + four_digits(n as int),
{
    push_char(out, digit_to_char(n / 1000));
    push_char(out, digit_to_char(n / 100 % 10));
    push_char(out, digit_to_char(n / 10 % 10));
    push_char(out, digit_to_char(n % 10));
    proof {
        assert(out@ =~= old(out)@ + four_digits(n as int));
    }
}

fn push_date_text(out: &mut String, d: &Date)
    requires
        d.wf(),
    ensures
        final(out)@ == old(out)@ + date_text(*d),
{
    push_four_digits(out, d.year);
    push_char(out, '-');
    push_two_digits(out, d.month);
    push_char(out, '-');
    push_two_digits(out, d.day);
    proof {
        assert(out@ =~= old(out)@ + date_text(*d));
    }
}

/// The directory all output artifacts live in.
pub fn output_dir() -> (r: &'static str)
    ensures
        r@ == "output"@,
{
    "output"
}

/// Derives the output file path for a requested interval. The same interval
/// always yields the same path, so a later run for it overwrites the file.
pub fn output_path(start: &Date, end: &Date) -> (r: String)
    requires
        start.wf(),
        end.wf(),
    ensures
        r@ == output_path_text(*start, *end),
{
    let mut out = String::from_str("output/curtailment_");
    push_date_text(&mut out, start);
    push_char(&mut out, '_');
    push_date_text(&mut out, end);
    let r = out.concat(".parquet");
    proof {
        reveal_strlit("_");
        assert(r@ =~= output_path_text(*start, *end));
    }
    r
}

} // verus!
