use vstd::prelude::*;

use crate::dates::MonthKey;
use crate::dates::digit_of;
use crate::dates::digit_value;
use crate::dates::is_digit_char;
use crate::errors::PipelineError;

verus! {

/// A name ends with the dated pattern: exactly four year digits, an
/// underscore, exactly two month digits, and then the `.parquet` extension,
/// with no further digit directly in front of the year.
pub open spec fn has_dated_name(s: Seq<char>) -> bool {
    let n = s.len() as int;
    &&& n >= 15
    &&& is_digit_char(s[n - 15]) && is_digit_char(s[n - 14]) && is_digit_char(s[n - 13])
        && is_digit_char(s[n - 12])
    &&& s[n - 11] == '_'
    &&& is_digit_char(s[n - 10]) && is_digit_char(s[n - 9])
    &&& s[n - 8] == '.' && s[n - 7] == 'p' && s[n - 6] == 'a' && s[n - 5] == 'r'
        && s[n - 4] == 'q' && s[n - 3] == 'u' && s[n - 2] == 'e' && s[n - 1] == 't'
    &&& n == 15 || !is_digit_char(s[n - 16])
}

/// The year the dated pattern names.
pub open spec fn dated_name_year(s: Seq<char>) -> int {
    let n = s.len() as int;
    digit_value(s[n - 15]) * 1000 + digit_value(s[n - 14]) * 100 + digit_value(s[n - 13]) * 10
        + digit_value(s[n - 12])
}

/// The month number the dated pattern names.
pub open spec fn dated_name_month(s: Seq<char>) -> int {
    let n = s.len() as int;
    digit_value(s[n - 10]) * 10 + digit_value(s[n - 9])
}

/// The month a file name or reference resolves to: the named year and month
/// where the name ends in the dated pattern and the month number is a real
/// month, nothing otherwise.
pub open spec fn dated_name_month_key(s: Seq<char>) -> Option<MonthKey> {
    if has_dated_name(s) && 1 <= dated_name_month(s) <= 12 {
        Some(
            MonthKey {
                year: dated_name_year(s) as u32,
                month: dated_name_month(s) as u32,
            },
        )
    } else {
        None
    }
}

/// Extracts the month a file name or reference stands for. Exactly the names
/// that end in four digits, an underscore, two digits naming a real month,
/// and the `.parquet` extension resolve; every other string is rejected.
pub fn parse_dated_name(s: &str) -> (r: Result<MonthKey, PipelineError>)
    ensures
        r is Ok <==> dated_name_month_key(s@) is Some,
        r is Ok ==> Some(r->Ok_0) == dated_name_month_key(s@) && r->Ok_0.wf(),
        r is Err ==> r->Err_0 == PipelineError::FilenameParse,
{
    let n = s.unicode_len();
    if n < 15 {
        return Err(PipelineError::FilenameParse);
    }
    let ext_ok = s.get_char(n - 8) == '.' && s.get_char(n - 7) == 'p'
        && s.get_char(n - 6) == 'a' && s.get_char(n - 5) == 'r' && s.get_char(n - 4) == 'q'
        && s.get_char(n - 3) == 'u' && s.get_char(n - 2) == 'e' && s.get_char(n - 1) == 't';
    if !ext_ok {
        return Err(PipelineError::FilenameParse);
    }
    if s.get_char(n - 11) != '_' {
        return Err(PipelineError::FilenameParse);
    }
    if n >= 16 {
        if digit_of(s.get_char(n - 16)).is_some() {
            return Err(PipelineError::FilenameParse);
        }
    }
    let y0 = digit_of(s.get_char(n - 15));
    let y1 = digit_of(s.get_char(n - 14));
    let y2 = digit_of(s.get_char(n - 13));
    let y3 = digit_of(s.get_char(n - 12));
    let m0 = digit_of(s.get_char(n - 10));
    let m1 = digit_of(s.get_char(n - 9));
    match (y0, y1, y2, y3, m0, m1) {
        (Some(a), Some(b), Some(c), Some(d), Some(e), Some(f)) => {
            let year: u32 = a * 1000 + b * 100 + c * 10 + d;
            let month: u32 = e * 10 + f;
            if 1 <= month && month <= 12 {
                Ok(MonthKey { year, month })
            } else {
                Err(PipelineError::FilenameParse)
            }
        },
        _ => Err(PipelineError::FilenameParse),
    }
}

} // verus!
