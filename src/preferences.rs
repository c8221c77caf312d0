use vstd::prelude::*;

use crate::error::{bad_request, AppError};
use crate::text::{chars_of, is_ascii_alnum, lower_chars, lower_seq, string_of, trim_chars, trim_ws};

verus! {

pub open spec fn given_or(input: Option<&str>, default: Seq<char>) -> Seq<char> {
    match input {
        Some(s) => s@,
        None => default,
    }
}

pub open spec fn timezone_char(c: char) -> bool {
    is_ascii_alnum(c) || c == '/' || c == '_' || c == '-' || c == '+'
}

pub open spec fn locale_char(c: char) -> bool {
    is_ascii_alnum(c) || c == '-' || c == '_'
}

fn given_chars(input: Option<&str>, default: &str) -> (r: Vec<char>)
    ensures
        r@ == trim_ws(given_or(input, default@)),
{
    match input {
        Some(s) => trim_chars(&chars_of(s), false),
        None => trim_chars(&chars_of(default), false),
    }
}

/// Whether every character passes the test of `timezone` (else of a locale).
fn all_allowed(v: &Vec<char>, timezone: bool) -> (r: bool)
    ensures
        r == forall|i: int|
            0 <= i < v@.len() ==> if timezone {
                timezone_char(#[trigger] v@[i])
            } else {
                locale_char(v@[i])
            },
{
    let mut i: usize = 0;
    while i < v.len()
        invariant
            i <= v@.len(),
            forall|k: int|
                0 <= k < i ==> if timezone {
                    timezone_char(#[trigger] v@[k])
                } else {
                    locale_char(v@[k])
                },
        decreases v@.len() - i,
    {
        let c = v[i];
        let alnum = ('a' <= c && c <= 'z') || ('A' <= c && c <= 'Z') || ('0' <= c && c <= '9');
        let ok = if timezone {
            alnum || c == '/' || c == '_' || c == '-' || c == '+'
        } else {
            alnum || c == '-' || c == '_'
        };
        if !ok {
            return false;
        }
        i = i + 1;
    }
    true
}

/// A time-zone name: trimmed, `UTC` when absent or blank; at most 64
/// characters of ASCII letters, digits and `/ _ - +`, else a `BadRequest`.
pub fn normalize_timezone(input: Option<&str>) -> (r: Result<String, AppError>)
    ensures
        ({
            let t = trim_ws(given_or(input, "UTC"@));
            &&& t.len() == 0 ==> (r matches Ok(s) && s@ == "UTC"@)
            &&& t.len() > 0 ==> (r is Ok <==> (t.len() <= 64 && forall|i: int|
                0 <= i < t.len() ==> timezone_char(#[trigger] t[i])))
            &&& t.len() > 0 ==> (r matches Ok(s) ==> s@ == t)
            &&& r matches Err(e) ==> e is BadRequest
        }),
{
    let t = given_chars(input, "UTC");
    if t.len() == 0 {
        return Ok(String::from_str("UTC"));
    }
    if t.len() > 64 {
        return Err(bad_request("Timezone is too long"));
    }
    if !all_allowed(&t, true) {
        return Err(bad_request("Invalid timezone format"));
    }
    Ok(string_of(t.as_slice()))
}

/// A locale tag: trimmed, `en-GB` when absent or blank; at most 16
/// characters of ASCII letters, digits, `-` and `_`, else a `BadRequest`.
pub fn normalize_locale(input: Option<&str>) -> (r: Result<String, AppError>)
    ensures
        ({
            let t = trim_ws(given_or(input, "en-GB"@));
            &&& t.len() == 0 ==> (r matches Ok(s) && s@ == "en-GB"@)
            &&& t.len() > 0 ==> (r is Ok <==> (t.len() <= 16 && forall|i: int|
                0 <= i < t.len() ==> locale_char(#[trigger] t[i])))
            &&& t.len() > 0 ==> (r matches Ok(s) ==> s@ == t)
            &&& r matches Err(e) ==> e is BadRequest
        }),
{
    let t = given_chars(input, "en-GB");
    if t.len() == 0 {
        return Ok(String::from_str("en-GB"));
    }
    if t.len() > 16 {
        return Err(bad_request("Locale is too long"));
    }
    if !all_allowed(&t, false) {
        return Err(bad_request("Invalid locale format"));
    }
    Ok(string_of(t.as_slice()))
}

pub open spec fn is_date_format(s: Seq<char>) -> bool {
    s == "locale"@ || s == "dd-mm-yyyy"@ || s == "dd_month_yyyy"@ || s == "mm/dd/yyyy"@
}

pub open spec fn is_time_format(s: Seq<char>) -> bool {
    s == "24h"@ || s == "12h"@
}

/// A date format, trimmed and lower-cased (`locale` when absent): one of
/// `locale`, `dd-mm-yyyy`, `dd_month_yyyy`, `mm/dd/yyyy`, else a `BadRequest`.
pub fn normalize_date_format(input: Option<&str>) -> (r: Result<String, AppError>)
    ensures
        ({
            let t = lower_seq(trim_ws(given_or(input, "locale"@)));
            &&& r is Ok <==> is_date_format(t)
            &&& r matches Ok(s) ==> s@ == t
            &&& r matches Err(e) ==> e is BadRequest
        }),
{
    let t = string_of(lower_chars(&given_chars(input, "locale")).as_slice());
    let ok = t == String::from_str("locale") || t == String::from_str("dd-mm-yyyy") || t
        == String::from_str("dd_month_yyyy") || t == String::from_str("mm/dd/yyyy");
    if ok {
        Ok(t)
    } else {
        Err(bad_request("Invalid date_format"))
    }
}

/// A time format, trimmed and lower-cased (`24h` when absent): `24h` or
/// `12h`, else a `BadRequest`.
pub fn normalize_time_format(input: Option<&str>) -> (r: Result<String, AppError>)
    ensures
        ({
            let t = lower_seq(trim_ws(given_or(input, "24h"@)));
            &&& r is Ok <==> is_time_format(t)
            &&& r matches Ok(s) ==> s@ == t
            &&& r matches Err(e) ==> e is BadRequest
        }),
{
    let t = string_of(lower_chars(&given_chars(input, "24h")).as_slice());
    if t == String::from_str("24h") || t == String::from_str("12h") {
        Ok(t)
    } else {
        Err(bad_request("Invalid time_format"))
    }
}

/// The first day of the week, 1 to 7 (Monday when absent), else a `BadRequest`.
pub fn normalize_week_start(input: Option<u8>) -> (r: Result<u8, AppError>)
    ensures
        ({
            let w = match input {
                Some(v) => v,
                None => 1u8,
            };
            &&& r is Ok <==> 1 <= w <= 7
            &&& r matches Ok(v) ==> v == w
            &&& r matches Err(e) ==> e is BadRequest
        }),
{
    let w = match input {
        Some(v) => v,
        None => 1,
    };
    if w < 1 || w > 7 {
        Err(bad_request("week_start must be in range 1..7"))
    } else {
        Ok(w)
    }
}

} // verus!
