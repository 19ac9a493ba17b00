//! The pagination extractor: raw query parameters to a validated
//! half-open window `[start, end)`.
//!
//! Query parameters arrive as an ordered list of key/value pairs.  An
//! empty list means "no pagination requested".  A non-empty list must
//! carry both `start` and `end`, each a non-negative decimal integer;
//! the extractor itself enforces no bound between them or against the
//! collection size — that is the slicing step's concern.

use vstd::prelude::*;
use vstd::string::StrSliceExecFns;

use crate::error::Error;
use crate::error::ParseIssue;

verus! {

/// A half-open pagination window `[start, end)` over the store's
/// stable iteration order.
#[derive(Clone, Copy, Debug, PartialEq, Eq, Structural)]
pub struct Pagination {
    pub start: usize,
    pub end: usize,
}

/// Whether `c` is a decimal digit.
pub open spec fn is_digit_char(c: char) -> bool {
    '0' as u32 <= c as u32 && c as u32 <= '9' as u32
}

/// The numeric value of a decimal digit.
pub open spec fn digit_val(c: char) -> int {
    c as u32 - '0' as u32
}

/// Runs left to right over `b` accumulating the decimal value, and
/// answers as a strict integer parser does: the first non-digit stops
/// it with `InvalidDigit`, the first accumulation past the index
/// type's maximum stops it with `Overflow`.
pub open spec fn scan_digits(b: Seq<char>, acc: nat) -> Result<usize, ParseIssue>
    decreases b.len(),
{
    if b.len() == 0 {
        if acc <= usize::MAX {
            Ok(acc as usize)
        } else {
            Err(ParseIssue::Overflow)
        }
    } else if !is_digit_char(b[0]) {
        Err(ParseIssue::InvalidDigit)
    } else if acc * 10 + digit_val(b[0]) > usize::MAX {
        Err(ParseIssue::Overflow)
    } else {
        scan_digits(b.drop_first(), (acc * 10 + digit_val(b[0])) as nat)
    }
}

/// The digits of `s` once an optional leading plus sign is taken off.
pub open spec fn numeric_body(s: Seq<char>) -> Seq<char> {
    if s.len() > 0 && s[0] == '+' {
        s.drop_first()
    } else {
        s
    }
}

/// What parsing `s` as a non-negative integer yields: the value, or
/// the issue a strict decimal parser reports first.
pub open spec fn parse_outcome(s: Seq<char>) -> Result<usize, ParseIssue> {
    if s.len() == 0 {
        Err(ParseIssue::Empty)
    } else if numeric_body(s).len() == 0 {
        Err(ParseIssue::InvalidDigit)
    } else {
        scan_digits(numeric_body(s), 0)
    }
}

/// Parses `s` as a non-negative decimal integer: an optional leading
/// `+`, then at least one digit, rejecting values past the index
/// type's maximum.
pub fn parse_usize(s: &str) -> (r: Result<usize, ParseIssue>)
    ensures
        r == parse_outcome(s@),
{
    let n = s.unicode_len();
    if n == 0 {
        return Err(ParseIssue::Empty);
    }
    let first = s.get_char(0);
    let off: usize = if first == '+' {
        1
    } else {
        0
    };
    if n == off {
        return Err(ParseIssue::InvalidDigit);
    }
    let ghost body = numeric_body(s@);
    proof {
        assert(body =~= s@.subrange(off as int, n as int));
    }
    let mut acc: usize = 0;
    let mut i: usize = off;
    proof {
        assert(body.skip(0) =~= body);
    }
    while i < n
        invariant
            off <= i <= n,
            n == s@.len(),
            body == numeric_body(s@),
            0 < body.len() == n - off,
            forall|k: int| 0 <= k < body.len() ==> body[k] == s@[k + off],
            scan_digits(body, 0) == scan_digits(body.skip(i - off), acc as nat),
        decreases n - i,
    {
        let ghost k = i - off;
        let c = s.get_char(i);
        proof {
            assert(body.skip(k)[0] == body[k]);
            assert(body[k] == s@[i as int]);
        }
        let u = c as u32;
        if u < 48 || u > 57 {
            proof {
                assert(!is_digit_char(body.skip(k)[0]));
                assert(scan_digits(body, 0) == Err::<usize, ParseIssue>(ParseIssue::InvalidDigit));
            }
            return Err(ParseIssue::InvalidDigit);
        }
        let d = u - 48;
        let wide: u128 = (acc as u128) * 10 + (d as u128);
        if wide > (usize::MAX as u128) {
            proof {
                assert(acc * 10 + digit_val(body.skip(k)[0]) > usize::MAX);
                assert(scan_digits(body, 0) == Err::<usize, ParseIssue>(ParseIssue::Overflow));
            }
            return Err(ParseIssue::Overflow);
        }
        acc = wide as usize;
        i = i + 1;
        proof {
            assert(body.skip(k).drop_first() =~= body.skip(i - off));
        }
    }
    proof {
        assert(body.skip(i - off) =~= Seq::<char>::empty());
        assert(scan_digits(body, 0) == Ok::<usize, ParseIssue>(acc));
    }
    Ok(acc)
}

/// The value the last pair with key `key` carries, if any: when a key
/// is repeated, the later occurrence wins.
pub open spec fn lookup(params: Seq<(Seq<char>, Seq<char>)>, key: Seq<char>) -> Option<Seq<char>>
    decreases params.len(),
{
    if params.len() == 0 {
        None
    } else if params.last().0 == key {
        Some(params.last().1)
    } else {
        lookup(params.drop_last(), key)
    }
}

/// Finds the value of the last pair carrying `key`.
fn get_param<'a>(params: &'a Vec<(String, String)>, key: &String) -> (r: Option<&'a String>)
    ensures
        match r {
            Some(v) => lookup(params.deep_view(), key@) == Some(v@),
            None => lookup(params.deep_view(), key@) is None,
        },
{
    let ghost pv = params.deep_view();
    let mut i: usize = params.len();
    proof {
        assert(pv.take(params.len() as int) =~= pv);
    }
    while i > 0
        invariant
            i <= params.len(),
            pv == params.deep_view(),
            pv.len() == params.len(),
            lookup(pv, key@) == lookup(pv.take(i as int), key@),
        decreases i,
    {
        let pair = &params[i - 1];
        proof {
            assert(pv[i - 1] == (pair.0@, pair.1@));
            assert(pv.take(i as int).last() == pv[i - 1]);
        }
        if pair.0 == *key {
            return Some(&pair.1);
        }
        proof {
            assert(pv.take(i as int).drop_last() =~= pv.take(i - 1));
        }
        i = i - 1;
    }
    proof {
        assert(pv.take(0) =~= Seq::<(Seq<char>, Seq<char>)>::empty());
    }
    None
}

/// What extraction yields on a parameter list: no window when the list
/// is empty; otherwise both `start` and `end` must be present (else
/// `MissingParameters`) and numeric (else `ParseError`, `start` being
/// checked first).
pub open spec fn spec_extract(params: Seq<(Seq<char>, Seq<char>)>) -> Result<
    Option<Pagination>,
    Error,
> {
    if params.len() == 0 {
        Ok(None)
    } else {
        match (lookup(params, "start"@), lookup(params, "end"@)) {
            (Some(sv), Some(ev)) => match parse_outcome(sv) {
                Err(pi) => Err(Error::ParseError(pi)),
                Ok(st) => match parse_outcome(ev) {
                    Err(pi) => Err(Error::ParseError(pi)),
                    Ok(en) => Ok(Some(Pagination { start: st, end: en })),
                },
            },
            _ => Err(Error::MissingParameters),
        }
    }
}

/// The pagination extractor.  `Ok(None)` says no pagination was
/// requested; `Ok(Some(p))` carries the parsed window, unchecked
/// against the collection size by design.
pub fn extract(params: &Vec<(String, String)>) -> (r: Result<Option<Pagination>, Error>)
    ensures
        r == spec_extract(params.deep_view()),
{
    if params.len() == 0 {
        return Ok(None);
    }
    let start_key = "start".to_owned();
    let end_key = "end".to_owned();
    let sv = get_param(params, &start_key);
    let ev = get_param(params, &end_key);
    match (sv, ev) {
        (Some(svs), Some(evs)) => match parse_usize(svs.as_str()) {
            Err(pi) => Err(Error::ParseError(pi)),
            Ok(st) => match parse_usize(evs.as_str()) {
                Err(pi) => Err(Error::ParseError(pi)),
                Ok(en) => Ok(Some(Pagination { start: st, end: en })),
            },
        },
        _ => Err(Error::MissingParameters),
    }
}

} // verus!
