//! Numbers written in decimal inside text: the thread identifier carried by a
//! thread URL (a `t-<digits>` segment) and plain unsigned integers.
use vstd::prelude::*;
use crate::ingest::{first_capture, first_capture_of};

verus! {

pub open spec fn is_digit(c: char) -> bool {
    '0' <= c && c <= '9'
}

pub open spec fn digit_value(c: char) -> nat {
    (c as u32 - '0' as u32) as nat
}

pub open spec fn all_digits(d: Seq<char>) -> bool {
    forall|k: int| 0 <= k < d.len() ==> is_digit(#[trigger] d[k])
}

/// The number written by the decimal digits `d`, most significant first.
pub open spec fn digits_value(d: Seq<char>) -> nat
    decreases d.len(),
{
    if d.len() == 0 {
        0
    } else {
        digits_value(d.drop_last()) * 10 + digit_value(d.last())
    }
}

/// The pattern of the identifier segment of a thread URL.
pub open spec fn id_pattern() -> Seq<char> {
    "t-(\\d+)/?"@
}

fn id_pattern_str() -> (r: &'static str)
    ensures
        r@ == id_pattern(),
{
    "t-(\\d+)/?"
}

/// The identifier of a thread URL: the digits of its first `t-<digits>`
/// segment, read as a `u64`.
pub open spec fn url_id(s: Seq<char>) -> Option<u64> {
    match first_capture_of(id_pattern(), s) {
        Some(d) => parsed_u64(d),
        None => None,
    }
}

/// The unsigned integer written by `s`: an optional `+`, then one or more
/// digits, of a value that fits in a `u64`.
pub open spec fn parsed_u64(s: Seq<char>) -> Option<u64> {
    let d = if s.len() > 0 && s[0] == '+' {
        s.drop_first()
    } else {
        s
    };
    if d.len() > 0 && all_digits(d) && digits_value(d) <= u64::MAX {
        Some(digits_value(d) as u64)
    } else {
        None
    }
}

/// Reads the digits `s[from..to]` as a number; `None` when it exceeds `u64`.
fn read_digits(s: &Vec<char>, from: usize, to: usize) -> (r: Option<u64>)
    requires
        from <= to <= s@.len(),
        all_digits(s@.subrange(from as int, to as int)),
    ensures
        r == (if digits_value(s@.subrange(from as int, to as int)) <= u64::MAX {
            Some(digits_value(s@.subrange(from as int, to as int)) as u64)
        } else {
            None
        }),
{
    let mut acc: u64 = 0;
    let mut big = false;
    let mut j = from;
    while j < to
        invariant
            from <= j <= to <= s@.len(),
            all_digits(s@.subrange(from as int, to as int)),
            big ==> digits_value(s@.subrange(from as int, j as int)) > u64::MAX,
            !big ==> digits_value(s@.subrange(from as int, j as int)) == acc,
        decreases to - j,
    {
        let c = s[j];
        assert(s@.subrange(from as int, to as int)[j - from] == c);
        let d = (c as u32 - '0' as u32) as u64;
        let ghost prev = s@.subrange(from as int, j as int);
        let ghost next = s@.subrange(from as int, j + 1);
        assert(next.drop_last() =~= prev);
        assert(digits_value(next) == digits_value(prev) * 10 + d);
        if !big {
            if acc > (u64::MAX - d) / 10 {
                big = true;
                assert(digits_value(next) > u64::MAX) by (nonlinear_arith)
                    requires
                        acc > (u64::MAX - d) / 10,
                        digits_value(next) == acc * 10 + d,
                        d <= 9,
                ;
            } else {
                assert(acc * 10 + d <= u64::MAX) by (nonlinear_arith)
                    requires
                        acc <= (u64::MAX - d) / 10,
                        d <= 9,
                ;
                acc = acc * 10 + d;
            }
        } else {
            assert(digits_value(next) >= digits_value(prev)) by (nonlinear_arith)
                requires
                    digits_value(next) == digits_value(prev) * 10 + d,
            ;
        }
        j += 1;
    }
    if big {
        None
    } else {
        Some(acc)
    }
}

/// Reads an unsigned integer written in decimal, with an optional leading `+`.
pub fn parse_u64(s: &Vec<char>) -> (r: Option<u64>)
    ensures
        r == parsed_u64(s@),
{
    let from: usize = if s.len() > 0 && s[0] == '+' {
        1
    } else {
        0
    };
    let ghost d = s@.subrange(from as int, s@.len() as int);
    assert(d =~= (if s@.len() > 0 && s@[0] == '+' {
        s@.drop_first()
    } else {
        s@
    }));
    if from == s.len() {
        return None;
    }
    let mut k = from;
    while k < s.len()
        invariant
            from <= k <= s@.len(),
            d == s@.subrange(from as int, s@.len() as int),
            d == (if s@.len() > 0 && s@[0] == '+' {
                s@.drop_first()
            } else {
                s@
            }),
            forall|m: int| from <= m < k ==> is_digit(#[trigger] s@[m]),
        decreases s@.len() - k,
    {
        if !('0' <= s[k] && s[k] <= '9') {
            assert(d[k - from] == s@[k as int]);
            assert(!all_digits(d));
            return None;
        }
        k += 1;
    }
    assert(all_digits(d)) by {
        assert forall|m: int| 0 <= m < d.len() implies is_digit(#[trigger] d[m]) by {
            assert(d[m] == s@[m + from]);
        }
    }
    read_digits(s, from, s.len())
}

/// The thread identifier carried by a URL (see `url_id`).
pub fn find_id(url: &str) -> (r: Option<u64>)
    ensures
        r == url_id(url@),
{
    match first_capture(id_pattern_str(), url) {
        None => None,
        Some(d) => parse_u64(&crate::text::chars_of(d.as_str())),
    }
}

} // verus!
