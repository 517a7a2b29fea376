//! Parsing of textual IP literals into their numeric form.
//!
//! IPv4 dotted-quad literals are parsed here and proved against the grammar
//! below: four decimal octets, each one to three digits, no leading zeros,
//! value at most 255, separated by single dots. IPv6 literals go through a
//! trusted parse (see `geo`).

use vstd::prelude::*;
use vstd::string::StrSliceExecFns;

verus! {

/// A decimal digit.
pub open spec fn is_dec_digit(c: char) -> bool {
    '0' as u32 <= c as u32 && c as u32 <= '9' as u32
}

/// The value of one decimal digit.
pub open spec fn digit_val(c: char) -> int {
    c as u32 - '0' as u32
}

/// Every character of `s` is a decimal digit.
pub open spec fn all_digits(s: Seq<char>) -> bool {
    forall|i: int| 0 <= i < s.len() ==> is_dec_digit(#[trigger] s[i])
}

/// The decimal value of a digit run.
pub open spec fn dec_value(s: Seq<char>) -> int
    decreases s.len(),
{
    if s.len() == 0 {
        0
    } else {
        dec_value(s.drop_last()) * 10 + digit_val(s.last())
    }
}

/// A valid dotted-quad octet: one to three digits, no leading zero, value
/// at most 255.
pub open spec fn valid_octet(s: Seq<char>) -> bool {
    &&& 1 <= s.len() <= 3
    &&& all_digits(s)
    &&& s.len() > 1 ==> s[0] != '0'
    &&& dec_value(s) <= 255
}

/// `s` split on dots: always one more part than there are dots, in order,
/// with the dots removed.
pub open spec fn split_dots(s: Seq<char>) -> Seq<Seq<char>>
    decreases s.len(),
{
    if s.len() == 0 {
        seq![Seq::<char>::empty()]
    } else {
        let parts = split_dots(s.drop_last());
        if s.last() == '.' {
            parts.push(Seq::<char>::empty())
        } else {
            parts.update(parts.len() - 1, parts.last().push(s.last()))
        }
    }
}

/// A valid IPv4 literal: exactly four parts between the dots, each a valid
/// octet.
pub open spec fn valid_ipv4(s: Seq<char>) -> bool {
    let p = split_dots(s);
    &&& p.len() == 4
    &&& valid_octet(p[0])
    &&& valid_octet(p[1])
    &&& valid_octet(p[2])
    &&& valid_octet(p[3])
}

/// The 32-bit value of a valid IPv4 literal, in network order.
pub open spec fn ipv4_num(s: Seq<char>) -> int {
    let p = split_dots(s);
    dec_value(p[0]) * 0x1000000 + dec_value(p[1]) * 0x10000 + dec_value(p[2]) * 0x100 + dec_value(
        p[3],
    )
}

/// Splits a literal on dots, materializing the parts of `split_dots`.
fn split_parts(s: &str) -> (parts: Vec<Vec<char>>)
    ensures
        parts.deep_view() == split_dots(s@),
        parts.len() >= 1,
{
    let n = s.unicode_len();
    let mut parts: Vec<Vec<char>> = Vec::new();
    parts.push(Vec::new());
    proof {
        assert(s@.take(0) =~= Seq::<char>::empty());
        assert(parts.deep_view() =~~= split_dots(s@.take(0)));
    }
    let mut i: usize = 0;
    while i < n
        invariant
            n == s@.len(),
            0 <= i <= n,
            parts.len() >= 1,
            parts.deep_view() == split_dots(s@.take(i as int)),
        decreases n - i,
    {
        let ghost prev = parts.deep_view();
        let c = s.get_char(i);
        if c == '.' {
            parts.push(Vec::new());
            proof {
                assert(parts.deep_view() =~~= prev.push(Seq::<char>::empty()));
            }
        } else {
            let last = parts.len() - 1;
            let mut lastv = parts.pop().unwrap();
            lastv.push(c);
            parts.push(lastv);
            proof {
                assert(parts.deep_view() =~~= prev.update(
                    prev.len() - 1,
                    prev.last().push(s@[i as int]),
                ));
            }
        }
        proof {
            assert(s@.take(i + 1).drop_last() =~= s@.take(i as int));
            assert(s@.take(i + 1).last() == s@[i as int]);
        }
        i += 1;
    }
    proof {
        assert(s@.take(n as int) =~= s@);
    }
    parts
}

/// Checks one part as an octet and computes its value.
fn octet_value(part: &Vec<char>) -> (r: Option<u8>)
    ensures
        match r {
            Some(v) => valid_octet(part@) && v as int == dec_value(part@),
            None => !valid_octet(part@),
        },
{
    let len = part.len();
    if len < 1 || len > 3 {
        return None;
    }
    if len > 1 && part[0] == '0' {
        return None;
    }
    let mut val: u32 = 0;
    let mut j: usize = 0;
    while j < len
        invariant
            0 <= j <= len,
            len == part@.len(),
            1 <= len <= 3,
            all_digits(part@.take(j as int)),
            val as int == dec_value(part@.take(j as int)),
            j == 0 ==> val == 0,
            j == 1 ==> val <= 9,
            j == 2 ==> val <= 99,
            j == 3 ==> val <= 999,
        decreases len - j,
    {
        let c = part[j];
        let cu = c as u32;
        if cu < '0' as u32 || cu > '9' as u32 {
            assert(!is_dec_digit(part@[j as int]));
            return None;
        }
        val = val * 10 + (cu - '0' as u32);
        proof {
            assert(part@.take(j + 1).drop_last() =~= part@.take(j as int));
            assert(part@.take(j + 1).last() == part@[j as int]);
        }
        j += 1;
    }
    proof {
        assert(part@.take(len as int) =~= part@);
    }
    if val > 255 {
        return None;
    }
    Some(val as u8)
}

/// Parses an IPv4 dotted-quad literal; `None` exactly when the literal is
/// not a valid IPv4 literal of the grammar above.
pub fn parse_ipv4(s: &str) -> (r: Option<u32>)
    ensures
        match r {
            Some(v) => valid_ipv4(s@) && v as int == ipv4_num(s@),
            None => !valid_ipv4(s@),
        },
{
    let parts = split_parts(s);
    proof {
        // Each materialized part's view is the corresponding spec part.
        assert forall|k: int| 0 <= k < parts@.len() implies (#[trigger] parts@[k])@
            == parts.deep_view()[k] by {}
    }
    if parts.len() != 4 {
        return None;
    }
    let a = match octet_value(&parts[0]) {
        Some(v) => v,
        None => {
            return None;
        },
    };
    let b = match octet_value(&parts[1]) {
        Some(v) => v,
        None => {
            return None;
        },
    };
    let c = match octet_value(&parts[2]) {
        Some(v) => v,
        None => {
            return None;
        },
    };
    let d = match octet_value(&parts[3]) {
        Some(v) => v,
        None => {
            return None;
        },
    };
    let num: u32 = (a as u32) * 0x1000000 + (b as u32) * 0x10000 + (c as u32) * 0x100 + (d as u32);
    Some(num)
}

} // verus!
