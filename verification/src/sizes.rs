//! Reading sizes (`10MB`) and timeouts (`5s`) written in configuration files, and the port
//! of a bind address.

use vstd::prelude::*;
use crate::case::{to_uppercase, uppercase};
use crate::dns::last_segment;
use crate::text::{chars_end_with, chars_of, has_suffix, parse_i64, parse_signed, parse_u16, parse_u64, parse_unsigned, slice_chars, trim, trim_chars};

verus! {

/// The number a size gives, before the unit is applied, and the unit's factor.
pub open spec fn size_parts(s: Seq<char>) -> Option<(nat, nat)> {
    let u = uppercase(trim(s));
    let (digits, factor) = if has_suffix(u, "KB"@) {
        (trim(u.take(u.len() - 2)), 1024nat)
    } else if has_suffix(u, "MB"@) {
        (trim(u.take(u.len() - 2)), 1024nat * 1024)
    } else if has_suffix(u, "GB"@) {
        (trim(u.take(u.len() - 2)), 1024nat * 1024 * 1024)
    } else if has_suffix(u, "B"@) {
        (trim(u.take(u.len() - 1)), 1nat)
    } else {
        (u, 1nat)
    };
    match parse_unsigned(digits, u64::MAX as nat) {
        Some(v) => Some((v, factor)),
        None => None,
    }
}

/// The number of bytes a size stands for: a number in any case, optionally followed by
/// `B`, `KB`, `MB` or `GB` (powers of 1024), with spaces around it and before the unit.
pub open spec fn size_bytes(s: Seq<char>) -> Option<int> {
    match size_parts(s) {
        Some((v, f)) => Some((v * f) as int),
        None => None,
    }
}

/// The size written in `s`, in bytes, if it is a size. The byte count of a size must
/// fit in 64 bits.
pub fn parse_size(s: &str) -> (r: Option<u64>)
    requires
        size_bytes(s@) matches Some(b) ==> b <= u64::MAX,
    ensures
        r == match size_bytes(s@) {
            Some(b) => Some(b as u64),
            None => None,
        },
{
    let t = trim_chars(&chars_of(s));
    let us = to_uppercase(string_of_chars(&t).as_str());
    let u = chars_of(us.as_str());
    proof {
        reveal_strlit("KB");
        reveal_strlit("MB");
        reveal_strlit("GB");
        reveal_strlit("B");
    }
    let kb = vec!['K', 'B'];
    let mb = vec!['M', 'B'];
    let gb = vec!['G', 'B'];
    let b = vec!['B'];
    assert(kb@ =~= "KB"@ && mb@ =~= "MB"@ && gb@ =~= "GB"@ && b@ =~= "B"@);
    let (digits, factor): (Vec<char>, u64) = if chars_end_with(&u, &kb) {
        (trim_chars(&slice_chars(&u, 0, u.len() - 2)), 1024)
    } else if chars_end_with(&u, &mb) {
        (trim_chars(&slice_chars(&u, 0, u.len() - 2)), 1024 * 1024)
    } else if chars_end_with(&u, &gb) {
        (trim_chars(&slice_chars(&u, 0, u.len() - 2)), 1024 * 1024 * 1024)
    } else if chars_end_with(&u, &b) {
        (trim_chars(&slice_chars(&u, 0, u.len() - 1)), 1)
    } else {
        (slice_chars(&u, 0, u.len()), 1)
    };
    assert(u@.subrange(0, u@.len() - 2) =~= u@.take(u@.len() - 2));
    assert(u@.subrange(0, u@.len() - 1) =~= u@.take(u@.len() - 1));
    assert(u@.subrange(0, u@.len() as int) =~= u@);
    match parse_u64(&digits) {
        Some(v) => {
            assert(v * factor <= u64::MAX);
            Some(v * factor)
        },
        None => None,
    }
}

fn string_of_chars(v: &Vec<char>) -> (s: String)
    ensures
        s@ == v@,
{
    crate::text::string_of(v)
}

/// The number of milliseconds a timeout stands for: a number followed by `ms`, `s`
/// (seconds) or `m` (minutes), or a bare number of milliseconds, with spaces around it.
pub open spec fn timeout_value(s: Seq<char>) -> Option<int> {
    let t = trim(s);
    if has_suffix(t, "ms"@) {
        parse_signed(t.take(t.len() - 2), i64::MIN as int, i64::MAX as int)
    } else if has_suffix(t, "s"@) {
        match parse_signed(t.take(t.len() - 1), i64::MIN as int, i64::MAX as int) {
            Some(v) => Some(v * 1000),
            None => None,
        }
    } else if has_suffix(t, "m"@) {
        match parse_signed(t.take(t.len() - 1), i64::MIN as int, i64::MAX as int) {
            Some(v) => Some(v * 60 * 1000),
            None => None,
        }
    } else {
        parse_signed(t, i64::MIN as int, i64::MAX as int)
    }
}

/// The timeout written in `s`, in milliseconds, if it is a timeout. The millisecond count
/// must fit in 64 bits.
pub fn parse_timeout_ms(s: &str) -> (r: Option<i64>)
    requires
        timeout_value(s@) matches Some(v) ==> i64::MIN <= v <= i64::MAX,
    ensures
        r == match timeout_value(s@) {
            Some(v) => Some(v as i64),
            None => None,
        },
{
    let t = trim_chars(&chars_of(s));
    proof {
        reveal_strlit("ms");
        reveal_strlit("s");
        reveal_strlit("m");
    }
    let ms = vec!['m', 's'];
    let sec = vec!['s'];
    let min = vec!['m'];
    assert(ms@ =~= "ms"@ && sec@ =~= "s"@ && min@ =~= "m"@);
    assert(t@.subrange(0, t@.len() - 2) =~= t@.take(t@.len() - 2));
    assert(t@.subrange(0, t@.len() - 1) =~= t@.take(t@.len() - 1));
    if chars_end_with(&t, &ms) {
        parse_i64(&slice_chars(&t, 0, t.len() - 2))
    } else if chars_end_with(&t, &sec) {
        match parse_i64(&slice_chars(&t, 0, t.len() - 1)) {
            Some(v) => Some(v * 1000),
            None => None,
        }
    } else if chars_end_with(&t, &min) {
        match parse_i64(&slice_chars(&t, 0, t.len() - 1)) {
            Some(v) => Some(v * 60 * 1000),
            None => None,
        }
    } else {
        parse_i64(&t)
    }
}

/// The message for a bind address without a port.
pub open spec fn bad_bind_text(bind: Seq<char>) -> Seq<char> {
    "DNS bind address must contain a valid port: "@ + bind
}

/// The port of a bind address: what follows its last `:`, read as a port number.
pub fn extract_dns_port(bind: &str) -> (r: Result<u16, String>)
    ensures
        match parse_unsigned(last_segment(bind@, ':'), u16::MAX as nat) {
            Some(p) => r == Ok::<u16, String>(p as u16),
            None => r matches Err(m) && m@ == bad_bind_text(bind@),
        },
{
    let c = chars_of(bind);
    let seg = crate::dns::last_segment_of(&c, ':');
    match parse_u16(&seg) {
        Some(p) => Ok(p),
        None => {
            let mut m = "DNS bind address must contain a valid port: ".to_owned();
            m.append(bind);
            Err(m)
        },
    }
}

} // verus!
