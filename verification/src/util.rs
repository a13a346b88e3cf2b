//! Small helpers shared by the interface states: wrap-around arithmetic and
//! hex colour parsing.

use vstd::prelude::*;
use vstd::arithmetic::div_mod::{
    lemma_fundamental_div_mod, lemma_mod_bound, lemma_mod_multiples_vanish, lemma_small_mod,
};
use crate::parse::{CharClass, run_len, scan_run};

verus! {

/// Mathematical (always non-negative) remainder of `dividend` modulo a
/// positive `divisor`, as used for wrap-around scrolling through lists.
pub fn remainder(dividend: i64, divisor: i64) -> (r: i64)
    requires
        divisor > 0,
    ensures
        r == dividend as int % divisor as int,
        0 <= r < divisor,
{
    let rem = dividend % divisor;
    let r = if rem < 0 { rem + divisor } else { rem };
    proof {
        let a = dividend as int;
        let b = divisor as int;
        lemma_mod_bound(a, b);
        if a < 0 {
            let k = (-a) / b;
            lemma_fundamental_div_mod(-a, b);
            lemma_mod_bound(-a, b);
            assert(rem == b * k + a);
            lemma_mod_multiples_vanish(k, a, b);
            if rem < 0 {
                lemma_mod_multiples_vanish(1, rem as int, b);
                assert(b * 1 + rem == r);
                lemma_small_mod(r as nat, b as nat);
            } else {
                lemma_small_mod(0, b as nat);
            }
        }
    }
    r
}

/// An ASCII hex digit.
pub open spec fn is_hex_digit(c: char) -> bool {
    ('0' <= c && c <= '9') || ('a' <= c && c <= 'f') || ('A' <= c && c <= 'F')
}

/// The value of an ASCII hex digit.
pub open spec fn hex_val(c: char) -> int {
    if '0' <= c && c <= '9' {
        c as int - '0' as int
    } else if 'a' <= c && c <= 'f' {
        c as int - 'a' as int + 10
    } else {
        c as int - 'A' as int + 10
    }
}

/// The value of a two-character hex byte, with the optional leading plus
/// sign that integer parsing accepts.
pub open spec fn pair_val(c1: char, c2: char) -> Option<int> {
    if c1 == '+' {
        if is_hex_digit(c2) {
            Some(hex_val(c2))
        } else {
            None
        }
    } else if is_hex_digit(c1) && is_hex_digit(c2) {
        Some(16 * hex_val(c1) + hex_val(c2))
    } else {
        None
    }
}

/// What `hex_to_rgb` returns: the input without its leading `#` markers must
/// be exactly six characters, read as three hex bytes; each failing pair
/// names its colour component.
pub open spec fn hex_to_rgb_spec(s: Seq<char>) -> Result<(u8, u8, u8), Seq<char>> {
    let t = s.subrange(run_len(s, 0, CharClass::Hash), s.len() as int);
    if t.len() != 6 {
        Err("Hex code must be 6 characters long"@)
    } else {
        match pair_val(t[0], t[1]) {
            None => Err("Invalid red component"@),
            Some(r) => match pair_val(t[2], t[3]) {
                None => Err("Invalid green component"@),
                Some(g) => match pair_val(t[4], t[5]) {
                    None => Err("Invalid blue component"@),
                    Some(b) => Ok((r as u8, g as u8, b as u8)),
                },
            },
        }
    }
}

fn hex_digit_value(c: char) -> (r: Option<u8>)
    ensures
        match r {
            Some(v) => is_hex_digit(c) && v == hex_val(c) && v < 16,
            None => !is_hex_digit(c),
        },
{
    if '0' <= c && c <= '9' {
        Some(((c as u32) - ('0' as u32)) as u8)
    } else if 'a' <= c && c <= 'f' {
        Some(((c as u32) - ('a' as u32) + 10) as u8)
    } else if 'A' <= c && c <= 'F' {
        Some(((c as u32) - ('A' as u32) + 10) as u8)
    } else {
        None
    }
}

fn hex_pair_value(c1: char, c2: char) -> (r: Option<u8>)
    ensures
        match r {
            Some(v) => pair_val(c1, c2) == Some(v as int),
            None => pair_val(c1, c2) is None,
        },
{
    if c1 == '+' {
        hex_digit_value(c2)
    } else {
        match (hex_digit_value(c1), hex_digit_value(c2)) {
            (Some(h), Some(l)) => Some(16 * h + l),
            _ => None,
        }
    }
}

/// Parses a `#rrggbb` colour (any number of leading `#` markers is
/// stripped) into its red, green and blue bytes.
pub fn hex_to_rgb(hex: &str) -> (r: Result<(u8, u8, u8), String>)
    ensures
        match (r, hex_to_rgb_spec(hex@)) {
            (Ok(v), Ok(w)) => v == w,
            (Err(e), Err(w)) => e@ == w,
            _ => false,
        },
{
    let n = hex.unicode_len();
    let h = scan_run(hex, n, 0, CharClass::Hash);
    let t = hex.substring_char(h, n);
    if t.unicode_len() != 6 {
        return Err(String::from_str("Hex code must be 6 characters long"));
    }
    let red = match hex_pair_value(t.get_char(0), t.get_char(1)) {
        Some(v) => v,
        None => {
            return Err(String::from_str("Invalid red component"));
        },
    };
    let green = match hex_pair_value(t.get_char(2), t.get_char(3)) {
        Some(v) => v,
        None => {
            return Err(String::from_str("Invalid green component"));
        },
    };
    let blue = match hex_pair_value(t.get_char(4), t.get_char(5)) {
        Some(v) => v,
        None => {
            return Err(String::from_str("Invalid blue component"));
        },
    };
    Ok((red, green, blue))
}

} // verus!
