//! Rendering of JSON text: string escaping and decimal numbers.
//!
//! The hub frames its own wire records (envelopes and bidirectional
//! requests) as JSON text; the payloads inside stay opaque. The escaping is
//! the standard one: backslash, quote, the named control escapes, and
//! `\u00XX` for the remaining control characters.

use vstd::prelude::*;
use vstd::string::*;

use crate::hash64::hex_digit;
use crate::strutil::push_char;

verus! {

/// The escaped form of one character inside a JSON string literal.
pub open spec fn esc_char(c: char) -> Seq<char> {
    if c == '"' {
        seq!['\\', '"']
    } else if c == '\\' {
        seq!['\\', '\\']
    } else if c == '\n' {
        seq!['\\', 'n']
    } else if c == '\r' {
        seq!['\\', 'r']
    } else if c == '\t' {
        seq!['\\', 't']
    } else if (c as u32) < 32 {
        seq!['\\', 'u', '0', '0', hex_digit(((c as u32) / 16) as int), hex_digit(
            ((c as u32) % 16) as int,
        )]
    } else {
        seq![c]
    }
}

/// The escaped form of a whole character sequence.
pub open spec fn esc_str(s: Seq<char>) -> Seq<char>
    decreases s.len(),
{
    if s.len() == 0 {
        Seq::empty()
    } else {
        esc_char(s[0]) + esc_str(s.drop_first())
    }
}

/// A JSON string literal: the escaped characters between double quotes.
pub open spec fn json_string(s: Seq<char>) -> Seq<char> {
    seq!['"'] + esc_str(s) + seq!['"']
}

proof fn lemma_esc_str_push(s: Seq<char>, c: char)
    ensures
        esc_str(s.push(c)) == esc_str(s) + esc_char(c),
    decreases s.len(),
{
    if s.len() == 0 {
        assert(s.push(c)[0] == c);
        assert(s.push(c).drop_first() =~= Seq::<char>::empty());
        assert(esc_str(Seq::<char>::empty()) == Seq::<char>::empty());
        assert(esc_str(s.push(c)) =~= esc_char(c));
        assert(esc_str(s) + esc_char(c) =~= esc_char(c));
    } else {
        lemma_esc_str_push(s.drop_first(), c);
        assert(s.push(c)[0] == s[0]);
        assert(s.push(c).drop_first() =~= s.drop_first().push(c));
        assert(esc_str(s.push(c)) =~= esc_char(s[0]) + (esc_str(s.drop_first()) + esc_char(c)));
        assert(esc_str(s) + esc_char(c) =~= esc_char(s[0]) + (esc_str(s.drop_first()) + esc_char(
            c,
        )));
    }
}

/// Appends the JSON string literal for `s`, quotes included.
pub fn write_json_string(out: &mut String, s: &str)
    ensures
        final(out)@ == old(out)@ + json_string(s@),
{
    push_char(out, '"');
    let n = s.unicode_len();
    let mut i: usize = 0;
    proof {
        assert(esc_str(s@.take(0)) == Seq::<char>::empty());
        assert(out@ =~= old(out)@ + seq!['"'] + esc_str(s@.take(0)));
    }
    while i < n
        invariant
            n == s@.len(),
            0 <= i <= n,
            out@ == old(out)@ + seq!['"'] + esc_str(s@.take(i as int)),
        decreases n - i,
    {
        let c = s.get_char(i);
        if c == '"' {
            push_char(out, '\\');
            push_char(out, '"');
        } else if c == '\\' {
            push_char(out, '\\');
            push_char(out, '\\');
        } else if c == '\n' {
            push_char(out, '\\');
            push_char(out, 'n');
        } else if c == '\r' {
            push_char(out, '\\');
            push_char(out, 'r');
        } else if c == '\t' {
            push_char(out, '\\');
            push_char(out, 't');
        } else if (c as u32) < 32 {
            push_char(out, '\\');
            push_char(out, 'u');
            push_char(out, '0');
            push_char(out, '0');
            let v: u32 = c as u32;
            push_char(out, crate::hash64::hex_digit_char_u32(v / 16));
            push_char(out, crate::hash64::hex_digit_char_u32(v % 16));
        } else {
            push_char(out, c);
        }
        proof {
            lemma_esc_str_push(s@.take(i as int), s@[i as int]);
            assert(s@.take(i as int).push(s@[i as int]) =~= s@.take(i + 1));
            assert(out@ =~= old(out)@ + seq!['"'] + esc_str(s@.take(i + 1)));
        }
        i = i + 1;
    }
    push_char(out, '"');
    proof {
        assert(s@.take(n as int) =~= s@);
        assert(out@ =~= old(out)@ + json_string(s@));
    }
}

/// The decimal digits of a natural number, no leading zeros.
pub open spec fn dec_nat(n: nat) -> Seq<char>
    decreases n,
{
    if n < 10 {
        seq![hex_digit(n as int)]
    } else {
        dec_nat(n / 10).push(hex_digit((n % 10) as int))
    }
}

/// The decimal text of an unsigned 64-bit number.
pub open spec fn dec_u64(n: u64) -> Seq<char> {
    dec_nat(n as nat)
}

/// The decimal text of a signed 64-bit number: a minus sign for negatives.
pub open spec fn dec_i64(n: i64) -> Seq<char> {
    if n >= 0 {
        dec_nat(n as nat)
    } else {
        seq!['-'] + dec_nat((-(n as int)) as nat)
    }
}

/// Renders an unsigned 64-bit number in decimal.
pub fn u64_to_dec(n: u64) -> (r: String)
    ensures
        r@ == dec_u64(n),
{
    let mut digits: Vec<char> = Vec::new();
    let mut m: u64 = n;
    while m >= 10
        invariant
            dec_nat(n as nat) == dec_nat(m as nat) + digits@.reverse(),
        decreases m,
    {
        let d: u64 = m % 10;
        let ghost before = digits@;
        digits.push(crate::hash64::hex_digit_char(d));
        m = m / 10;
        proof {
            assert(dec_nat((m * 10 + d) as nat) == dec_nat(m as nat).push(hex_digit(d as int)))
                by {
                assert((m * 10 + d) as nat % 10 == d as nat) by (nonlinear_arith)
                    requires
                        0 <= d < 10,
                        m >= 0,
                ;
                assert((m * 10 + d) as nat / 10 == m as nat) by (nonlinear_arith)
                    requires
                        0 <= d < 10,
                        m >= 0,
                ;
                assert((m * 10 + d) as nat >= 10);
            }
            assert(digits@.reverse() =~= seq![hex_digit(d as int)] + before.reverse());
            assert(dec_nat(m as nat).push(hex_digit(d as int)) + before.reverse() =~= dec_nat(
                m as nat,
            ) + digits@.reverse());
        }
    }
    let ghost before = digits@;
    digits.push(crate::hash64::hex_digit_char(m));
    proof {
        assert(dec_nat(m as nat) == seq![hex_digit(m as int)]);
        assert(digits@.reverse() =~= seq![hex_digit(m as int)] + before.reverse());
        assert(dec_nat(n as nat) =~= digits@.reverse());
    }
    let mut out = String::new();
    let len = digits.len();
    let mut i: usize = 0;
    while i < len
        invariant
            len == digits.len(),
            0 <= i <= len,
            out@ == digits@.reverse().take(i as int),
        decreases len - i,
    {
        push_char(&mut out, digits[len - 1 - i]);
        proof {
            assert(digits@.reverse()[i as int] == digits@[len - 1 - i]);
            assert(out@ =~= digits@.reverse().take(i + 1));
        }
        i = i + 1;
    }
    proof {
        assert(digits@.reverse().take(len as int) =~= digits@.reverse());
    }
    out
}

/// Renders a signed 64-bit number in decimal.
pub fn i64_to_dec(n: i64) -> (r: String)
    ensures
        r@ == dec_i64(n),
{
    if n >= 0 {
        let u: u64 = n as u64;
        let r = u64_to_dec(u);
        proof {
            assert(u as nat == n as nat);
        }
        r
    } else {
        let wide: i128 = n as i128;
        let mag: u64 = (-wide) as u64;
        let mut out = String::new();
        push_char(&mut out, '-');
        let digits = u64_to_dec(mag);
        out.append(digits.as_str());
        proof {
            assert(mag as nat == (-(n as int)) as nat);
            assert(out@ =~= dec_i64(n));
        }
        out
    }
}

} // verus!
