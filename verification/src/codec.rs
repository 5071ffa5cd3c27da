//! The envelope wire codec: canonical JSON text for stream items, and the
//! parser that inverts it.
//!
//! Every envelope renders as a `type`-tagged JSON object; `content` and
//! `request_data` carry their payload text verbatim, placed last so the
//! payload needs no scanning. Decoding a rendered envelope yields the
//! envelope back, so re-rendering is byte-identical.

use vstd::prelude::*;
use vstd::string::*;

use crate::envelope::{ItemView, MetadataView, PlexusStreamItem, StreamMetadata};
use crate::hash64::hex_digit;
use crate::jsontext::{
    dec_i64, dec_nat, dec_u64, esc_str, i64_to_dec, json_string, u64_to_dec, write_json_string,
};
use crate::strutil::push_char;

verus! {

/// The JSON text of a boolean, as characters.
pub open spec fn bool_chars(b: bool) -> Seq<char> {
    if b {
        seq!['t', 'r', 'u', 'e']
    } else {
        seq!['f', 'a', 'l', 's', 'e']
    }
}

/// JSON string literals joined with commas.
pub open spec fn strings_json(parts: Seq<Seq<char>>) -> Seq<char>
    decreases parts.len(),
{
    if parts.len() == 0 {
        Seq::empty()
    } else if parts.len() == 1 {
        json_string(parts[0])
    } else {
        json_string(parts[0]) + seq![','] + strings_json(parts.drop_first())
    }
}

/// The JSON text of envelope metadata.
pub open spec fn metadata_json(m: MetadataView) -> Seq<char> {
    "{\"provenance\":["@ + strings_json(m.provenance) + seq![']'] + ",\"plexus_hash\":"@
        + json_string(m.plexus_hash) + ",\"timestamp\":"@ + dec_i64(m.timestamp as i64) + seq![
        '}',
    ]
}

/// The optional percentage field of a progress envelope.
pub open spec fn percentage_json(p: Option<u8>) -> Seq<char> {
    match p {
        Some(v) => seq![','] + "\"percentage\":"@ + dec_u64(v as u64) + seq!['.', '0'],
        None => Seq::<char>::empty(),
    }
}

/// The optional code field of an error envelope.
pub open spec fn code_json(c: Option<Seq<char>>) -> Seq<char> {
    match c {
        Some(code) => seq![','] + "\"code\":"@ + json_string(code),
        None => Seq::<char>::empty(),
    }
}

/// The canonical JSON text of a stream envelope.
pub open spec fn item_json(v: ItemView) -> Seq<char> {
    match v {
        ItemView::Data { metadata, content_type, content } => "{\"type\":"@ + json_string("data"@)
            + ",\"metadata\":"@ + metadata_json(metadata) + ",\"content_type\":"@ + json_string(
            content_type,
        ) + ",\"content\":"@ + content + seq!['}'],
        ItemView::Progress { metadata, message, percentage } => "{\"type\":"@ + json_string(
            "progress"@,
        ) + ",\"metadata\":"@ + metadata_json(metadata) + ",\"message\":"@ + json_string(message)
            + percentage_json(percentage) + seq!['}'],
        ItemView::Error { metadata, message, code, recoverable } => "{\"type\":"@ + json_string(
            "error"@,
        ) + ",\"metadata\":"@ + metadata_json(metadata) + ",\"message\":"@ + json_string(message)
            + code_json(code) + seq![','] + "\"recoverable\":"@ + bool_chars(recoverable) + seq![
            '}',
        ],
        ItemView::Done { metadata } => "{\"type\":"@ + json_string("done"@) + ",\"metadata\":"@
            + metadata_json(metadata) + seq!['}'],
        ItemView::Request { request_id, request_data, timeout_ms } => "{\"type\":"@ + json_string(
            "request"@,
        ) + ",\"request_id\":"@ + json_string(request_id) + ",\"timeout_ms\":"@ + dec_u64(
            timeout_ms,
        ) + seq![','] + "\"request_data\":"@ + request_data + seq!['}'],
    }
}

proof fn lemma_strings_json_push(parts: Seq<Seq<char>>, last: Seq<char>)
    requires
        parts.len() > 0,
    ensures
        strings_json(parts.push(last)) == strings_json(parts) + seq![','] + json_string(last),
    decreases parts.len(),
{
    if parts.len() == 1 {
        assert(parts.push(last)[0] == parts[0]);
        assert(parts.push(last).drop_first() =~~= seq![last]);
        assert(strings_json(seq![last]) == json_string(last));
        assert(strings_json(parts.push(last)) =~= strings_json(parts) + seq![','] + json_string(
            last,
        ));
    } else {
        lemma_strings_json_push(parts.drop_first(), last);
        assert(parts.push(last)[0] == parts[0]);
        assert(parts.push(last).drop_first() =~~= parts.drop_first().push(last));
        assert(strings_json(parts.push(last)) =~= json_string(parts[0]) + seq![','] + (
        strings_json(parts.drop_first()) + seq![','] + json_string(last)));
        assert(strings_json(parts) + seq![','] + json_string(last) =~= json_string(parts[0])
            + seq![','] + (strings_json(parts.drop_first()) + seq![','] + json_string(last)));
    }
}

/// Appends the JSON text of metadata.
fn write_metadata(out: &mut String, m: &StreamMetadata)
    ensures
        final(out)@ == old(out)@ + metadata_json(m@),
{
    out.append("{\"provenance\":[");
    let ghost head = out@;
    let mut k: usize = 0;
    proof {
        assert(out@ =~= head + strings_json(m@.provenance.take(0)));
    }
    while k < m.provenance.len()
        invariant
            0 <= k <= m.provenance.len(),
            m.provenance.deep_view().len() == m.provenance.len(),
            m@.provenance == m.provenance.deep_view(),
            out@ == head + strings_json(m@.provenance.take(k as int)),
        decreases m.provenance.len() - k,
    {
        if k > 0 {
            push_char(out, ',');
        }
        write_json_string(out, m.provenance[k].as_str());
        proof {
            let dv = m@.provenance;
            assert(dv[k as int] == m.provenance@[k as int]@);
            if k == 0 {
                assert(dv.take(1) =~~= seq![dv[0]]);
                assert(strings_json(dv.take(1)) == json_string(dv[0]));
                assert(out@ =~= head + strings_json(dv.take(1)));
            } else {
                lemma_strings_json_push(dv.take(k as int), dv[k as int]);
                assert(dv.take(k as int).push(dv[k as int]) =~~= dv.take(k + 1));
                assert(out@ =~= head + strings_json(dv.take(k + 1)));
            }
        }
        k = k + 1;
    }
    proof {
        assert(m@.provenance.take(m.provenance.len() as int) =~~= m@.provenance);
    }
    push_char(out, ']');
    out.append(",\"plexus_hash\":");
    write_json_string(out, m.plexus_hash.as_str());
    out.append(",\"timestamp\":");
    let ts = i64_to_dec(m.timestamp);
    out.append(ts.as_str());
    push_char(out, '}');
    proof {
        assert(out@ =~= old(out)@ + metadata_json(m@));
    }
}

/// Appends the JSON text of a boolean.
fn write_bool(out: &mut String, b: bool)
    ensures
        final(out)@ == old(out)@ + bool_chars(b),
{
    if b {
        out.append("true");
        proof {
            reveal_strlit("true");
            assert("true"@ =~= bool_chars(true));
        }
    } else {
        out.append("false");
        proof {
            reveal_strlit("false");
            assert("false"@ =~= bool_chars(false));
        }
    }
}

/// Renders a stream envelope as its canonical JSON text.
pub fn encode_stream_item(item: &PlexusStreamItem) -> (r: String)
    ensures
        r@ == item_json(item@),
{
    let mut out = String::new();
    out.append("{\"type\":");
    match item {
        PlexusStreamItem::Data { metadata, content_type, content } => {
            write_json_string(&mut out, "data");
            out.append(",\"metadata\":");
            write_metadata(&mut out, metadata);
            out.append(",\"content_type\":");
            write_json_string(&mut out, content_type.as_str());
            out.append(",\"content\":");
            out.append(content.as_str());
            push_char(&mut out, '}');
            proof {
                assert(out@ =~= item_json(item@));
            }
        },
        PlexusStreamItem::Progress { metadata, message, percentage } => {
            write_json_string(&mut out, "progress");
            out.append(",\"metadata\":");
            write_metadata(&mut out, metadata);
            out.append(",\"message\":");
            write_json_string(&mut out, message.as_str());
            match percentage {
                Some(p) => {
                    push_char(&mut out, ',');
                    out.append("\"percentage\":");
                    let d = u64_to_dec(*p as u64);
                    out.append(d.as_str());
                    out.append(".0");
                    proof {
                        reveal_strlit(".0");
                        assert(".0"@ =~= seq!['.', '0']);
                    }
                },
                None => (),
            }
            push_char(&mut out, '}');
            proof {
                assert(out@ =~= item_json(item@));
            }
        },
        PlexusStreamItem::Error { metadata, message, code, recoverable } => {
            write_json_string(&mut out, "error");
            out.append(",\"metadata\":");
            write_metadata(&mut out, metadata);
            out.append(",\"message\":");
            write_json_string(&mut out, message.as_str());
            match code {
                Some(c) => {
                    push_char(&mut out, ',');
                    out.append("\"code\":");
                    write_json_string(&mut out, c.as_str());
                },
                None => (),
            }
            push_char(&mut out, ',');
            out.append("\"recoverable\":");
            write_bool(&mut out, *recoverable);
            push_char(&mut out, '}');
            proof {
                assert(out@ =~= item_json(item@));
            }
        },
        PlexusStreamItem::Done { metadata } => {
            write_json_string(&mut out, "done");
            out.append(",\"metadata\":");
            write_metadata(&mut out, metadata);
            push_char(&mut out, '}');
            proof {
                assert(out@ =~= item_json(item@));
            }
        },
        PlexusStreamItem::Request { request_id, request_data, timeout_ms } => {
            write_json_string(&mut out, "request");
            out.append(",\"request_id\":");
            write_json_string(&mut out, request_id.as_str());
            out.append(",\"timeout_ms\":");
            let d = u64_to_dec(*timeout_ms);
            out.append(d.as_str());
            push_char(&mut out, ',');
            out.append("\"request_data\":");
            out.append(request_data.as_str());
            push_char(&mut out, '}');
            proof {
                assert(out@ =~= item_json(item@));
            }
        },
    }
    out
}

} // verus!

verus! {

/// The rest of `s` after the expected prefix `p`, when `s` starts with it.
pub open spec fn take_prefix(s: Seq<char>, p: Seq<char>) -> Option<Seq<char>> {
    if p.len() <= s.len() && s.take(p.len() as int) == p {
        Some(s.skip(p.len() as int))
    } else {
        None
    }
}

proof fn lemma_take_prefix(p: Seq<char>, rest: Seq<char>)
    ensures
        take_prefix(p + rest, p) == Some(rest),
{
    assert((p + rest).take(p.len() as int) =~= p);
    assert((p + rest).skip(p.len() as int) =~= rest);
}

/// The value of a lowercase hex digit character.
pub open spec fn hex_val(c: char) -> Option<int> {
    if c == '0' {
        Some(0)
    } else if c == '1' {
        Some(1)
    } else if c == '2' {
        Some(2)
    } else if c == '3' {
        Some(3)
    } else if c == '4' {
        Some(4)
    } else if c == '5' {
        Some(5)
    } else if c == '6' {
        Some(6)
    } else if c == '7' {
        Some(7)
    } else if c == '8' {
        Some(8)
    } else if c == '9' {
        Some(9)
    } else if c == 'a' {
        Some(10)
    } else if c == 'b' {
        Some(11)
    } else if c == 'c' {
        Some(12)
    } else if c == 'd' {
        Some(13)
    } else if c == 'e' {
        Some(14)
    } else if c == 'f' {
        Some(15)
    } else {
        None
    }
}

proof fn lemma_hex_val_digit(n: int)
    requires
        0 <= n < 16,
    ensures
        hex_val(hex_digit(n)) == Some(n),
{
}

/// Parses the body of a JSON string literal after the opening quote:
/// unescapes up to the closing quote and returns the text with what
/// follows the closing quote.
pub open spec fn parse_string_body(s: Seq<char>) -> Option<(Seq<char>, Seq<char>)>
    decreases s.len(),
{
    if s.len() == 0 {
        None
    } else if s[0] == '"' {
        Some((Seq::empty(), s.skip(1)))
    } else if s[0] == '\\' {
        if s.len() < 2 {
            None
        } else {
            let e = s[1];
            if e == 'u' {
                if s.len() < 6 {
                    None
                } else if s[2] == '0' && s[3] == '0' {
                    match (hex_val(s[4]), hex_val(s[5])) {
                        (Some(h), Some(l)) => match parse_string_body(s.skip(6)) {
                            Some((t, r)) => Some((seq![((16 * h + l) as char)] + t, r)),
                            None => None,
                        },
                        _ => None,
                    }
                } else {
                    None
                }
            } else if e == '"' || e == '\\' || e == 'n' || e == 'r' || e == 't' {
                let c = if e == '"' {
                    '"'
                } else if e == '\\' {
                    '\\'
                } else if e == 'n' {
                    '\n'
                } else if e == 'r' {
                    '\r'
                } else {
                    '\t'
                };
                match parse_string_body(s.skip(2)) {
                    Some((t, r)) => Some((seq![c] + t, r)),
                    None => None,
                }
            } else {
                None
            }
        }
    } else {
        match parse_string_body(s.skip(1)) {
            Some((t, r)) => Some((seq![s[0]] + t, r)),
            None => None,
        }
    }
}

/// Parses a whole JSON string literal, opening quote included.
pub open spec fn parse_jstring(s: Seq<char>) -> Option<(Seq<char>, Seq<char>)> {
    if s.len() > 0 && s[0] == '"' {
        parse_string_body(s.skip(1))
    } else {
        None
    }
}

proof fn lemma_parse_string_body(x: Seq<char>, rest: Seq<char>)
    ensures
        parse_string_body(esc_str(x) + seq!['"'] + rest) == Some((x, rest)),
    decreases x.len(),
{
    let s = esc_str(x) + seq!['"'] + rest;
    if x.len() == 0 {
        assert(esc_str(x) == Seq::<char>::empty());
        assert(s =~= seq!['"'] + rest);
        assert(s[0] == '"');
        assert(s.skip(1) =~= rest);
        assert(parse_string_body(s) matches Some(p) && p.0 =~= x && p.1 =~= rest);
    } else {
        let c0 = x[0];
        let x1 = x.drop_first();
        lemma_parse_string_body(x1, rest);
        let tail = esc_str(x1) + seq!['"'] + rest;
        assert(esc_str(x) == crate::jsontext::esc_char(c0) + esc_str(x1));
        assert(s =~= crate::jsontext::esc_char(c0) + tail);
        if c0 == '"' {
            assert(s[0] == '\\' && s[1] == '"');
            assert(s.skip(2) =~= tail);
            assert(parse_string_body(s) matches Some(p) && p.0 =~= x && p.1 =~= rest);
        } else if c0 == '\\' {
            assert(s[0] == '\\' && s[1] == '\\');
            assert(s.skip(2) =~= tail);
            assert(parse_string_body(s) matches Some(p) && p.0 =~= x && p.1 =~= rest);
        } else if c0 == '\n' {
            assert(s[0] == '\\' && s[1] == 'n');
            assert(s.skip(2) =~= tail);
            assert(parse_string_body(s) matches Some(p) && p.0 =~= x && p.1 =~= rest);
        } else if c0 == '\r' {
            assert(s[0] == '\\' && s[1] == 'r');
            assert(s.skip(2) =~= tail);
            assert(parse_string_body(s) matches Some(p) && p.0 =~= x && p.1 =~= rest);
        } else if c0 == '\t' {
            assert(s[0] == '\\' && s[1] == 't');
            assert(s.skip(2) =~= tail);
            assert(parse_string_body(s) matches Some(p) && p.0 =~= x && p.1 =~= rest);
        } else if (c0 as u32) < 32 {
            let hv: int = (c0 as u32) as int;
            assert(s[0] == '\\' && s[1] == 'u' && s[2] == '0' && s[3] == '0');
            assert(s[4] == hex_digit(hv / 16) && s[5] == hex_digit(hv % 16));
            lemma_hex_val_digit(hv / 16);
            lemma_hex_val_digit(hv % 16);
            assert(s.skip(6) =~= tail);
            vstd::utf8::char_is_scalar(c0);
            vstd::utf8::char_u32_cast(c0, c0 as u32);
            assert(16 * (hv / 16) + hv % 16 == hv);
            assert(hv == c0 as int);
            assert(((16 * (hv / 16) + hv % 16) as char) == c0);
            assert(parse_string_body(s) matches Some(p) && p.0 =~= x && p.1 =~= rest);
        } else {
            assert(s[0] == c0);
            assert(s[0] != '"' && s[0] != '\\');
            assert(s.skip(1) =~= tail);
            assert(parse_string_body(s) matches Some(p) && p.0 =~= x && p.1 =~= rest);
        }
    }
}

proof fn lemma_parse_jstring(x: Seq<char>, rest: Seq<char>)
    ensures
        parse_jstring(json_string(x) + rest) == Some((x, rest)),
{
    let s = json_string(x) + rest;
    assert(s[0] == '"');
    assert(s.skip(1) =~= esc_str(x) + seq!['"'] + rest);
    lemma_parse_string_body(x, rest);
}

} // verus!

verus! {

/// Whether `c` is a decimal digit.
pub open spec fn is_digit(c: char) -> bool {
    48 <= c as int <= 57
}

/// The value of a decimal digit character.
pub open spec fn digit_val(c: char) -> int {
    c as int - 48
}

/// Folds decimal digits into `acc` until a non-digit appears.
pub open spec fn parse_digits(s: Seq<char>, acc: int) -> (int, Seq<char>)
    decreases s.len(),
{
    if s.len() > 0 && is_digit(s[0]) {
        parse_digits(s.skip(1), acc * 10 + digit_val(s[0]))
    } else {
        (acc, s)
    }
}

/// Parses a non-empty run of decimal digits.
pub open spec fn parse_number(s: Seq<char>) -> Option<(int, Seq<char>)> {
    if s.len() > 0 && is_digit(s[0]) {
        Some(parse_digits(s, 0))
    } else {
        None
    }
}

/// Parses an optionally minus-signed decimal number.
pub open spec fn parse_int(s: Seq<char>) -> Option<(int, Seq<char>)> {
    if s.len() > 0 && s[0] == '-' {
        match parse_number(s.skip(1)) {
            Some((v, r)) => Some((-v, r)),
            None => None,
        }
    } else {
        parse_number(s)
    }
}

/// The accumulator after the digits of `n` have been folded onto `a`.
pub open spec fn dec_shift(a: int, n: nat) -> int
    decreases n,
{
    if n < 10 {
        a * 10 + n
    } else {
        dec_shift(a, n / 10) * 10 + (n % 10)
    }
}

proof fn lemma_dec_digit(n: nat)
    requires
        n < 10,
    ensures
        is_digit(hex_digit(n as int)),
        digit_val(hex_digit(n as int)) == n,
{
}

proof fn lemma_parse_digits_dec(n: nat, rest: Seq<char>, a: int)
    ensures
        parse_digits(dec_nat(n) + rest, a) == parse_digits(rest, dec_shift(a, n)),
    decreases n,
{
    if n < 10 {
        lemma_dec_digit(n);
        let s = dec_nat(n) + rest;
        assert(s[0] == hex_digit(n as int));
        assert(s.skip(1) =~= rest);
        assert(parse_digits(s, a) == parse_digits(rest, a * 10 + n));
    } else {
        let d: nat = n % 10;
        lemma_dec_digit(d);
        let mid = seq![hex_digit(d as int)] + rest;
        assert(dec_nat(n) + rest =~= dec_nat(n / 10) + mid);
        lemma_parse_digits_dec(n / 10, mid, a);
        assert(mid[0] == hex_digit(d as int));
        assert(mid.skip(1) =~= rest);
        assert(parse_digits(mid, dec_shift(a, n / 10)) == parse_digits(
            rest,
            dec_shift(a, n / 10) * 10 + d,
        ));
    }
}

proof fn lemma_dec_shift_zero(n: nat)
    ensures
        dec_shift(0, n) == n,
    decreases n,
{
    if n >= 10 {
        lemma_dec_shift_zero(n / 10);
    }
}

proof fn lemma_dec_first_digit(n: nat)
    ensures
        dec_nat(n).len() > 0,
        is_digit(dec_nat(n)[0]),
    decreases n,
{
    if n < 10 {
        lemma_dec_digit(n);
    } else {
        lemma_dec_first_digit(n / 10);
        assert(dec_nat(n)[0] == dec_nat(n / 10)[0]);
    }
}

proof fn lemma_parse_number_dec(n: nat, rest: Seq<char>)
    requires
        rest.len() == 0 || !is_digit(rest[0]),
    ensures
        parse_number(dec_nat(n) + rest) == Some((n as int, rest)),
{
    let s = dec_nat(n) + rest;
    lemma_dec_first_digit(n);
    assert(s[0] == dec_nat(n)[0]);
    lemma_parse_digits_dec(n, rest, 0);
    lemma_dec_shift_zero(n);
    assert(parse_digits(rest, n as int) == (n as int, rest));
}

proof fn lemma_parse_int_dec(v: i64, rest: Seq<char>)
    requires
        rest.len() == 0 || !is_digit(rest[0]),
    ensures
        parse_int(dec_i64(v) + rest) == Some((v as int, rest)),
{
    let s = dec_i64(v) + rest;
    if v >= 0 {
        lemma_dec_first_digit(v as nat);
        assert(s[0] == dec_nat(v as nat)[0]);
        assert(s[0] != '-');
        lemma_parse_number_dec(v as nat, rest);
        assert(s =~= dec_nat(v as nat) + rest);
    } else {
        assert(s[0] == '-');
        assert(s.skip(1) =~= dec_nat((-(v as int)) as nat) + rest);
        lemma_parse_number_dec((-(v as int)) as nat, rest);
    }
}

/// Parses the comma-separated JSON string literals before a closing `]`.
/// `fuel` bounds the recursion; one unit per element suffices.
pub open spec fn parse_string_list(s: Seq<char>, fuel: nat) -> Option<(Seq<Seq<char>>, Seq<char>)>
    decreases fuel,
{
    if fuel == 0 || s.len() == 0 {
        None
    } else if s[0] == ']' {
        Some((Seq::empty(), s.skip(1)))
    } else {
        match parse_jstring(s) {
            None => None,
            Some((x, r)) => {
                if r.len() > 0 && r[0] == ',' {
                    match parse_string_list(r.skip(1), (fuel - 1) as nat) {
                        Some((xs, r2)) => Some((seq![x] + xs, r2)),
                        None => None,
                    }
                } else if r.len() > 0 && r[0] == ']' {
                    Some((seq![x], r.skip(1)))
                } else {
                    None
                }
            },
        }
    }
}

proof fn lemma_parse_string_list(parts: Seq<Seq<char>>, rest: Seq<char>, fuel: nat)
    requires
        fuel >= parts.len() + 1,
    ensures
        parse_string_list(strings_json(parts) + seq![']'] + rest, fuel) == Some((parts, rest)),
    decreases parts.len(),
{
    let s = strings_json(parts) + seq![']'] + rest;
    if parts.len() == 0 {
        assert(s =~= seq![']'] + rest);
        assert(s[0] == ']');
        assert(s.skip(1) =~= rest);
        assert(parse_string_list(s, fuel) matches Some(p) && p.0 =~~= parts && p.1 =~= rest);
    } else if parts.len() == 1 {
        assert(s =~= json_string(parts[0]) + (seq![']'] + rest));
        assert(s[0] == '"');
        assert(s[0] != ']');
        lemma_parse_jstring(parts[0], seq![']'] + rest);
        let r = seq![']'] + rest;
        assert(r[0] == ']');
        assert(r[0] != ',');
        assert(r.skip(1) =~= rest);
        assert(parse_string_list(s, fuel) matches Some(p) && p.0 =~~= parts && p.1 =~= rest);
    } else {
        let tail = strings_json(parts.drop_first()) + seq![']'] + rest;
        assert(s =~= json_string(parts[0]) + (seq![','] + tail));
        assert(s[0] == '"');
        assert(s[0] != ']');
        lemma_parse_jstring(parts[0], seq![','] + tail);
        let r = seq![','] + tail;
        assert(r[0] == ',');
        assert(r.skip(1) =~= tail);
        lemma_parse_string_list(parts.drop_first(), rest, (fuel - 1) as nat);
        assert(parse_string_list(s, fuel) matches Some(p) && p.0 =~~= parts && p.1 =~= rest);
    }
}

/// Parses the JSON text of envelope metadata, returning what follows.
pub open spec fn parse_metadata(s: Seq<char>) -> Option<(MetadataView, Seq<char>)> {
    match take_prefix(s, "{\"provenance\":["@) {
        None => None,
        Some(s1) => match parse_string_list(s1, s1.len() + 1) {
            None => None,
            Some((provenance, s2)) => match take_prefix(s2, ",\"plexus_hash\":"@) {
                None => None,
                Some(s3) => match parse_jstring(s3) {
                    None => None,
                    Some((plexus_hash, s4)) => match take_prefix(s4, ",\"timestamp\":"@) {
                        None => None,
                        Some(s5) => match parse_int(s5) {
                            None => None,
                            Some((timestamp, s6)) => {
                                if s6.len() > 0 && s6[0] == '}' && i64::MIN <= timestamp
                                    <= i64::MAX {
                                    Some(
                                        (
                                            MetadataView { provenance, plexus_hash, timestamp },
                                            s6.skip(1),
                                        ),
                                    )
                                } else {
                                    None
                                }
                            },
                        },
                    },
                },
            },
        },
    }
}

proof fn lemma_strings_json_len(parts: Seq<Seq<char>>)
    ensures
        strings_json(parts).len() >= parts.len(),
    decreases parts.len(),
{
    if parts.len() > 0 {
        lemma_strings_json_len(parts.drop_first());
    }
}

/// Metadata whose timestamp fits the wire's signed 64-bit field.
pub open spec fn metadata_valid(m: MetadataView) -> bool {
    i64::MIN <= m.timestamp <= i64::MAX
}

proof fn lemma_parse_metadata(m: MetadataView, rest: Seq<char>)
    requires
        metadata_valid(m),
    ensures
        parse_metadata(metadata_json(m) + rest) == Some((m, rest)),
{
    let s = metadata_json(m) + rest;
    let p0 = "{\"provenance\":["@;
    let s1 = strings_json(m.provenance) + seq![']'] + (",\"plexus_hash\":"@ + json_string(
        m.plexus_hash,
    ) + ",\"timestamp\":"@ + dec_i64(m.timestamp as i64) + seq!['}'] + rest);
    assert(s =~= p0 + s1);
    lemma_take_prefix(p0, s1);
    lemma_strings_json_len(m.provenance);
    let after_list = ",\"plexus_hash\":"@ + json_string(m.plexus_hash) + ",\"timestamp\":"@
        + dec_i64(m.timestamp as i64) + seq!['}'] + rest;
    assert(s1 =~= strings_json(m.provenance) + seq![']'] + after_list);
    lemma_parse_string_list(m.provenance, after_list, s1.len() + 1);
    let p2 = ",\"plexus_hash\":"@;
    let s3 = json_string(m.plexus_hash) + (",\"timestamp\":"@ + dec_i64(m.timestamp as i64)
        + seq!['}'] + rest);
    assert(after_list =~= p2 + s3);
    lemma_take_prefix(p2, s3);
    let after_hash = ",\"timestamp\":"@ + dec_i64(m.timestamp as i64) + seq!['}'] + rest;
    assert(s3 =~= json_string(m.plexus_hash) + after_hash);
    lemma_parse_jstring(m.plexus_hash, after_hash);
    let p4 = ",\"timestamp\":"@;
    let s5 = dec_i64(m.timestamp as i64) + (seq!['}'] + rest);
    assert(after_hash =~= p4 + s5);
    lemma_take_prefix(p4, s5);
    let closing = seq!['}'] + rest;
    assert(closing[0] == '}');
    assert(!is_digit(closing[0]));
    lemma_parse_int_dec(m.timestamp as i64, closing);
    assert(s5 =~= dec_i64(m.timestamp as i64) + closing);
    assert(closing.skip(1) =~= rest);
    assert(parse_metadata(s) matches Some(p) && p.0 =~~= m && p.1 =~= rest);
}

} // verus!

verus! {

/// Parses a boolean literal.
pub open spec fn parse_bool(s: Seq<char>) -> Option<(bool, Seq<char>)> {
    match take_prefix(s, bool_chars(true)) {
        Some(r) => Some((true, r)),
        None => match take_prefix(s, bool_chars(false)) {
            Some(r) => Some((false, r)),
            None => None,
        },
    }
}

proof fn lemma_parse_bool(b: bool, rest: Seq<char>)
    ensures
        parse_bool(bool_chars(b) + rest) == Some((b, rest)),
{
    let s = bool_chars(b) + rest;
    if b {
        lemma_take_prefix(bool_chars(true), rest);
    } else {
        assert(s[0] == 'f');
        assert(take_prefix(s, bool_chars(true)) is None) by {
            if take_prefix(s, bool_chars(true)) is Some {
                assert(s.take(4)[0] == bool_chars(true)[0]);
            }
        }
        lemma_take_prefix(bool_chars(false), rest);
    }
}

/// Parses the fields of a data envelope after its tag.
pub open spec fn parse_data_body(s: Seq<char>) -> Option<ItemView> {
    match take_prefix(s, ",\"metadata\":"@) {
        None => None,
        Some(s1) => match parse_metadata(s1) {
            None => None,
            Some((metadata, s2)) => match take_prefix(s2, ",\"content_type\":"@) {
                None => None,
                Some(s3) => match parse_jstring(s3) {
                    None => None,
                    Some((content_type, s4)) => match take_prefix(s4, ",\"content\":"@) {
                        None => None,
                        Some(s5) => {
                            if s5.len() > 0 && s5.last() == '}' {
                                Some(
                                    ItemView::Data {
                                        metadata,
                                        content_type,
                                        content: s5.take(s5.len() - 1),
                                    },
                                )
                            } else {
                                None
                            }
                        },
                    },
                },
            },
        },
    }
}

/// Parses the fields of a progress envelope after its tag.
pub open spec fn parse_progress_body(s: Seq<char>) -> Option<ItemView> {
    match take_prefix(s, ",\"metadata\":"@) {
        None => None,
        Some(s1) => match parse_metadata(s1) {
            None => None,
            Some((metadata, s2)) => match take_prefix(s2, ",\"message\":"@) {
                None => None,
                Some(s3) => match parse_jstring(s3) {
                    None => None,
                    Some((message, s4)) => {
                        if s4.len() == 1 && s4[0] == '}' {
                            Some(ItemView::Progress { metadata, message, percentage: None })
                        } else if s4.len() > 0 && s4[0] == ',' {
                            match take_prefix(s4, seq![','] + "\"percentage\":"@) {
                                None => None,
                                Some(s5) => match parse_number(s5) {
                                    None => None,
                                    Some((v, s6)) => {
                                        if 0 <= v <= 255 && s6 =~= seq!['.', '0', '}'] {
                                            Some(
                                                ItemView::Progress {
                                                    metadata,
                                                    message,
                                                    percentage: Some(v as u8),
                                                },
                                            )
                                        } else {
                                            None
                                        }
                                    },
                                },
                            }
                        } else {
                            None
                        }
                    },
                },
            },
        },
    }
}

/// Parses the fields of an error envelope after its tag.
pub open spec fn parse_error_body(s: Seq<char>) -> Option<ItemView> {
    match take_prefix(s, ",\"metadata\":"@) {
        None => None,
        Some(s1) => match parse_metadata(s1) {
            None => None,
            Some((metadata, s2)) => match take_prefix(s2, ",\"message\":"@) {
                None => None,
                Some(s3) => match parse_jstring(s3) {
                    None => None,
                    Some((message, s4)) => {
                        if s4.len() >= 3 && s4[0] == ',' && s4[2] == 'c' {
                            match take_prefix(s4, seq![','] + "\"code\":"@) {
                                None => None,
                                Some(s5) => match parse_jstring(s5) {
                                    None => None,
                                    Some((code, s6)) => parse_error_tail(
                                        metadata,
                                        message,
                                        Some(code),
                                        s6,
                                    ),
                                },
                            }
                        } else {
                            parse_error_tail(metadata, message, None, s4)
                        }
                    },
                },
            },
        },
    }
}

/// Parses the fields of a done envelope after its tag.
pub open spec fn parse_done_body(s: Seq<char>) -> Option<ItemView> {
    match take_prefix(s, ",\"metadata\":"@) {
        None => None,
        Some(s1) => match parse_metadata(s1) {
            None => None,
            Some((metadata, s2)) => {
                if s2.len() == 1 && s2[0] == '}' {
                    Some(ItemView::Done { metadata })
                } else {
                    None
                }
            },
        },
    }
}

/// Parses the fields of a request envelope after its tag.
pub open spec fn parse_request_body(s: Seq<char>) -> Option<ItemView> {
    match take_prefix(s, ",\"request_id\":"@) {
        None => None,
        Some(s1) => match parse_jstring(s1) {
            None => None,
            Some((request_id, s2)) => match take_prefix(s2, ",\"timeout_ms\":"@) {
                None => None,
                Some(s3) => match parse_number(s3) {
                    None => None,
                    Some((t, s4)) => {
                        if 0 <= t <= u64::MAX {
                            match take_prefix(s4, seq![','] + "\"request_data\":"@) {
                                None => None,
                                Some(s5) => {
                                    if s5.len() > 0 && s5.last() == '}' {
                                        Some(
                                            ItemView::Request {
                                                request_id,
                                                request_data: s5.take(s5.len() - 1),
                                                timeout_ms: t as u64,
                                            },
                                        )
                                    } else {
                                        None
                                    }
                                },
                            }
                        } else {
                            None
                        }
                    },
                },
            },
        },
    }
}

/// Parses the body of an envelope after its type tag, each variant
/// identified by the length and second character of its tag.
pub open spec fn parse_item_body(tag: Seq<char>, s: Seq<char>) -> Option<ItemView> {
    if tag.len() == 4 && tag[1] == 'a' {
        parse_data_body(s)
    } else if tag.len() == 8 {
        parse_progress_body(s)
    } else if tag.len() == 5 {
        parse_error_body(s)
    } else if tag.len() == 4 {
        parse_done_body(s)
    } else if tag.len() == 7 {
        parse_request_body(s)
    } else {
        None
    }
}

/// Parses the recoverable flag and closing brace of an error envelope.
pub open spec fn parse_error_tail(
    metadata: MetadataView,
    message: Seq<char>,
    code: Option<Seq<char>>,
    s: Seq<char>,
) -> Option<ItemView> {
    match take_prefix(s, seq![','] + "\"recoverable\":"@) {
        None => None,
        Some(s1) => match parse_bool(s1) {
            None => None,
            Some((recoverable, s2)) => {
                if s2.len() == 1 && s2[0] == '}' {
                    Some(ItemView::Error { metadata, message, code, recoverable })
                } else {
                    None
                }
            },
        },
    }
}

/// Parses the canonical JSON text of a stream envelope.
pub open spec fn parse_item(s: Seq<char>) -> Option<ItemView> {
    match take_prefix(s, "{\"type\":"@) {
        None => None,
        Some(s1) => match parse_jstring(s1) {
            None => None,
            Some((tag, r)) => parse_item_body(tag, r),
        },
    }
}

/// Envelopes whose numeric fields fit their wire form.
pub open spec fn item_valid(v: ItemView) -> bool {
    match v {
        ItemView::Data { metadata, .. } => metadata_valid(metadata),
        ItemView::Progress { metadata, .. } => metadata_valid(metadata),
        ItemView::Error { metadata, .. } => metadata_valid(metadata),
        ItemView::Done { metadata } => metadata_valid(metadata),
        ItemView::Request { .. } => true,
    }
}

/// Decoding inverts encoding: parsing the canonical text of an envelope
/// yields the envelope back. Re-rendering a decoded envelope is therefore
/// byte-identical to the original text.
/// The shared spine of the enveloped variants: after the metadata key
/// comes the metadata, then a key, then a JSON string field, then `after`.
#[verifier::rlimit(100)]
#[verifier::spinoff_prover]
proof fn lemma_meta_and_string(
    metadata: MetadataView,
    key: Seq<char>,
    strfield: Seq<char>,
    after: Seq<char>,
)
    requires
        metadata_valid(metadata),
    ensures
        ({
            let body = ",\"metadata\":"@ + metadata_json(metadata) + key + json_string(strfield)
                + after;
            &&& take_prefix(body, ",\"metadata\":"@) == Some(
                metadata_json(metadata) + (key + json_string(strfield) + after),
            )
            &&& parse_metadata(metadata_json(metadata) + (key + json_string(strfield) + after))
                == Some((metadata, key + json_string(strfield) + after))
            &&& take_prefix(key + json_string(strfield) + after, key) == Some(
                json_string(strfield) + after,
            )
            &&& parse_jstring(json_string(strfield) + after) == Some((strfield, after))
        }),
{
    let body = ",\"metadata\":"@ + metadata_json(metadata) + key + json_string(strfield) + after;
    let p1 = ",\"metadata\":"@;
    let s1 = metadata_json(metadata) + (key + json_string(strfield) + after);
    assert(body =~= p1 + s1);
    lemma_take_prefix(p1, s1);
    let after_meta = key + json_string(strfield) + after;
    assert(s1 =~= metadata_json(metadata) + after_meta);
    lemma_parse_metadata(metadata, after_meta);
    let s3 = json_string(strfield) + after;
    assert(after_meta =~= key + s3);
    lemma_take_prefix(key, s3);
    lemma_parse_jstring(strfield, after);
}

#[verifier::rlimit(100)]
#[verifier::spinoff_prover]
proof fn lemma_data_round_trip(metadata: MetadataView, content_type: Seq<char>, content: Seq<char>)
    requires
        metadata_valid(metadata),
    ensures
        parse_item(item_json(ItemView::Data { metadata, content_type, content })) == Some(
            ItemView::Data { metadata, content_type, content },
        ),
{
    let v = ItemView::Data { metadata, content_type, content };
    let s = item_json(v);
    let p0 = "{\"type\":"@;
    reveal_strlit("data");
    let tag = "data"@;
    let after_ct = ",\"content\":"@ + content + seq!['}'];
    let body = ",\"metadata\":"@ + metadata_json(metadata) + ",\"content_type\":"@ + json_string(
        content_type,
    ) + after_ct;
    assert(s =~= p0 + (json_string(tag) + body));
    lemma_take_prefix(p0, json_string(tag) + body);
    lemma_parse_jstring(tag, body);
    assert(tag.len() == 4 && tag[1] == 'a');
    lemma_meta_and_string(metadata, ",\"content_type\":"@, content_type, after_ct);
    let p4 = ",\"content\":"@;
    let s5 = content + seq!['}'];
    assert(after_ct =~= p4 + s5);
    lemma_take_prefix(p4, s5);
    assert(s5.last() == '}');
    assert(s5.take(s5.len() - 1) =~= content);
    assert(parse_item(s) matches Some(p) && p =~~= v);
}

#[verifier::rlimit(100)]
#[verifier::spinoff_prover]
proof fn lemma_done_round_trip(metadata: MetadataView)
    requires
        metadata_valid(metadata),
    ensures
        parse_item(item_json(ItemView::Done { metadata })) == Some(ItemView::Done { metadata }),
{
    let v = ItemView::Done { metadata };
    let s = item_json(v);
    let p0 = "{\"type\":"@;
    reveal_strlit("done");
    let tag = "done"@;
    let body = ",\"metadata\":"@ + metadata_json(metadata) + seq!['}'];
    assert(s =~= p0 + (json_string(tag) + body));
    lemma_take_prefix(p0, json_string(tag) + body);
    lemma_parse_jstring(tag, body);
    assert(tag.len() == 4 && tag[1] == 'o');
    assert(!(tag.len() == 4 && tag[1] == 'a'));
    let p1 = ",\"metadata\":"@;
    let s1 = metadata_json(metadata) + seq!['}'];
    assert(body =~= p1 + s1);
    lemma_take_prefix(p1, s1);
    lemma_parse_metadata(metadata, seq!['}']);
    assert(parse_item(s) matches Some(p) && p =~~= v);
}

#[verifier::rlimit(100)]
#[verifier::spinoff_prover]
proof fn lemma_progress_round_trip(
    metadata: MetadataView,
    message: Seq<char>,
    percentage: Option<u8>,
)
    requires
        metadata_valid(metadata),
    ensures
        parse_item(item_json(ItemView::Progress { metadata, message, percentage })) == Some(
            ItemView::Progress { metadata, message, percentage },
        ),
{
    let v = ItemView::Progress { metadata, message, percentage };
    let s = item_json(v);
    let p0 = "{\"type\":"@;
    reveal_strlit("progress");
    let tag = "progress"@;
    let after_msg = percentage_json(percentage) + seq!['}'];
    let body = ",\"metadata\":"@ + metadata_json(metadata) + ",\"message\":"@ + json_string(
        message,
    ) + after_msg;
    assert(s =~= p0 + (json_string(tag) + body));
    lemma_take_prefix(p0, json_string(tag) + body);
    lemma_parse_jstring(tag, body);
    assert(tag.len() == 8);
    assert(!(tag.len() == 4 && tag[1] == 'a'));
    lemma_meta_and_string(metadata, ",\"message\":"@, message, after_msg);
    match percentage {
        None => {
            assert(after_msg =~= seq!['}']);
            assert(parse_item(s) matches Some(p) && p =~~= v);
        },
        Some(pv) => {
            let pp = seq![','] + "\"percentage\":"@;
            let s5 = dec_u64(pv as u64) + seq!['.', '0', '}'];
            assert(after_msg =~= pp + s5);
            assert(after_msg[0] == ',');
            assert(after_msg.len() > 1);
            lemma_take_prefix(pp, s5);
            let numtail = seq!['.', '0', '}'];
            assert(s5 =~= dec_nat(pv as nat) + numtail);
            assert(!is_digit(numtail[0]));
            lemma_parse_number_dec(pv as nat, numtail);
            assert(parse_item(s) matches Some(p) && p =~~= v);
        },
    }
}

#[verifier::rlimit(100)]
#[verifier::spinoff_prover]
proof fn lemma_error_round_trip(
    metadata: MetadataView,
    message: Seq<char>,
    code: Option<Seq<char>>,
    recoverable: bool,
)
    requires
        metadata_valid(metadata),
    ensures
        parse_item(item_json(ItemView::Error { metadata, message, code, recoverable })) == Some(
            ItemView::Error { metadata, message, code, recoverable },
        ),
{
    let v = ItemView::Error { metadata, message, code, recoverable };
    let s = item_json(v);
    let p0 = "{\"type\":"@;
    reveal_strlit("error");
    let tag = "error"@;
    let rec_tail = seq![','] + "\"recoverable\":"@ + bool_chars(recoverable) + seq!['}'];
    let after_msg = code_json(code) + rec_tail;
    let body = ",\"metadata\":"@ + metadata_json(metadata) + ",\"message\":"@ + json_string(
        message,
    ) + after_msg;
    assert(s =~= p0 + (json_string(tag) + body));
    lemma_take_prefix(p0, json_string(tag) + body);
    lemma_parse_jstring(tag, body);
    assert(tag.len() == 5);
    assert(!(tag.len() == 4 && tag[1] == 'a'));
    lemma_meta_and_string(metadata, ",\"message\":"@, message, after_msg);
    match code {
        Some(cv) => {
            reveal_strlit("\"code\":");
            let pc = seq![','] + "\"code\":"@;
            let s5 = json_string(cv) + rec_tail;
            assert(after_msg =~= pc + s5);
            assert(after_msg[0] == ',');
            assert(after_msg[2] == 'c');
            assert(after_msg.len() >= 3);
            lemma_take_prefix(pc, s5);
            lemma_parse_jstring(cv, rec_tail);
            lemma_parse_error_tail(metadata, message, code, recoverable);
            assert(parse_item_body(tag, body) == Some(v));
            assert(parse_item(s) matches Some(p) && p =~~= v);
        },
        None => {
            reveal_strlit("\"recoverable\":");
            assert(after_msg =~= rec_tail);
            assert(after_msg[0] == ',');
            assert(after_msg[2] == 'r');
            assert(!(after_msg.len() >= 3 && after_msg[0] == ',' && after_msg[2] == 'c'));
            lemma_parse_error_tail(metadata, message, code, recoverable);
            assert(parse_item_body(tag, body) == Some(v));
            assert(parse_item(s) matches Some(p) && p =~~= v);
        },
    }
}

#[verifier::rlimit(100)]
#[verifier::spinoff_prover]
proof fn lemma_request_round_trip(request_id: Seq<char>, request_data: Seq<char>, timeout_ms: u64)
    ensures
        parse_item(item_json(ItemView::Request { request_id, request_data, timeout_ms })) == Some(
            ItemView::Request { request_id, request_data, timeout_ms },
        ),
{
    let v = ItemView::Request { request_id, request_data, timeout_ms };
    let s = item_json(v);
    let p0 = "{\"type\":"@;
    reveal_strlit("request");
    let tag = "request"@;
    let body = ",\"request_id\":"@ + json_string(request_id) + ",\"timeout_ms\":"@ + dec_u64(
        timeout_ms,
    ) + seq![','] + "\"request_data\":"@ + request_data + seq!['}'];
    assert(s =~= p0 + (json_string(tag) + body));
    lemma_take_prefix(p0, json_string(tag) + body);
    lemma_parse_jstring(tag, body);
    assert(tag.len() == 7);
    assert(!(tag.len() == 4 && tag[1] == 'a'));
    let p1 = ",\"request_id\":"@;
    let s1 = json_string(request_id) + (",\"timeout_ms\":"@ + dec_u64(timeout_ms) + seq![',']
        + "\"request_data\":"@ + request_data + seq!['}']);
    assert(body =~= p1 + s1);
    lemma_take_prefix(p1, s1);
    let after_id = ",\"timeout_ms\":"@ + dec_u64(timeout_ms) + seq![','] + "\"request_data\":"@
        + request_data + seq!['}'];
    assert(s1 =~= json_string(request_id) + after_id);
    lemma_parse_jstring(request_id, after_id);
    let p2 = ",\"timeout_ms\":"@;
    let s3 = dec_u64(timeout_ms) + (seq![','] + "\"request_data\":"@ + request_data + seq!['}']);
    assert(after_id =~= p2 + s3);
    lemma_take_prefix(p2, s3);
    let numtail = seq![','] + "\"request_data\":"@ + request_data + seq!['}'];
    assert(s3 =~= dec_nat(timeout_ms as nat) + numtail);
    assert(!is_digit(numtail[0]));
    lemma_parse_number_dec(timeout_ms as nat, numtail);
    let p4 = seq![','] + "\"request_data\":"@;
    let s5 = request_data + seq!['}'];
    assert(numtail =~= p4 + s5);
    lemma_take_prefix(p4, s5);
    assert(s5.last() == '}');
    assert(s5.take(s5.len() - 1) =~= request_data);
    assert(parse_item(s) matches Some(p) && p =~~= v);
}

/// Decoding inverts encoding: parsing the canonical text of an envelope
/// yields the envelope back. Re-rendering a decoded envelope is therefore
/// byte-identical to the original text.
pub proof fn lemma_item_round_trip(v: ItemView)
    requires
        item_valid(v),
    ensures
        parse_item(item_json(v)) == Some(v),
{
    match v {
        ItemView::Data { metadata, content_type, content } => {
            lemma_data_round_trip(metadata, content_type, content);
        },
        ItemView::Done { metadata } => {
            lemma_done_round_trip(metadata);
        },
        ItemView::Progress { metadata, message, percentage } => {
            lemma_progress_round_trip(metadata, message, percentage);
        },
        ItemView::Error { metadata, message, code, recoverable } => {
            lemma_error_round_trip(metadata, message, code, recoverable);
        },
        ItemView::Request { request_id, request_data, timeout_ms } => {
            lemma_request_round_trip(request_id, request_data, timeout_ms);
        },
    }
}

proof fn lemma_parse_error_tail(
    metadata: MetadataView,
    message: Seq<char>,
    code: Option<Seq<char>>,
    recoverable: bool,
)
    ensures
        parse_error_tail(
            metadata,
            message,
            code,
            seq![','] + "\"recoverable\":"@ + bool_chars(recoverable) + seq!['}'],
        ) == Some(ItemView::Error { metadata, message, code, recoverable }),
{
    let s = seq![','] + "\"recoverable\":"@ + bool_chars(recoverable) + seq!['}'];
    let p = seq![','] + "\"recoverable\":"@;
    let s1 = bool_chars(recoverable) + seq!['}'];
    assert(s =~= p + s1);
    lemma_take_prefix(p, s1);
    lemma_parse_bool(recoverable, seq!['}']);
}

} // verus!

verus! {

/// Glues a decoded prefix onto the rest of a string-body parse.
pub open spec fn glue(acc: Seq<char>, o: Option<(Seq<char>, Seq<char>)>) -> Option<
    (Seq<char>, Seq<char>),
> {
    match o {
        Some((t, r)) => Some((acc + t, r)),
        None => None,
    }
}

/// Consumes the expected prefix starting at character `i`, returning the
/// position after it.
fn eat_prefix(s: &str, i: usize, p: &str) -> (r: Option<usize>)
    requires
        i <= s@.len(),
    ensures
        match r {
            Some(j) => i <= j <= s@.len() && take_prefix(s@.skip(i as int), p@) == Some(
                s@.skip(j as int),
            ),
            None => take_prefix(s@.skip(i as int), p@) is None,
        },
{
    let n = s.unicode_len();
    let m = p.unicode_len();
    if m > n - i {
        proof {
            assert(s@.skip(i as int).len() < p@.len());
        }
        return None;
    }
    let mut k: usize = 0;
    while k < m
        invariant
            n == s@.len(),
            m == p@.len(),
            i + m <= n,
            0 <= k <= m,
            forall|q: int| 0 <= q < k ==> s@[i + q] == p@[q],
        decreases m - k,
    {
        if s.get_char(i + k) != p.get_char(k) {
            proof {
                let sub = s@.skip(i as int);
                assert(sub.take(p@.len() as int)[k as int] == s@[i + k]);
                assert(sub.take(p@.len() as int) != p@);
            }
            return None;
        }
        k = k + 1;
    }
    proof {
        let sub = s@.skip(i as int);
        assert(sub.take(p@.len() as int) =~= p@);
        assert(sub.skip(p@.len() as int) =~= s@.skip(i + m));
    }
    Some(i + m)
}

/// Scans a JSON string literal starting at character `i`, unescaping its
/// body; returns the text and the position after the closing quote.
fn scan_string(s: &str, i: usize) -> (r: Option<(String, usize)>)
    requires
        i <= s@.len(),
    ensures
        match r {
            Some((out, j)) => i < j <= s@.len() && parse_jstring(s@.skip(i as int)) == Some(
                (out@, s@.skip(j as int)),
            ),
            None => parse_jstring(s@.skip(i as int)) is None,
        },
{
    let n = s.unicode_len();
    if i >= n || s.get_char(i) != '"' {
        return None;
    }
    proof {
        assert(s@.skip(i as int)[0] == '"');
        assert(s@.skip(i as int).skip(1) =~= s@.skip(i + 1));
    }
    let mut acc = String::new();
    let mut k: usize = i + 1;
    proof {
        assert(glue(acc@, parse_string_body(s@.skip(k as int))) == parse_string_body(
            s@.skip(i + 1),
        )) by {
            match parse_string_body(s@.skip(k as int)) {
                Some((t, r)) => {
                    assert(acc@ + t =~= t);
                },
                None => {},
            }
        }
    }
    while k < n
        invariant
            n == s@.len(),
            i < n,
            s@[i as int] == '"',
            parse_jstring(s@.skip(i as int)) == parse_string_body(s@.skip(i + 1)),
            i + 1 <= k <= n,
            parse_string_body(s@.skip(i + 1)) == glue(acc@, parse_string_body(s@.skip(k as int))),
        decreases n - k,
    {
        let ghost rem = s@.skip(k as int);
        let c = s.get_char(k);
        proof {
            assert(rem[0] == c);
        }
        if c == '"' {
            proof {
                assert(rem.skip(1) =~= s@.skip(k + 1));
                assert(parse_string_body(rem) == Some((Seq::<char>::empty(), s@.skip(k + 1))));
                assert(acc@ + Seq::<char>::empty() =~= acc@);
            }
            return Some((acc, k + 1));
        } else if c == '\\' {
            if k + 1 >= n {
                proof {
                    assert(rem.len() < 2);
                }
                return None;
            }
            let e = s.get_char(k + 1);
            proof {
                assert(rem[1] == e);
            }
            if e == 'u' {
                if n - k < 6 {
                    proof {
                        assert(rem.len() < 6);
                    }
                    return None;
                }
                if s.get_char(k + 2) != '0' || s.get_char(k + 3) != '0' {
                    proof {
                        assert(rem[2] == s@[k + 2] && rem[3] == s@[k + 3]);
                    }
                    return None;
                }
                let h = match hex_val_char(s.get_char(k + 4)) {
                    Some(h) => h,
                    None => {
                        proof {
                            assert(rem[4] == s@[k + 4]);
                        }
                        return None;
                    },
                };
                let l = match hex_val_char(s.get_char(k + 5)) {
                    Some(l) => l,
                    None => {
                        proof {
                            assert(rem[4] == s@[k + 4] && rem[5] == s@[k + 5]);
                        }
                        return None;
                    },
                };
                let v: u32 = 16 * h + l;
                let decoded: char = (v as u8) as char;
                let ghost accb = acc@;
                crate::strutil::push_char(&mut acc, decoded);
                proof {
                    assert(rem[2] == '0' && rem[3] == '0');
                    assert(rem[4] == s@[k + 4] && rem[5] == s@[k + 5]);
                    assert(rem.skip(6) =~= s@.skip(k + 6));
                    assert(decoded as int == 16 * hex_val(rem[4])->0 + hex_val(rem[5])->0);
                    assert(decoded == ((16 * hex_val(rem[4])->0 + hex_val(rem[5])->0) as char));
                    lemma_glue_step(accb, decoded, s@.skip(i + 1), rem, s@.skip(k + 6));
                }
                k = k + 6;
            } else if e == '"' || e == '\\' || e == 'n' || e == 'r' || e == 't' {
                let decoded: char = if e == '"' {
                    '"'
                } else if e == '\\' {
                    '\\'
                } else if e == 'n' {
                    '\n'
                } else if e == 'r' {
                    '\r'
                } else {
                    '\t'
                };
                let ghost accb = acc@;
                crate::strutil::push_char(&mut acc, decoded);
                proof {
                    assert(rem.skip(2) =~= s@.skip(k + 2));
                    lemma_glue_step(accb, decoded, s@.skip(i + 1), rem, s@.skip(k + 2));
                }
                k = k + 2;
            } else {
                return None;
            }
        } else {
            let ghost accb = acc@;
            crate::strutil::push_char(&mut acc, c);
            proof {
                assert(rem.skip(1) =~= s@.skip(k + 1));
                lemma_glue_step(accb, c, s@.skip(i + 1), rem, s@.skip(k + 1));
            }
            k = k + 1;
        }
    }
    proof {
        assert(s@.skip(k as int).len() == 0);
    }
    None
}

/// One unescape step: when the remainder parses to the step's character
/// followed by the tail's parse, gluing commutes with consuming the step.
proof fn lemma_glue_step(
    acc: Seq<char>,
    c: char,
    whole: Seq<char>,
    rem: Seq<char>,
    next: Seq<char>,
)
    requires
        parse_string_body(whole) == glue(acc, parse_string_body(rem)),
        parse_string_body(rem) == (match parse_string_body(next) {
            Some((t, r)) => Some((seq![c] + t, r)),
            None => None::<(Seq<char>, Seq<char>)>,
        }),
    ensures
        parse_string_body(whole) == glue(acc.push(c), parse_string_body(next)),
{
    match parse_string_body(next) {
        Some((t, r)) => {
            assert(acc + (seq![c] + t) =~= acc.push(c) + t);
        },
        None => {},
    }
}

/// The value of a lowercase hex digit character, executable form.
fn hex_val_char(c: char) -> (r: Option<u32>)
    ensures
        match r {
            Some(v) => hex_val(c) == Some(v as int) && v < 16,
            None => hex_val(c) is None,
        },
{
    if c == '0' {
        Some(0)
    } else if c == '1' {
        Some(1)
    } else if c == '2' {
        Some(2)
    } else if c == '3' {
        Some(3)
    } else if c == '4' {
        Some(4)
    } else if c == '5' {
        Some(5)
    } else if c == '6' {
        Some(6)
    } else if c == '7' {
        Some(7)
    } else if c == '8' {
        Some(8)
    } else if c == '9' {
        Some(9)
    } else if c == 'a' {
        Some(10)
    } else if c == 'b' {
        Some(11)
    } else if c == 'c' {
        Some(12)
    } else if c == 'd' {
        Some(13)
    } else if c == 'e' {
        Some(14)
    } else if c == 'f' {
        Some(15)
    } else {
        None
    }
}

} // verus!

verus! {

proof fn lemma_parse_digits_ge(s: Seq<char>, a: int)
    requires
        a >= 0,
    ensures
        parse_digits(s, a).0 >= a,
        parse_digits(s, a).1.len() <= s.len(),
    decreases s.len(),
{
    if s.len() > 0 && is_digit(s[0]) {
        lemma_parse_digits_ge(s.skip(1), a * 10 + digit_val(s[0]));
    }
}

/// Scans a run of decimal digits starting at `i`. `None` marks either no
/// digit at `i`, or a value beyond the unsigned 64-bit range — the parse
/// yields a number above `u64::MAX` then, which every numeric field
/// rejects.
fn scan_number(s: &str, i: usize) -> (r: Option<(u64, usize)>)
    requires
        i <= s@.len(),
    ensures
        match r {
            Some((v, j)) => i < j <= s@.len() && parse_number(s@.skip(i as int)) == Some(
                (v as int, s@.skip(j as int)),
            ),
            None => match parse_number(s@.skip(i as int)) {
                Some((pv, _)) => pv > u64::MAX,
                None => true,
            },
        },
{
    let n = s.unicode_len();
    if i >= n {
        return None;
    }
    let c0 = s.get_char(i);
    if !(c0 as u32 >= 48 && c0 as u32 <= 57) {
        proof {
            vstd::utf8::char_is_scalar(c0);
            assert(s@.skip(i as int)[0] == c0);
            assert(!is_digit(c0));
        }
        return None;
    }
    let mut acc: u64 = 0;
    let mut k: usize = i;
    proof {
        assert(parse_digits(s@.skip(i as int), 0) == parse_digits(s@.skip(k as int), acc as int));
        assert(s@.skip(i as int)[0] == c0);
        assert(is_digit(c0));
    }
    while k < n
        invariant
            n == s@.len(),
            i <= k <= n,
            i < n,
            is_digit(s@[i as int]),
            s@.skip(i as int)[0] == s@[i as int],
            parse_digits(s@.skip(i as int), 0) == parse_digits(s@.skip(k as int), acc as int),
        decreases n - k,
    {
        let ghost rem = s@.skip(k as int);
        let c = s.get_char(k);
        proof {
            assert(rem[0] == c);
        }
        if !(c as u32 >= 48 && c as u32 <= 57) {
            proof {
                vstd::utf8::char_is_scalar(c);
                assert(!is_digit(c));
                assert(parse_digits(rem, acc as int) == (acc as int, rem));
            }
            return Some((acc, k));
        }
        let d: u32 = c as u32 - 48;
        proof {
            vstd::utf8::char_is_scalar(c);
            assert(is_digit(c));
            assert(digit_val(c) == d as int);
            assert(rem.skip(1) =~= s@.skip(k + 1));
        }
        let widened = match acc.checked_mul(10) {
            Some(w) => w,
            None => {
                proof {
                    assert(parse_digits(rem, acc as int) == parse_digits(
                        s@.skip(k + 1),
                        acc as int * 10 + d as int,
                    ));
                    lemma_parse_digits_ge(s@.skip(k + 1), acc as int * 10 + d as int);
                    assert(acc as int * 10 + d as int > u64::MAX);
                }
                return None;
            },
        };
        let bumped = match widened.checked_add(d as u64) {
            Some(b) => b,
            None => {
                proof {
                    assert(parse_digits(rem, acc as int) == parse_digits(
                        s@.skip(k + 1),
                        acc as int * 10 + d as int,
                    ));
                    lemma_parse_digits_ge(s@.skip(k + 1), acc as int * 10 + d as int);
                    assert(acc as int * 10 + d as int > u64::MAX);
                }
                return None;
            },
        };
        proof {
            assert(parse_digits(rem, acc as int) == parse_digits(
                s@.skip(k + 1),
                acc as int * 10 + d as int,
            ));
            assert(bumped as int == acc as int * 10 + d as int);
        }
        acc = bumped;
        k = k + 1;
    }
    proof {
        assert(s@.skip(k as int).len() == 0);
        assert(parse_digits(s@.skip(k as int), acc as int) == (acc as int, s@.skip(k as int)));
    }
    Some((acc, k))
}

/// Scans an optionally minus-signed decimal number into the signed 64-bit
/// range; values outside it come back `None`, as does a missing digit.
fn scan_int(s: &str, i: usize) -> (r: Option<(i64, usize)>)
    requires
        i <= s@.len(),
    ensures
        match r {
            Some((v, j)) => i < j <= s@.len() && parse_int(s@.skip(i as int)) == Some(
                (v as int, s@.skip(j as int)),
            ),
            None => match parse_int(s@.skip(i as int)) {
                Some((pv, _)) => pv > i64::MAX || pv < i64::MIN,
                None => true,
            },
        },
{
    let n = s.unicode_len();
    if i < n && s.get_char(i) == '-' {
        proof {
            assert(s@.skip(i as int)[0] == '-');
            assert(s@.skip(i as int).skip(1) =~= s@.skip(i + 1));
        }
        match scan_number(s, i + 1) {
            Some((v, j)) => {
                if v <= 9223372036854775807u64 {
                    Some((-(v as i64), j))
                } else if v == 9223372036854775808u64 {
                    Some((i64::MIN, j))
                } else {
                    None
                }
            },
            None => None,
        }
    } else {
        proof {
            if i < n {
                assert(s@.skip(i as int)[0] == s@[i as int]);
            }
        }
        match scan_number(s, i) {
            Some((v, j)) => {
                if v <= 9223372036854775807u64 {
                    Some((v as i64, j))
                } else {
                    None
                }
            },
            None => None,
        }
    }
}

} // verus!

verus! {

proof fn lemma_parse_body_consumes(s: Seq<char>)
    ensures
        match parse_string_body(s) {
            Some((t, r)) => r.len() < s.len(),
            None => true,
        },
    decreases s.len(),
{
    if s.len() > 0 && s[0] != '"' {
        if s[0] == '\\' {
            if s.len() >= 2 {
                if s[1] == 'u' {
                    if s.len() >= 6 {
                        lemma_parse_body_consumes(s.skip(6));
                    }
                } else {
                    lemma_parse_body_consumes(s.skip(2));
                }
            }
        } else {
            lemma_parse_body_consumes(s.skip(1));
        }
    }
}

/// The string-list parser is fuel-insensitive once the fuel covers the
/// input length.
proof fn lemma_list_fuel(s: Seq<char>, f1: nat, f2: nat)
    requires
        f1 >= s.len() + 1,
        f2 >= s.len() + 1,
    ensures
        parse_string_list(s, f1) == parse_string_list(s, f2),
    decreases s.len(),
{
    if s.len() > 0 && s[0] != ']' {
        match parse_jstring(s) {
            None => {},
            Some((x, r)) => {
                lemma_parse_body_consumes(s.skip(1));
                assert(r.len() < s.len());
                if r.len() > 0 && r[0] == ',' {
                    assert(r.skip(1).len() < s.len());
                    lemma_list_fuel(r.skip(1), (f1 - 1) as nat, (f2 - 1) as nat);
                }
            },
        }
    }
}

/// Glues already-scanned parts onto the rest of a string-list parse.
pub open spec fn glue_list(
    acc: Seq<Seq<char>>,
    o: Option<(Seq<Seq<char>>, Seq<char>)>,
) -> Option<(Seq<Seq<char>>, Seq<char>)> {
    match o {
        Some((xs, r)) => Some((acc + xs, r)),
        None => None,
    }
}

/// Scans the comma-separated string literals before a closing `]`,
/// starting at character `i`.
fn scan_string_list(s: &str, i: usize) -> (r: Option<(Vec<String>, usize)>)
    requires
        i <= s@.len(),
    ensures
        match r {
            Some((parts, j)) => i < j <= s@.len() && parse_string_list(
                s@.skip(i as int),
                s@.skip(i as int).len() + 1,
            ) == Some((parts.deep_view(), s@.skip(j as int))),
            None => parse_string_list(s@.skip(i as int), s@.skip(i as int).len() + 1) is None,
        },
{
    let n = s.unicode_len();
    let mut parts: Vec<String> = Vec::new();
    let mut k: usize = i;
    proof {
        assert(parts.deep_view() =~~= Seq::<Seq<char>>::empty());
        assert(glue_list(
            parts.deep_view(),
            parse_string_list(s@.skip(k as int), s@.skip(k as int).len() + 1),
        ) == parse_string_list(s@.skip(i as int), s@.skip(i as int).len() + 1)) by {
            match parse_string_list(s@.skip(k as int), s@.skip(k as int).len() + 1) {
                Some((xs, r)) => {
                    assert(Seq::<Seq<char>>::empty() + xs =~~= xs);
                },
                None => {},
            }
        }
    }
    loop
        invariant
            n == s@.len(),
            i <= k <= n,
            parse_string_list(s@.skip(i as int), s@.skip(i as int).len() + 1) == glue_list(
                parts.deep_view(),
                parse_string_list(s@.skip(k as int), s@.skip(k as int).len() + 1),
            ),
        decreases n - k,
    {
        let ghost rem = s@.skip(k as int);
        let ghost fuel = rem.len() + 1;
        if k >= n {
            proof {
                assert(rem.len() == 0);
            }
            return None;
        }
        let c = s.get_char(k);
        proof {
            assert(rem[0] == c);
        }
        if c == ']' {
            proof {
                assert(rem.skip(1) =~= s@.skip(k + 1));
                assert(parse_string_list(rem, fuel) == Some(
                    (Seq::<Seq<char>>::empty(), s@.skip(k + 1)),
                ));
                assert(parts.deep_view() + Seq::<Seq<char>>::empty() =~~= parts.deep_view());
            }
            return Some((parts, k + 1));
        }
        let (x, j) = match scan_string(s, k) {
            Some(p) => p,
            None => {
                return None;
            },
        };
        if j < n && s.get_char(j) == ',' {
            let ghost partsb = parts.deep_view();
            proof {
                assert(s@.skip(j as int)[0] == ',');
                assert(s@.skip(j as int).skip(1) =~= s@.skip(j + 1));
                lemma_parse_body_consumes(rem.skip(1));
                lemma_list_fuel(
                    s@.skip(j + 1),
                    (fuel - 1) as nat,
                    s@.skip(j + 1).len() + 1,
                );
            }
            parts.push(x);
            proof {
                assert(parts.deep_view() =~~= partsb.push(x@));
                assert(glue_list(
                    parts.deep_view(),
                    parse_string_list(s@.skip(j + 1), s@.skip(j + 1).len() + 1),
                ) == parse_string_list(s@.skip(i as int), s@.skip(i as int).len() + 1)) by {
                    match parse_string_list(s@.skip(j + 1), s@.skip(j + 1).len() + 1) {
                        Some((xs, r)) => {
                            assert(partsb + (seq![x@] + xs) =~~= partsb.push(x@) + xs);
                        },
                        None => {},
                    }
                }
            }
            k = j + 1;
        } else if j < n && s.get_char(j) == ']' {
            let ghost partsb = parts.deep_view();
            proof {
                assert(s@.skip(j as int)[0] == ']');
                assert(s@.skip(j as int)[0] != ',');
                assert(s@.skip(j as int).skip(1) =~= s@.skip(j + 1));
                assert(parse_string_list(rem, fuel) == Some((seq![x@], s@.skip(j + 1))));
            }
            parts.push(x);
            proof {
                assert(parts.deep_view() =~~= partsb.push(x@));
                assert(partsb + seq![x@] =~~= partsb.push(x@));
            }
            return Some((parts, j + 1));
        } else {
            proof {
                if j < n {
                    assert(s@.skip(j as int)[0] == s@[j as int]);
                } else {
                    assert(s@.skip(j as int).len() == 0);
                }
            }
            return None;
        }
    }
}

/// Scans envelope metadata starting at character `i`.
fn scan_metadata(s: &str, i: usize) -> (r: Option<(StreamMetadata, usize)>)
    requires
        i <= s@.len(),
    ensures
        match r {
            Some((m, j)) => i <= j <= s@.len() && parse_metadata(s@.skip(i as int)) == Some(
                (m@, s@.skip(j as int)),
            ),
            None => parse_metadata(s@.skip(i as int)) is None,
        },
{
    let n = s.unicode_len();
    let j1 = match eat_prefix(s, i, "{\"provenance\":[") {
        Some(j) => j,
        None => {
            return None;
        },
    };
    let (provenance, j2) = match scan_string_list(s, j1) {
        Some(p) => p,
        None => {
            return None;
        },
    };
    let j3 = match eat_prefix(s, j2, ",\"plexus_hash\":") {
        Some(j) => j,
        None => {
            return None;
        },
    };
    let (plexus_hash, j4) = match scan_string(s, j3) {
        Some(p) => p,
        None => {
            return None;
        },
    };
    let j5 = match eat_prefix(s, j4, ",\"timestamp\":") {
        Some(j) => j,
        None => {
            return None;
        },
    };
    let (timestamp, j6) = match scan_int(s, j5) {
        Some(p) => p,
        None => {
            return None;
        },
    };
    if j6 < n && s.get_char(j6) == '}' {
        proof {
            assert(s@.skip(j6 as int)[0] == '}');
            assert(s@.skip(j6 as int).skip(1) =~= s@.skip(j6 + 1));
        }
        let m = StreamMetadata { provenance, plexus_hash, timestamp };
        proof {
            assert(m@ =~~= (MetadataView {
                provenance: m.provenance.deep_view(),
                plexus_hash: m.plexus_hash@,
                timestamp: m.timestamp as int,
            }));
        }
        Some((m, j6 + 1))
    } else {
        proof {
            if j6 < n {
                assert(s@.skip(j6 as int)[0] == s@[j6 as int]);
            } else {
                assert(s@.skip(j6 as int).len() == 0);
            }
        }
        None
    }
}

} // verus!

verus! {

proof fn lemma_take_prefix_concat(s: Seq<char>, a: Seq<char>, b: Seq<char>)
    ensures
        take_prefix(s, a + b) == (match take_prefix(s, a) {
            Some(r) => take_prefix(r, b),
            None => None::<Seq<char>>,
        }),
{
    match take_prefix(s, a) {
        Some(r) => {
            match take_prefix(r, b) {
                Some(r2) => {
                    assert(s.take((a + b).len() as int) =~= a + b);
                    assert(s.skip((a + b).len() as int) =~= r2);
                },
                None => {
                    if take_prefix(s, a + b) is Some {
                        assert(s.take((a + b).len() as int) == a + b);
                        assert(b.len() <= r.len());
                        assert forall|q: int| 0 <= q < b.len() implies r.take(b.len() as int)[q]
                            == b[q] by {
                            assert(r[q] == s[a.len() + q]);
                            assert(s.take((a + b).len() as int)[a.len() + q] == s[a.len() + q]);
                            assert((a + b)[a.len() + q] == b[q]);
                        }
                        assert(r.take(b.len() as int) =~= b);
                    }
                },
            }
        },
        None => {
            if take_prefix(s, a + b) is Some {
                assert(s.take((a + b).len() as int) == a + b);
                assert(s.take(a.len() as int) =~= a);
            }
        },
    }
}

/// Consumes one comma and then the expected key text at `i`.
fn eat_comma_key(s: &str, i: usize, key: &str) -> (r: Option<usize>)
    requires
        i <= s@.len(),
    ensures
        match r {
            Some(j) => i < j <= s@.len() && take_prefix(s@.skip(i as int), seq![','] + key@)
                == Some(s@.skip(j as int)),
            None => take_prefix(s@.skip(i as int), seq![','] + key@) is None,
        },
{
    let n = s.unicode_len();
    proof {
        lemma_take_prefix_concat(s@.skip(i as int), seq![','], key@);
    }
    if i >= n || s.get_char(i) != ',' {
        proof {
            let rem = s@.skip(i as int);
            if rem.len() >= 1 {
                assert(rem[0] == s@[i as int]);
                if take_prefix(rem, seq![',']) is Some {
                    assert(rem.take(1)[0] == rem[0]);
                }
            }
        }
        return None;
    }
    proof {
        let rem = s@.skip(i as int);
        assert(rem[0] == ',');
        assert(rem.take(1) =~= seq![',']);
        assert(rem.skip(1) =~= s@.skip(i + 1));
    }
    eat_prefix(s, i + 1, key)
}

/// Scans a boolean literal at `i`.
fn scan_bool(s: &str, i: usize) -> (r: Option<(bool, usize)>)
    requires
        i <= s@.len(),
    ensures
        match r {
            Some((b, j)) => i < j <= s@.len() && parse_bool(s@.skip(i as int)) == Some(
                (b, s@.skip(j as int)),
            ),
            None => parse_bool(s@.skip(i as int)) is None,
        },
{
    let n = s.unicode_len();
    let ghost rem = s@.skip(i as int);
    if i < n && s.get_char(i) == 't' {
        if n - i >= 4 && s.get_char(i + 1) == 'r' && s.get_char(i + 2) == 'u' && s.get_char(i + 3)
            == 'e' {
            proof {
                assert(rem.take(4) =~= bool_chars(true));
                assert(rem.skip(4) =~= s@.skip(i + 4));
            }
            Some((true, i + 4))
        } else {
            proof {
                if take_prefix(rem, bool_chars(true)) is Some {
                    assert(rem.take(4)[0] == rem[0] && rem.take(4)[1] == rem[1] && rem.take(4)[2]
                        == rem[2] && rem.take(4)[3] == rem[3]);
                    assert(rem[1] == s@[i + 1] && rem[2] == s@[i + 2] && rem[3] == s@[i + 3]);
                }
                if take_prefix(rem, bool_chars(false)) is Some {
                    assert(rem.take(5)[0] == rem[0]);
                    assert(rem[0] == 't');
                }
            }
            None
        }
    } else if i < n && n - i >= 5 && s.get_char(i) == 'f' && s.get_char(i + 1) == 'a'
        && s.get_char(i + 2) == 'l' && s.get_char(i + 3) == 's' && s.get_char(i + 4) == 'e' {
        proof {
            assert(rem[0] == 'f');
            if take_prefix(rem, bool_chars(true)) is Some {
                assert(rem.take(4)[0] == rem[0]);
            }
            assert(rem.take(5) =~= bool_chars(false));
            assert(rem.skip(5) =~= s@.skip(i + 5));
        }
        Some((false, i + 5))
    } else {
        proof {
            if take_prefix(rem, bool_chars(true)) is Some {
                assert(rem.take(4)[0] == rem[0]);
                assert(rem[0] == s@[i as int] && rem[0] == 't');
            }
            if take_prefix(rem, bool_chars(false)) is Some {
                assert(rem.take(5)[0] == rem[0] && rem.take(5)[1] == rem[1] && rem.take(5)[2]
                    == rem[2] && rem.take(5)[3] == rem[3] && rem.take(5)[4] == rem[4]);
                assert(rem.len() >= 5);
                assert(rem[0] == s@[i as int]);
            }
        }
        None
    }
}

} // verus!

verus! {

/// Decodes the fields of a data envelope from character `i` to the end.
fn decode_data_body(s: &str, i: usize) -> (r: Option<PlexusStreamItem>)
    requires
        i <= s@.len(),
    ensures
        match r {
            Some(item) => parse_data_body(s@.skip(i as int)) == Some(item@),
            None => parse_data_body(s@.skip(i as int)) is None,
        },
{
    let n = s.unicode_len();
    let j1 = match eat_prefix(s, i, ",\"metadata\":") {
        Some(j) => j,
        None => {
            return None;
        },
    };
    let (metadata, j2) = match scan_metadata(s, j1) {
        Some(p) => p,
        None => {
            return None;
        },
    };
    let j3 = match eat_prefix(s, j2, ",\"content_type\":") {
        Some(j) => j,
        None => {
            return None;
        },
    };
    let (content_type, j4) = match scan_string(s, j3) {
        Some(p) => p,
        None => {
            return None;
        },
    };
    let j5 = match eat_prefix(s, j4, ",\"content\":") {
        Some(j) => j,
        None => {
            return None;
        },
    };
    let ghost rest = s@.skip(j5 as int);
    if j5 < n && s.get_char(n - 1) == '}' {
        proof {
            assert(rest.len() > 0);
            assert(rest.last() == s@[n - 1]);
            assert(rest.take(rest.len() - 1) =~= s@.subrange(j5 as int, n - 1));
        }
        let content = s.substring_char(j5, n - 1).to_owned();
        let item = PlexusStreamItem::Data { metadata, content_type, content };
        proof {
            assert(parse_data_body(s@.skip(i as int)) matches Some(p) && p =~~= item@);
        }
        Some(item)
    } else {
        proof {
            if j5 < n {
                assert(rest.last() == s@[n - 1]);
            } else {
                assert(rest.len() == 0);
            }
        }
        None
    }
}

/// Decodes the fields of a progress envelope from character `i` to the end.
fn decode_progress_body(s: &str, i: usize) -> (r: Option<PlexusStreamItem>)
    requires
        i <= s@.len(),
    ensures
        match r {
            Some(item) => parse_progress_body(s@.skip(i as int)) == Some(item@),
            None => parse_progress_body(s@.skip(i as int)) is None,
        },
{
    let n = s.unicode_len();
    let j1 = match eat_prefix(s, i, ",\"metadata\":") {
        Some(j) => j,
        None => {
            return None;
        },
    };
    let (metadata, j2) = match scan_metadata(s, j1) {
        Some(p) => p,
        None => {
            return None;
        },
    };
    let j3 = match eat_prefix(s, j2, ",\"message\":") {
        Some(j) => j,
        None => {
            return None;
        },
    };
    let (message, j4) = match scan_string(s, j3) {
        Some(p) => p,
        None => {
            return None;
        },
    };
    let ghost rest = s@.skip(j4 as int);
    if j4 < n && n - j4 == 1 && s.get_char(j4) == '}' {
        proof {
            assert(rest.len() == 1 && rest[0] == '}');
        }
        let item = PlexusStreamItem::Progress { metadata, message, percentage: None };
        proof {
            assert(parse_progress_body(s@.skip(i as int)) matches Some(p) && p =~~= item@);
        }
        Some(item)
    } else if j4 < n && s.get_char(j4) == ',' {
        proof {
            assert(rest[0] == ',');
            assert(!(rest.len() == 1 && rest[0] == '}'));
        }
        let j5 = match eat_comma_key(s, j4, "\"percentage\":") {
            Some(j) => j,
            None => {
                return None;
            },
        };
        let (v, j6) = match scan_number(s, j5) {
            Some(p) => p,
            None => {
                return None;
            },
        };
        let ghost tail = s@.skip(j6 as int);
        if v <= 255 && j6 < n && n - j6 == 3 && s.get_char(j6) == '.' && s.get_char(j6 + 1) == '0'
            && s.get_char(j6 + 2) == '}' {
            proof {
                assert(tail.len() == 3);
                assert(tail[0] == '.' && tail[1] == '0' && tail[2] == '}');
                assert(tail =~= seq!['.', '0', '}']);
            }
            let item = PlexusStreamItem::Progress {
                metadata,
                message,
                percentage: Some(v as u8),
            };
            proof {
                assert(parse_progress_body(s@.skip(i as int)) matches Some(p) && p =~~= item@);
            }
            Some(item)
        } else {
            proof {
                if !(tail =~= seq!['.', '0', '}']) {
                } else {
                    assert(tail.len() == 3);
                    assert(tail[0] == '.' && tail[1] == '0' && tail[2] == '}');
                }
            }
            None
        }
    } else {
        proof {
            if j4 < n {
                assert(rest[0] == s@[j4 as int]);
            } else {
                assert(rest.len() == 0);
            }
        }
        None
    }
}

/// Decodes the recoverable flag and closing brace of an error envelope.
fn decode_error_tail(
    s: &str,
    i: usize,
    metadata: StreamMetadata,
    message: String,
    code: Option<String>,
) -> (r: Option<PlexusStreamItem>)
    requires
        i <= s@.len(),
    ensures
        match r {
            Some(item) => parse_error_tail(metadata@, message@, code.deep_view(), s@.skip(i as int))
                == Some(item@),
            None => parse_error_tail(metadata@, message@, code.deep_view(), s@.skip(i as int))
                is None,
        },
{
    let n = s.unicode_len();
    let j1 = match eat_comma_key(s, i, "\"recoverable\":") {
        Some(j) => j,
        None => {
            return None;
        },
    };
    let (recoverable, j2) = match scan_bool(s, j1) {
        Some(p) => p,
        None => {
            return None;
        },
    };
    let ghost rest = s@.skip(j2 as int);
    if j2 < n && n - j2 == 1 && s.get_char(j2) == '}' {
        proof {
            assert(rest.len() == 1 && rest[0] == '}');
        }
        let item = PlexusStreamItem::Error { metadata, message, code, recoverable };
        proof {
            assert(parse_error_tail(metadata@, message@, code.deep_view(), s@.skip(i as int))
                matches Some(p) && p =~~= item@);
        }
        Some(item)
    } else {
        proof {
            if j2 < n {
                assert(rest[0] == s@[j2 as int]);
            } else {
                assert(rest.len() == 0);
            }
        }
        None
    }
}

/// Decodes the fields of an error envelope from character `i` to the end.
fn decode_error_body(s: &str, i: usize) -> (r: Option<PlexusStreamItem>)
    requires
        i <= s@.len(),
    ensures
        match r {
            Some(item) => parse_error_body(s@.skip(i as int)) == Some(item@),
            None => parse_error_body(s@.skip(i as int)) is None,
        },
{
    let n = s.unicode_len();
    let j1 = match eat_prefix(s, i, ",\"metadata\":") {
        Some(j) => j,
        None => {
            return None;
        },
    };
    let (metadata, j2) = match scan_metadata(s, j1) {
        Some(p) => p,
        None => {
            return None;
        },
    };
    let j3 = match eat_prefix(s, j2, ",\"message\":") {
        Some(j) => j,
        None => {
            return None;
        },
    };
    let (message, j4) = match scan_string(s, j3) {
        Some(p) => p,
        None => {
            return None;
        },
    };
    let ghost rest = s@.skip(j4 as int);
    proof {
        if j4 < n {
            assert(rest[0] == s@[j4 as int]);
        }
        if n - j4 >= 3 {
            assert(rest[2] == s@[j4 + 2]);
        }
    }
    if n - j4 >= 3 && s.get_char(j4) == ',' && s.get_char(j4 + 2) == 'c' {
        let j5 = match eat_comma_key(s, j4, "\"code\":") {
            Some(j) => j,
            None => {
                return None;
            },
        };
        let (code, j6) = match scan_string(s, j5) {
            Some(p) => p,
            None => {
                return None;
            },
        };
        decode_error_tail(s, j6, metadata, message, Some(code))
    } else {
        proof {
            if j4 < n {
            } else {
                assert(rest.len() == 0);
            }
            assert(!(rest.len() >= 3 && rest[0] == ',' && rest[2] == 'c'));
        }
        decode_error_tail(s, j4, metadata, message, None)
    }
}

/// Decodes the fields of a done envelope from character `i` to the end.
fn decode_done_body(s: &str, i: usize) -> (r: Option<PlexusStreamItem>)
    requires
        i <= s@.len(),
    ensures
        match r {
            Some(item) => parse_done_body(s@.skip(i as int)) == Some(item@),
            None => parse_done_body(s@.skip(i as int)) is None,
        },
{
    let n = s.unicode_len();
    let j1 = match eat_prefix(s, i, ",\"metadata\":") {
        Some(j) => j,
        None => {
            return None;
        },
    };
    let (metadata, j2) = match scan_metadata(s, j1) {
        Some(p) => p,
        None => {
            return None;
        },
    };
    let ghost rest = s@.skip(j2 as int);
    if j2 < n && n - j2 == 1 && s.get_char(j2) == '}' {
        proof {
            assert(rest.len() == 1 && rest[0] == '}');
        }
        let item = PlexusStreamItem::Done { metadata };
        proof {
            assert(parse_done_body(s@.skip(i as int)) matches Some(p) && p =~~= item@);
        }
        Some(item)
    } else {
        proof {
            if j2 < n {
                assert(rest[0] == s@[j2 as int]);
            } else {
                assert(rest.len() == 0);
            }
        }
        None
    }
}

/// Decodes the fields of a request envelope from character `i` to the end.
fn decode_request_body(s: &str, i: usize) -> (r: Option<PlexusStreamItem>)
    requires
        i <= s@.len(),
    ensures
        match r {
            Some(item) => parse_request_body(s@.skip(i as int)) == Some(item@),
            None => parse_request_body(s@.skip(i as int)) is None,
        },
{
    let n = s.unicode_len();
    let j1 = match eat_prefix(s, i, ",\"request_id\":") {
        Some(j) => j,
        None => {
            return None;
        },
    };
    let (request_id, j2) = match scan_string(s, j1) {
        Some(p) => p,
        None => {
            return None;
        },
    };
    let j3 = match eat_prefix(s, j2, ",\"timeout_ms\":") {
        Some(j) => j,
        None => {
            return None;
        },
    };
    let (timeout_ms, j4) = match scan_number(s, j3) {
        Some(p) => p,
        None => {
            return None;
        },
    };
    let j5 = match eat_comma_key(s, j4, "\"request_data\":") {
        Some(j) => j,
        None => {
            return None;
        },
    };
    let ghost rest = s@.skip(j5 as int);
    if j5 < n && s.get_char(n - 1) == '}' {
        proof {
            assert(rest.len() > 0);
            assert(rest.last() == s@[n - 1]);
            assert(rest.take(rest.len() - 1) =~= s@.subrange(j5 as int, n - 1));
        }
        let request_data = s.substring_char(j5, n - 1).to_owned();
        let item = PlexusStreamItem::Request { request_id, request_data, timeout_ms };
        proof {
            assert(parse_request_body(s@.skip(i as int)) matches Some(p) && p =~~= item@);
        }
        Some(item)
    } else {
        proof {
            if j5 < n {
                assert(rest.last() == s@[n - 1]);
            } else {
                assert(rest.len() == 0);
            }
        }
        None
    }
}

/// Decodes the canonical JSON text of a stream envelope: the exact inverse
/// of `encode_stream_item`, agreeing with the specified parse on every
/// input.
pub fn decode_stream_item(s: &str) -> (r: Option<PlexusStreamItem>)
    ensures
        match r {
            Some(item) => parse_item(s@) == Some(item@),
            None => parse_item(s@) is None,
        },
{
    proof {
        assert(s@.skip(0) =~= s@);
    }
    let j0 = match eat_prefix(s, 0, "{\"type\":") {
        Some(j) => j,
        None => {
            return None;
        },
    };
    let (tag, j1) = match scan_string(s, j0) {
        Some(p) => p,
        None => {
            return None;
        },
    };
    let tag_str = tag.as_str();
    let tlen = tag_str.unicode_len();
    if tlen == 4 && tag_str.get_char(1) == 'a' {
        decode_data_body(s, j1)
    } else if tlen == 8 {
        decode_progress_body(s, j1)
    } else if tlen == 5 {
        decode_error_body(s, j1)
    } else if tlen == 4 {
        decode_done_body(s, j1)
    } else if tlen == 7 {
        decode_request_body(s, j1)
    } else {
        None
    }
}

} // verus!
