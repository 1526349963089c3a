//! The event envelope's wire form.
//!
//! Every event is delivered to transports as one JSON object,
//! `{"type": <name>, "data": <object>}`, newline-terminated by the
//! transport.  The encoding is byte-exact here: string payloads are
//! escaped byte-wise (the escaped characters are all single-byte in
//! UTF-8, so multi-byte sequences pass through unchanged), and numbers
//! are rendered in decimal.

use vstd::prelude::*;
use vstd::utf8::encode_utf8;

use crate::command::dec_digits;
use crate::command::push_dec;
use crate::command::append_bytes;
use crate::events::Event;

verus! {

/// The lowercase hex digit for a value below 16.
pub open spec fn hex_digit(v: int) -> u8 {
    if v < 10 {
        (48 + v) as u8
    } else {
        (87 + v) as u8
    }
}

/// The JSON escape of one byte of a UTF-8 string: quote, backslash and
/// the common control characters get two-byte escapes, other control
/// bytes get `\u00XX`, and everything else (multi-byte UTF-8 included)
/// passes through.
pub open spec fn escaped_byte(b: u8) -> Seq<u8> {
    if b == 34 {
        seq![92u8, 34u8]
    } else if b == 92 {
        seq![92u8, 92u8]
    } else if b == 10 {
        seq![92u8, 110u8]
    } else if b == 13 {
        seq![92u8, 114u8]
    } else if b == 9 {
        seq![92u8, 116u8]
    } else if b < 32 {
        seq![92u8, 117u8, 48u8, 48u8, hex_digit(b as int / 16), hex_digit(b as int % 16)]
    } else {
        seq![b]
    }
}

/// The JSON escape of a whole byte string.
pub open spec fn escaped(s: Seq<u8>) -> Seq<u8>
    decreases s.len(),
{
    if s.len() == 0 {
        Seq::empty()
    } else {
        escaped(s.drop_last()) + escaped_byte(s.last())
    }
}

/// The decimal rendering of a signed number: a minus sign before the
/// digits of the magnitude.
pub open spec fn int_digits(v: int) -> Seq<u8> {
    if v < 0 {
        seq![45u8] + dec_digits((-v) as nat)
    } else {
        dec_digits(v as nat)
    }
}

/// The JSON envelope of an event, byte for byte.
pub open spec fn json_event(e: Event) -> Seq<u8> {
    match e {
        Event::Init { cols, rows, pid } => encode_utf8("{\"type\":\"init\",\"data\":{\"cols\":"@)
            + dec_digits(cols as nat) + encode_utf8(",\"rows\":"@) + dec_digits(rows as nat)
            + encode_utf8(",\"pid\":"@) + int_digits(pid as int) + encode_utf8("}}"@),
        Event::Output { seq } => encode_utf8("{\"type\":\"output\",\"data\":{\"seq\":\""@)
            + escaped(encode_utf8(seq@)) + encode_utf8("\"}}"@),
        Event::Resize { cols, rows } => encode_utf8(
            "{\"type\":\"resize\",\"data\":{\"cols\":"@,
        ) + dec_digits(cols as nat) + encode_utf8(",\"rows\":"@) + dec_digits(rows as nat)
            + encode_utf8("}}"@),
        Event::Snapshot { data } => encode_utf8("{\"type\":\"snapshot\",\"data\":{\"seq\":\""@)
            + escaped(encode_utf8(data@)) + encode_utf8("\"}}"@),
        Event::Exit { code, signal } => encode_utf8("{\"type\":\"exit\",\"data\":{\"code\":"@)
            + int_digits(code as int) + encode_utf8(",\"signal\":"@) + (match signal {
            Some(n) => int_digits(n as int),
            None => encode_utf8("null"@),
        }) + encode_utf8("}}"@),
    }
}

/// Append the decimal rendering of a signed number to `out`.
pub fn push_dec_i32(out: &mut Vec<u8>, v: i32)
    ensures
        final(out)@ == old(out)@ + int_digits(v as int),
{
    if v >= 0 {
        push_dec(out, v as usize);
    } else {
        out.push(45);
        let magnitude = (-(v as i64)) as usize;
        assert(magnitude as int == -(v as int));
        push_dec(out, magnitude);
        assert(old(out)@ + int_digits(v as int) =~= old(out)@.push(45u8) + dec_digits(
            (-(v as int)) as nat,
        ));
    }
}

/// Append the JSON escape of `s` to `out`.
pub fn escape_json_into(out: &mut Vec<u8>, s: &str)
    ensures
        final(out)@ == old(out)@ + escaped(encode_utf8(s@)),
{
    let b = s.as_bytes();
    let mut i: usize = 0;
    while i < b.len()
        invariant
            b@ == encode_utf8(s@),
            i <= b@.len(),
            out@ == old(out)@ + escaped(b@.subrange(0, i as int)),
        decreases b@.len() - i,
    {
        let c = b[i];
        if c == 34 {
            out.push(92);
            out.push(34);
        } else if c == 92 {
            out.push(92);
            out.push(92);
        } else if c == 10 {
            out.push(92);
            out.push(110);
        } else if c == 13 {
            out.push(92);
            out.push(114);
        } else if c == 9 {
            out.push(92);
            out.push(116);
        } else if c < 32 {
            out.push(92);
            out.push(117);
            out.push(48);
            out.push(48);
            let hi = c / 16;
            let lo = c % 16;
            out.push(if hi < 10 {
                48 + hi
            } else {
                87 + hi
            });
            out.push(if lo < 10 {
                48 + lo
            } else {
                87 + lo
            });
        } else {
            out.push(c);
        }
        i = i + 1;
        proof {
            let prefix = b@.subrange(0, i as int);
            assert(prefix.drop_last() =~= b@.subrange(0, i - 1));
            assert(prefix.last() == c);
            assert(out@ =~= old(out)@ + escaped(prefix));
        }
    }
    proof {
        assert(b@.subrange(0, b@.len() as int) =~= b@);
    }
}

/// Serialize one event into its JSON envelope, byte for byte.
pub fn event_json_bytes(e: &Event) -> (r: Vec<u8>)
    ensures
        r@ == json_event(*e),
{
    let mut out: Vec<u8> = Vec::new();
    match e {
        Event::Init { cols, rows, pid } => {
            append_bytes(&mut out, "{\"type\":\"init\",\"data\":{\"cols\":".as_bytes());
            push_dec(&mut out, *cols);
            append_bytes(&mut out, ",\"rows\":".as_bytes());
            push_dec(&mut out, *rows);
            append_bytes(&mut out, ",\"pid\":".as_bytes());
            push_dec_i32(&mut out, *pid);
            append_bytes(&mut out, "}}".as_bytes());
            proof {
                assert(out@ =~= json_event(*e));
            }
        },
        Event::Output { seq } => {
            append_bytes(&mut out, "{\"type\":\"output\",\"data\":{\"seq\":\"".as_bytes());
            escape_json_into(&mut out, seq.as_str());
            append_bytes(&mut out, "\"}}".as_bytes());
            proof {
                assert(out@ =~= json_event(*e));
            }
        },
        Event::Resize { cols, rows } => {
            append_bytes(&mut out, "{\"type\":\"resize\",\"data\":{\"cols\":".as_bytes());
            push_dec(&mut out, *cols);
            append_bytes(&mut out, ",\"rows\":".as_bytes());
            push_dec(&mut out, *rows);
            append_bytes(&mut out, "}}".as_bytes());
            proof {
                assert(out@ =~= json_event(*e));
            }
        },
        Event::Snapshot { data } => {
            append_bytes(&mut out, "{\"type\":\"snapshot\",\"data\":{\"seq\":\"".as_bytes());
            escape_json_into(&mut out, data.as_str());
            append_bytes(&mut out, "\"}}".as_bytes());
            proof {
                assert(out@ =~= json_event(*e));
            }
        },
        Event::Exit { code, signal } => {
            append_bytes(&mut out, "{\"type\":\"exit\",\"data\":{\"code\":".as_bytes());
            push_dec_i32(&mut out, *code);
            append_bytes(&mut out, ",\"signal\":".as_bytes());
            match signal {
                Some(n) => push_dec_i32(&mut out, *n),
                None => append_bytes(&mut out, "null".as_bytes()),
            }
            append_bytes(&mut out, "}}".as_bytes());
            proof {
                assert(out@ =~= json_event(*e));
            }
        },
    }
    out
}

} // verus!
