//! The terminal geometry and its textual `COLSxROWS` form.

use vstd::prelude::*;
use vstd::string::StringSliceAdditionalSpecFns;

use crate::command::dec_digits;
use crate::command::push_dec;

verus! {

/// A terminal size: columns and rows, as the PTY winsize reports them.
#[derive(Debug, Clone, Copy, PartialEq, Eq, Structural)]
pub struct Size {
    pub width_cols: u16,
    pub height_rows: u16,
}

impl Size {
    pub fn new(cols: u16, rows: u16) -> (r: Size)
        requires
            cols >= 1,
            rows >= 1,
        ensures
            r.width_cols == cols && r.height_rows == rows,
    {
        Size { width_cols: cols, height_rows: rows }
    }

    /// A terminal has at least one column and one row.
    pub open spec fn wf(self) -> bool {
        self.width_cols >= 1 && self.height_rows >= 1
    }

    pub fn cols(&self) -> (r: usize)
        ensures
            r == self.width_cols as usize,
    {
        self.width_cols as usize
    }

    pub fn rows(&self) -> (r: usize)
        ensures
            r == self.height_rows as usize,
    {
        self.height_rows as usize
    }
}

/// Why a size string was rejected: no `x` separates the two parts, or the
/// part before or after the first `x` does not parse as a positive `u16`
/// (a terminal has at least one column and one row, so `0` is rejected).
#[derive(Debug, Clone, Copy, PartialEq, Eq, Structural)]
pub enum SizeError {
    NoSeparator,
    BadCols,
    BadRows,
}

/// An ASCII decimal digit.
pub open spec fn is_digit(c: u8) -> bool {
    48 <= c <= 57
}

/// The value of a run of decimal digits, most significant first.
pub open spec fn digits_value(t: Seq<u8>) -> int
    decreases t.len(),
{
    if t.len() == 0 {
        0
    } else {
        digits_value(t.drop_last()) * 10 + (t.last() - 48)
    }
}

pub open spec fn all_digits(t: Seq<u8>) -> bool {
    forall|k: int| 0 <= k < t.len() ==> is_digit(#[trigger] t[k])
}

/// The digit run of an unsigned numeral: an optional leading `+` sign is
/// not part of it.
pub open spec fn unsigned_body(t: Seq<u8>) -> Seq<u8> {
    if t.len() > 0 && t[0] == 43 {
        t.skip(1)
    } else {
        t
    }
}

/// `t` is a `u16` numeral: after the optional sign, at least one digit,
/// only digits, and a value that fits.
pub open spec fn parses_as_u16(t: Seq<u8>) -> bool {
    &&& unsigned_body(t).len() > 0
    &&& all_digits(unsigned_body(t))
    &&& digits_value(unsigned_body(t)) <= u16::MAX
}

/// The value of a `u16` numeral.
pub open spec fn u16_value(t: Seq<u8>) -> int {
    digits_value(unsigned_body(t))
}

/// `t` is acceptable as one part of a winsize: a `u16` numeral whose
/// value is at least 1.
pub open spec fn parses_as_winsize_part(t: Seq<u8>) -> bool {
    parses_as_u16(t) && u16_value(t) >= 1
}

/// `k` is the position of the first `x` in `s`.
pub open spec fn is_first_x(s: Seq<u8>, k: int) -> bool {
    &&& 0 <= k < s.len()
    &&& s[k] == 120
    &&& forall|m: int| 0 <= m < k ==> s[m] != 120
}

/// A digit run's value is never negative.
proof fn lemma_digits_value_nonneg(t: Seq<u8>)
    requires
        all_digits(t),
    ensures
        digits_value(t) >= 0,
    decreases t.len(),
{
    if t.len() > 0 {
        assert forall|k: int| 0 <= k < t.drop_last().len() implies is_digit(
            #[trigger] t.drop_last()[k],
        ) by {
            assert(t.drop_last()[k] == t[k]);
        }
        lemma_digits_value_nonneg(t.drop_last());
    }
}

/// A digit run's value only grows as digits are appended.
proof fn lemma_digits_value_mono(t: Seq<u8>, i: int)
    requires
        0 <= i <= t.len(),
        all_digits(t),
    ensures
        digits_value(t.subrange(0, i)) <= digits_value(t),
    decreases t.len() - i,
{
    if i == t.len() {
        assert(t.subrange(0, t.len() as int) =~= t);
    } else {
        assert(t.subrange(0, i + 1).drop_last() =~= t.subrange(0, i));
        assert(t.subrange(0, i + 1).last() == t[i]);
        assert forall|k: int| 0 <= k < t.subrange(0, i).len() implies is_digit(
            #[trigger] t.subrange(0, i)[k],
        ) by {
            assert(t.subrange(0, i)[k] == t[k]);
        }
        lemma_digits_value_nonneg(t.subrange(0, i));
        assert(is_digit(t[i]));
        lemma_digits_value_mono(t, i + 1);
    }
}

/// Parse the bytes `[start, end)` of `b` as a `u16` numeral, as an
/// unsigned decimal parse does: an optional leading `+`, then at least
/// one digit, rejecting any other byte and any value over `u16::MAX`.
fn parse_u16_range(b: &[u8], start: usize, end: usize) -> (r: Option<u16>)
    requires
        start <= end <= b@.len(),
    ensures
        match r {
            Some(v) => parses_as_u16(b@.subrange(start as int, end as int)) && v == u16_value(
                b@.subrange(start as int, end as int),
            ),
            None => !parses_as_u16(b@.subrange(start as int, end as int)),
        },
{
    let ghost t = b@.subrange(start as int, end as int);
    let mut i: usize = start;
    if i < end && b[i] == 43 {
        i = i + 1;
    }
    let ghost dstart = i as int;
    proof {
        assert(unsigned_body(t) =~= b@.subrange(dstart, end as int));
    }
    if i == end {
        return None;
    }
    let mut acc: u32 = 0;
    while i < end
        invariant
            start <= dstart <= i <= end <= b@.len(),
            t == b@.subrange(start as int, end as int),
            unsigned_body(t) == b@.subrange(dstart, end as int),
            all_digits(b@.subrange(dstart, i as int)),
            acc == digits_value(b@.subrange(dstart, i as int)),
            acc <= 65535,
        decreases end - i,
    {
        let c = b[i];
        if c < 48 || c > 57 {
            proof {
                let d = unsigned_body(t);
                assert(d[i - dstart] == c);
                assert(!is_digit(d[i - dstart]));
            }
            return None;
        }
        acc = acc * 10 + (c - 48) as u32;
        i = i + 1;
        proof {
            let prev = b@.subrange(dstart, i - 1);
            let cur = b@.subrange(dstart, i as int);
            assert(cur.drop_last() =~= prev);
            assert(cur.last() == c);
            assert forall|k: int| 0 <= k < cur.len() implies is_digit(#[trigger] cur[k]) by {
                if k < prev.len() {
                    assert(cur[k] == prev[k]);
                }
            }
        }
        if acc > 65535 {
            proof {
                let d = unsigned_body(t);
                if all_digits(d) {
                    assert(d.subrange(0, i - dstart) =~= b@.subrange(dstart, i as int));
                    lemma_digits_value_mono(d, i - dstart);
                }
            }
            return None;
        }
    }
    proof {
        assert(b@.subrange(dstart, i as int) =~= unsigned_body(t));
        assert(unsigned_body(t).len() > 0);
    }
    Some(acc as u16)
}

/// Parse a `COLSxROWS` size string: the part before the first `x` is the
/// column count and the part after it the row count, each an unsigned
/// decimal `u16` that must be at least 1 (a winsize has `cols >= 1` and
/// `rows >= 1`).  A string without `x` has no separator; a bad first or
/// second part is reported as such.
pub fn parse_size(s: &str) -> (r: Result<Size, SizeError>)
    ensures
        match r {
            Ok(size) => {
                &&& size.wf()
                &&& exists|k: int|
                    {
                        &&& #[trigger] is_first_x(s.spec_bytes(), k)
                        &&& parses_as_winsize_part(s.spec_bytes().subrange(0, k))
                        &&& parses_as_winsize_part(s.spec_bytes().skip(k + 1))
                        &&& size.width_cols == u16_value(s.spec_bytes().subrange(0, k))
                        &&& size.height_rows == u16_value(s.spec_bytes().skip(k + 1))
                    }
            },
            Err(SizeError::NoSeparator) => forall|k: int|
                0 <= k < s.spec_bytes().len() ==> s.spec_bytes()[k] != 120,
            Err(SizeError::BadCols) => exists|k: int|
                #[trigger] is_first_x(s.spec_bytes(), k) && !parses_as_winsize_part(
                    s.spec_bytes().subrange(0, k),
                ),
            Err(SizeError::BadRows) => exists|k: int|
                {
                    &&& #[trigger] is_first_x(s.spec_bytes(), k)
                    &&& parses_as_winsize_part(s.spec_bytes().subrange(0, k))
                    &&& !parses_as_winsize_part(s.spec_bytes().skip(k + 1))
                },
        },
{
    let b = s.as_bytes();
    let n = b.len();
    let ghost bs = s.spec_bytes();
    let mut k: usize = 0;
    while k < n && b[k] != 120
        invariant
            bs == s.spec_bytes(),
            b@ == bs,
            n == bs.len(),
            k <= n,
            forall|m: int| 0 <= m < k ==> bs[m] != 120,
        decreases n - k,
    {
        k = k + 1;
    }
    if k == n {
        return Err(SizeError::NoSeparator);
    }
    proof {
        assert(is_first_x(bs, k as int));
    }
    let cols = match parse_u16_range(b, 0, k) {
        Some(v) if v >= 1 => v,
        _ => {
            return Err(SizeError::BadCols);
        },
    };
    proof {
        assert(bs.subrange(k as int + 1, n as int) =~= bs.skip(k as int + 1));
    }
    let rows = match parse_u16_range(b, k + 1, n) {
        Some(v) if v >= 1 => v,
        _ => {
            return Err(SizeError::BadRows);
        },
    };
    Ok(Size { width_cols: cols, height_rows: rows })
}

/// The `COLSxROWS` rendering of a size.
pub open spec fn size_bytes(s: Size) -> Seq<u8> {
    dec_digits(s.width_cols as nat) + seq![120u8] + dec_digits(s.height_rows as nat)
}

/// Render a size in its textual `COLSxROWS` form.
pub fn render_size(size: &Size) -> (r: Vec<u8>)
    ensures
        r@ == size_bytes(*size),
{
    let mut out: Vec<u8> = Vec::new();
    push_dec(&mut out, size.width_cols as usize);
    out.push(120);
    push_dec(&mut out, size.height_rows as usize);
    proof {
        assert(out@ =~= size_bytes(*size));
    }
    out
}

/// A decimal rendering is one or more digit bytes.
proof fn lemma_dec_digits_all_digits(n: nat)
    ensures
        all_digits(dec_digits(n)),
        dec_digits(n).len() >= 1,
    decreases n,
{
    if n < 10 {
        assert(is_digit(dec_digits(n)[0]));
    } else {
        assert(n / 10 < n) by (nonlinear_arith)
            requires
                n >= 10,
        ;
        lemma_dec_digits_all_digits(n / 10);
        let d = dec_digits(n);
        assert forall|k: int| 0 <= k < d.len() implies is_digit(#[trigger] d[k]) by {
            if k < dec_digits(n / 10).len() {
                assert(d[k] == dec_digits(n / 10)[k]);
            } else {
                assert(d[k] == (n % 10 + 48) as u8);
                assert(n % 10 < 10) by (nonlinear_arith);
            }
        }
    }
}

/// Rendering and evaluating decimal digits are inverse.
proof fn lemma_digits_value_of_dec(n: nat)
    ensures
        digits_value(dec_digits(n)) == n,
    decreases n,
{
    if n < 10 {
        let d = dec_digits(n);
        assert(d == seq![(n + 48) as u8]);
        assert(d.drop_last() =~= Seq::<u8>::empty());
        assert(digits_value(Seq::<u8>::empty()) == 0);
        assert(digits_value(d) == digits_value(d.drop_last()) * 10 + (d.last() - 48));
        assert(d.last() == (n + 48) as u8);
    } else {
        assert(n / 10 < n && n % 10 < 10 && n / 10 * 10 + n % 10 == n) by (nonlinear_arith)
            requires
                n >= 10,
        ;
        lemma_digits_value_of_dec(n / 10);
        let d = dec_digits(n);
        assert(d == dec_digits(n / 10) + seq![(n % 10 + 48) as u8]);
        assert(d.drop_last() =~= dec_digits(n / 10));
        assert(d.last() == (n % 10 + 48) as u8);
        assert(digits_value(d) == digits_value(d.drop_last()) * 10 + (d.last() - 48));
        assert(digits_value(d.drop_last()) == digits_value(dec_digits(n / 10)));
    }
}

/// The first `x` of a string is at one position only.
pub proof fn lemma_first_x_unique(s: Seq<u8>, k1: int, k2: int)
    requires
        is_first_x(s, k1),
        is_first_x(s, k2),
    ensures
        k1 == k2,
{
    if k1 < k2 {
        assert(s[k1] == 120);
    }
    if k2 < k1 {
        assert(s[k2] == 120);
    }
}

/// The render/parse round trip: the rendered bytes of a well-formed size
/// satisfy exactly the conditions `parse_size`'s success case states, at
/// the rendered column digits' length, with the same column and row
/// values.  Together with `lemma_first_x_unique` and `parse_size`'s
/// contract this pins `parse_size` on a rendered size to `Ok` of that
/// size.
pub proof fn lemma_render_parse_round_trip(size: Size)
    requires
        size.wf(),
    ensures
        ({
            let b = size_bytes(size);
            let k = dec_digits(size.width_cols as nat).len() as int;
            &&& is_first_x(b, k)
            &&& parses_as_winsize_part(b.subrange(0, k))
            &&& u16_value(b.subrange(0, k)) == size.width_cols
            &&& parses_as_winsize_part(b.skip(k + 1))
            &&& u16_value(b.skip(k + 1)) == size.height_rows
        }),
{
    let cols_d = dec_digits(size.width_cols as nat);
    let rows_d = dec_digits(size.height_rows as nat);
    let b = size_bytes(size);
    let k = cols_d.len() as int;
    lemma_dec_digits_all_digits(size.width_cols as nat);
    lemma_dec_digits_all_digits(size.height_rows as nat);
    lemma_digits_value_of_dec(size.width_cols as nat);
    lemma_digits_value_of_dec(size.height_rows as nat);
    assert(b.subrange(0, k) =~= cols_d);
    assert(b.skip(k + 1) =~= rows_d);
    assert(b[k] == 120);
    assert forall|m: int| 0 <= m < k implies b[m] != 120 by {
        assert(b[m] == cols_d[m]);
        assert(is_digit(cols_d[m]));
    }
    assert(is_digit(cols_d[0]) && cols_d[0] != 43);
    assert(unsigned_body(cols_d) == cols_d);
    assert(is_digit(rows_d[0]) && rows_d[0] != 43);
    assert(unsigned_body(rows_d) == rows_d);
}

} // verus!
