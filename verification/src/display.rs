//! The display field: seven ASCII characters holding the meter's numeric
//! reading as text.
//!
//! Payload bytes 2 through 8 carry the digits as drawn on the device's
//! display, padded with spaces.  Stripping the spaces leaves a decimal
//! number: an optional sign, digits, and at most one decimal point.  The
//! parsed reading is kept exact as sign, mantissa and decimal-place
//! count; anything that is not such a number (an overload indication,
//! a blank display) fails the parse.

use vstd::prelude::*;
use vstd::slice::slice_index_get;

verus! {

/// An ASCII decimal digit `'0'..='9'`.
pub open spec fn is_ascii_digit(b: u8) -> bool {
    48 <= b <= 57
}

/// Every byte of `s` is an ASCII decimal digit.
pub open spec fn all_digits(s: Seq<u8>) -> bool {
    forall|i: int| 0 <= i < s.len() ==> is_ascii_digit(s[i])
}

/// The integer spelled by a sequence of ASCII digits, most significant
/// first.
pub open spec fn digits_value(s: Seq<u8>) -> int
    decreases s.len(),
{
    if s.len() == 0 {
        0
    } else {
        digits_value(s.drop_last()) * 10 + s.last() - 48
    }
}

/// Ten to the `n`th power.
pub open spec fn pow10(n: nat) -> int
    decreases n,
{
    if n == 0 {
        1
    } else {
        10 * pow10((n - 1) as nat)
    }
}

/// Index of the first `'.'` in `s`, or `s.len()` if there is none.
pub open spec fn dot_index(s: Seq<u8>) -> int
    decreases s.len(),
{
    if s.len() == 0 {
        0
    } else if s[0] == 46 {
        0
    } else {
        1 + dot_index(s.subrange(1, s.len() as int))
    }
}

/// `s` with every space byte removed, order kept.
pub open spec fn strip_spaces(s: Seq<u8>) -> Seq<u8>
    decreases s.len(),
{
    if s.len() == 0 {
        Seq::empty()
    } else if s[0] == 32 {
        strip_spaces(s.subrange(1, s.len() as int))
    } else {
        seq![s[0]].add(strip_spaces(s.subrange(1, s.len() as int)))
    }
}

/// `s` starts with an explicit sign character (`'-'` or `'+'`).
pub open spec fn has_sign(s: Seq<u8>) -> bool {
    s.len() > 0 && (s[0] == 45 || s[0] == 43)
}

/// `s` with a leading sign character removed.
pub open spec fn num_body(s: Seq<u8>) -> Seq<u8> {
    if has_sign(s) {
        s.subrange(1, s.len() as int)
    } else {
        s
    }
}

/// An unsigned decimal body: digits with at most one decimal point and
/// at least one digit ("12", "12.34", "12.", ".5"; not "", ".", "1.2.3").
pub open spec fn body_ok(b: Seq<u8>) -> bool {
    let d = dot_index(b);
    &&& b.len() >= 1
    &&& (d < b.len() ==> b.len() >= 2)
    &&& all_digits(b.subrange(0, d))
    &&& (d < b.len() ==> all_digits(b.subrange(d + 1, b.len() as int)))
}

/// `s` spells a decimal number: an optional sign, then digits with at
/// most one decimal point and at least one digit.
pub open spec fn is_number(s: Seq<u8>) -> bool {
    body_ok(num_body(s))
}

/// The number spelled by `s` is negative.
pub open spec fn num_negative(s: Seq<u8>) -> bool {
    s.len() > 0 && s[0] == 45
}

/// How many digits follow the decimal point in `s` (0 if there is no
/// point).
pub open spec fn num_frac_digits(s: Seq<u8>) -> int {
    let b = num_body(s);
    let d = dot_index(b);
    if d < b.len() {
        b.len() - 1 - d
    } else {
        0
    }
}

/// The digits of `s` read as one integer with the decimal point ignored,
/// so that `s` spells `num_mantissa(s) / pow10(num_frac_digits(s))` in
/// magnitude.
pub open spec fn num_mantissa(s: Seq<u8>) -> int {
    let b = num_body(s);
    let d = dot_index(b);
    if d < b.len() {
        digits_value(b.subrange(0, d)) * pow10((b.len() - 1 - d) as nat) + digits_value(
            b.subrange(d + 1, b.len() as int),
        )
    } else {
        digits_value(b)
    }
}

/// The display text of a payload: bytes 2 through 8 with spaces
/// stripped, or the single byte `'?'` when the payload is too short to
/// hold a display field (`'?'` never parses as a number).
pub open spec fn display_text(payload: Seq<u8>) -> Seq<u8> {
    if payload.len() >= 9 {
        strip_spaces(payload.subrange(2, 9))
    } else {
        seq![63u8]
    }
}

/// One decoded display reading, exact: the spelled value is
/// `(-1 if negative) * mantissa / 10^frac_digits`.
#[derive(Clone, Copy, Debug, PartialEq, Eq, Structural)]
pub struct Number {
    /// The display text began with `'-'`.
    pub negative: bool,
    /// The digits with the decimal point ignored.
    pub mantissa: u32,
    /// How many digits followed the decimal point.
    pub frac_digits: u8,
}

proof fn lemma_pow10_values()
    ensures
        pow10(0) == 1,
        pow10(1) == 10,
        pow10(2) == 100,
        pow10(3) == 1000,
        pow10(4) == 10000,
        pow10(5) == 100000,
        pow10(6) == 1000000,
        pow10(7) == 10000000,
{
    assert(pow10(0) == 1);
    assert(pow10(1) == 10);
    assert(pow10(2) == 100);
    assert(pow10(3) == 1000);
    assert(pow10(4) == 10000);
    assert(pow10(5) == 100000);
    assert(pow10(6) == 1000000);
    assert(pow10(7) == 10000000);
}

proof fn lemma_pow10_monotone(a: nat, b: nat)
    requires
        a <= b,
    ensures
        1 <= pow10(a) <= pow10(b),
    decreases b,
{
    if b > 0 {
        if a == b {
            lemma_pow10_monotone((a - 1) as nat, (b - 1) as nat);
        } else {
            lemma_pow10_monotone(a, (b - 1) as nat);
        }
    }
}

proof fn lemma_pow10_adds(a: nat, b: nat)
    ensures
        pow10(a + b) == pow10(a) * pow10(b),
    decreases a,
{
    if a == 0 {
    } else {
        let a1 = (a - 1) as nat;
        lemma_pow10_adds(a1, b);
        assert(pow10(a1 + b) == pow10(a1) * pow10(b));
        assert(a1 + b == (a + b - 1) as nat);
        assert(pow10(a + b) == 10 * pow10((a + b - 1) as nat));
        assert(pow10(a + b) == 10 * (pow10(a1) * pow10(b)));
        assert(10 * (pow10(a1) * pow10(b)) == (10 * pow10(a1)) * pow10(b)) by (nonlinear_arith);
        assert(pow10(a) == 10 * pow10(a1));
    }
}

proof fn lemma_digits_value_bound(s: Seq<u8>)
    requires
        all_digits(s),
    ensures
        0 <= digits_value(s) < pow10(s.len()),
    decreases s.len(),
{
    if s.len() > 0 {
        assert(all_digits(s.drop_last()));
        lemma_digits_value_bound(s.drop_last());
    }
}

proof fn lemma_dot_index_at(s: Seq<u8>, k: int)
    requires
        0 <= k <= s.len(),
        forall|j: int| 0 <= j < k ==> s[j] != 46,
        k < s.len() ==> s[k] == 46,
    ensures
        dot_index(s) == k,
    decreases s.len(),
{
    if s.len() == 0 {
    } else if s[0] == 46 {
        assert(k == 0);
    } else {
        let t = s.subrange(1, s.len() as int);
        assert(forall|j: int| 0 <= j < k - 1 ==> t[j] == s[j + 1] && t[j] != 46);
        lemma_dot_index_at(t, k - 1);
    }
}

proof fn lemma_strip_spaces_len(s: Seq<u8>)
    ensures
        strip_spaces(s).len() <= s.len(),
    decreases s.len(),
{
    if s.len() > 0 {
        lemma_strip_spaces_len(s.subrange(1, s.len() as int));
    }
}

/// Law: a display field holding nothing but spaces strips to the empty
/// text, and the empty text is not a number — an all-blank display
/// yields no reading.
pub proof fn lemma_blank_display_no_number(payload: Seq<u8>)
    requires
        payload.len() >= 9,
        forall|i: int| 2 <= i < 9 ==> payload[i] == 32,
    ensures
        display_text(payload).len() == 0,
        !is_number(display_text(payload)),
{
    lemma_strip_all_spaces(payload.subrange(2, 9));
}

proof fn lemma_strip_all_spaces(s: Seq<u8>)
    requires
        forall|i: int| 0 <= i < s.len() ==> s[i] == 32,
    ensures
        strip_spaces(s).len() == 0,
    decreases s.len(),
{
    if s.len() > 0 {
        lemma_strip_all_spaces(s.subrange(1, s.len() as int));
    }
}

/// Extracts the display text from a payload: bytes 2 through 8 with the
/// space padding removed, or the single byte `'?'` when the payload has
/// no complete display field.
pub fn parse_display_ascii(payload: &[u8]) -> (r: Vec<u8>)
    ensures
        r@ == display_text(payload@),
        r@.len() <= 7,
{
    if payload.len() < 9 {
        let mut q: Vec<u8> = Vec::new();
        q.push(63);
        proof {
            assert(q@ =~= seq![63u8]);
        }
        return q;
    }
    let mut out: Vec<u8> = Vec::new();
    let mut i: usize = 2;
    while i < 9
        invariant
            2 <= i <= 9,
            payload@.len() >= 9,
            strip_spaces(payload@.subrange(2, 9)) == out@ + strip_spaces(
                payload@.subrange(i as int, 9),
            ),
            out@.len() <= i - 2,
        decreases 9 - i,
    {
        let ghost rest = payload@.subrange(i as int, 9);
        let ghost rest2 = payload@.subrange(i + 1, 9);
        proof {
            assert(rest[0] == payload@[i as int]);
            assert(rest.subrange(1, rest.len() as int) =~= rest2);
        }
        let b = *slice_index_get(payload, i);
        if b != 32 {
            out.push(b);
            proof {
                assert(out@ + strip_spaces(rest2) =~= out@.drop_last() + (seq![b].add(
                    strip_spaces(rest2),
                )));
            }
        }
        i = i + 1;
    }
    proof {
        assert(payload@.subrange(9, 9) =~= Seq::<u8>::empty());
        assert(out@ + Seq::<u8>::empty() =~= out@);
        lemma_strip_spaces_len(payload@.subrange(2, 9));
    }
    out
}

/// Reads the digits `text[from..to]` as one integer; nothing is returned
/// if any byte is not a digit.
fn digits_val(text: &[u8], from: usize, to: usize) -> (r: Option<u32>)
    requires
        from <= to <= text@.len(),
        to - from <= 7,
    ensures
        r is Some <==> all_digits(text@.subrange(from as int, to as int)),
        r matches Some(v) ==> v == digits_value(text@.subrange(from as int, to as int)),
        r matches Some(v) ==> v < pow10((to - from) as nat),
{
    let mut v: u32 = 0;
    let mut i: usize = from;
    while i < to
        invariant
            from <= i <= to <= text@.len(),
            to - from <= 7,
            all_digits(text@.subrange(from as int, i as int)),
            v == digits_value(text@.subrange(from as int, i as int)),
            v < pow10((i - from) as nat),
        decreases to - i,
    {
        let b = *slice_index_get(text, i);
        if b < 48 || b > 57 {
            proof {
                assert(text@.subrange(from as int, to as int)[i - from] == b);
            }
            return None;
        }
        proof {
            lemma_pow10_values();
            lemma_pow10_monotone((i - from) as nat, 6);
            assert(text@.subrange(from as int, i + 1).drop_last() =~= text@.subrange(
                from as int,
                i as int,
            ));
            assert(text@.subrange(from as int, i + 1).last() == b);
        }
        v = v * 10 + (b - 48) as u32;
        i = i + 1;
    }
    proof {
        assert(text@.subrange(from as int, i as int) =~= text@.subrange(from as int, to as int));
    }
    Some(v)
}

/// Ten to the `n`th power, executable.
fn pow10_exec(n: usize) -> (r: u32)
    requires
        n <= 7,
    ensures
        r == pow10(n as nat),
{
    let mut r: u32 = 1;
    let mut i: usize = 0;
    while i < n
        invariant
            0 <= i <= n <= 7,
            r == pow10(i as nat),
        decreases n - i,
    {
        proof {
            lemma_pow10_values();
            lemma_pow10_monotone(i as nat, 6);
        }
        r = r * 10;
        i = i + 1;
    }
    r
}

/// Parses a stripped display text as a decimal number: an optional sign,
/// then digits with at most one decimal point and at least one digit.
/// Nothing is returned on any other text, and the whole measurement is
/// then invalid.
pub fn parse_number(text: &[u8]) -> (r: Option<Number>)
    requires
        text@.len() <= 7,
    ensures
        r is Some <==> is_number(text@),
        r matches Some(num) ==> {
            &&& num.negative == num_negative(text@)
            &&& num.mantissa == num_mantissa(text@)
            &&& num.frac_digits == num_frac_digits(text@)
        },
{
    let n = text.len();
    let ghost s = text@;
    let mut start: usize = 0;
    let mut negative: bool = false;
    if n > 0 {
        let b0 = *slice_index_get(text, 0);
        if b0 == 45 || b0 == 43 {
            start = 1;
            negative = b0 == 45;
        }
    }
    let ghost body = num_body(s);
    proof {
        assert(body =~= s.subrange(start as int, n as int));
    }
    // Find the first decimal point inside the body.
    let mut d: usize = start;
    while d < n && *slice_index_get(text, d) != 46
        invariant
            start <= d <= n == text@.len() <= 7,
            forall|j: int| start <= j < d ==> text@[j] != 46,
        decreases n - d,
    {
        d = d + 1;
    }
    proof {
        assert(forall|j: int| 0 <= j < d - start ==> body[j] == s[j + start] && body[j] != 46);
        lemma_dot_index_at(body, d - start);
    }
    if start == n {
        // Empty body (no digits at all).
        return None;
    }
    if d < n && n - start < 2 {
        // The body is a lone decimal point.
        return None;
    }
    let iv = match digits_val(text, start, d) {
        Some(v) => v,
        None => {
            proof {
                assert(body.subrange(0, d - start) =~= s.subrange(start as int, d as int));
            }
            return None;
        },
    };
    proof {
        assert(body.subrange(0, d - start) =~= s.subrange(start as int, d as int));
    }
    if d == n {
        // No decimal point: the mantissa is the digit run itself.
        return Some(Number { negative, mantissa: iv, frac_digits: 0 });
    }
    let fv = match digits_val(text, d + 1, n) {
        Some(v) => v,
        None => {
            proof {
                assert(body.subrange(d - start + 1, body.len() as int) =~= s.subrange(
                    d + 1,
                    n as int,
                ));
            }
            return None;
        },
    };
    proof {
        assert(body.subrange(d - start + 1, body.len() as int) =~= s.subrange(d + 1, n as int));
    }
    let il = d - start;
    let fl = n - d - 1;
    let p = pow10_exec(fl);
    proof {
        lemma_pow10_values();
        lemma_pow10_adds(il as nat, fl as nat);
        lemma_pow10_monotone((il + fl) as nat, 6);
        assert(iv * p + fv < pow10((il + fl) as nat)) by (nonlinear_arith)
            requires
                iv < pow10(il as nat),
                fv < pow10(fl as nat),
                p == pow10(fl as nat),
                pow10((il + fl) as nat) == pow10(il as nat) * pow10(fl as nat),
                pow10(il as nat) >= 1,
                pow10(fl as nat) >= 1,
        ;
    }
    let mantissa = iv * p + fv;
    Some(Number { negative, mantissa, frac_digits: fl as u8 })
}

} // verus!
