//! Exact decimal numbers. A real-valued field keeps exactly the digits that
//! stood in the file, so serialization reproduces the original text; range
//! rules and equality are decided on the exact rational value.

use vstd::prelude::*;

use crate::numbers::{char_code_eq, dec_digit, digit_stop, is_digit_char};
use crate::wire::{starts_with_at, ParseError, ParseErrorKind};

verus! {

/// A signed decimal number, kept digit-for-digit: an optional minus sign, the
/// integer digits, and the fractional digits if a decimal point was present.
/// Digits are stored as values 0..=9.
#[derive(Clone, Debug)]
pub struct Decimal {
    pub neg: bool,
    pub int_digits: Vec<u8>,
    pub frac_digits: Option<Vec<u8>>,
}

pub open spec fn digits_ok(ds: Seq<u8>) -> bool {
    forall|k: int| 0 <= k < ds.len() ==> #[trigger] ds[k] < 10
}

/// Well-formed: at least one integer digit, at most 18 digits on either side
/// of the point, a present fraction is non-empty.
pub open spec fn wf_decimal(r: Decimal) -> bool {
    &&& 1 <= r.int_digits@.len() <= 18
    &&& digits_ok(r.int_digits@)
    &&& match r.frac_digits {
        Option::None => true,
        Option::Some(f) => 1 <= f@.len() <= 18 && digits_ok(f@),
    }
}

/// The numeric value of a digit string.
pub open spec fn digits_val(ds: Seq<u8>) -> int
    decreases ds.len(),
{
    if ds.len() == 0 {
        0
    } else {
        digits_val(ds.drop_last()) * 10 + ds.last()
    }
}

pub open spec fn pow10(k: nat) -> int
    decreases k,
{
    if k == 0 {
        1
    } else {
        10 * pow10((k - 1) as nat)
    }
}

pub open spec fn frac_len(r: Decimal) -> nat {
    match r.frac_digits {
        Option::None => 0,
        Option::Some(f) => f@.len(),
    }
}

pub open spec fn frac_val(r: Decimal) -> int {
    match r.frac_digits {
        Option::None => 0,
        Option::Some(f) => digits_val(f@),
    }
}

/// The value of `r` scaled by `pow10(frac_len(r))`: an exact integer
/// representation of the rational value.
pub open spec fn decimal_scaled(r: Decimal) -> int {
    let mag = digits_val(r.int_digits@) * pow10(frac_len(r)) + frac_val(r);
    if r.neg {
        -mag
    } else {
        mag
    }
}

/// `r >= c / 100`, exactly.
pub open spec fn decimal_ge_centi(r: Decimal, c: int) -> bool {
    decimal_scaled(r) * 100 >= c * pow10(frac_len(r))
}

/// `r <= c / 100`, exactly.
pub open spec fn decimal_le_centi(r: Decimal, c: int) -> bool {
    decimal_scaled(r) * 100 <= c * pow10(frac_len(r))
}

/// The two numbers have the same rational value.
pub open spec fn decimal_eq_val(a: Decimal, b: Decimal) -> bool {
    decimal_scaled(a) * pow10(frac_len(b)) == decimal_scaled(b) * pow10(frac_len(a))
}

pub proof fn pow10_pos(k: nat)
    ensures
        pow10(k) >= 1,
    decreases k,
{
    if k > 0 {
        pow10_pos((k - 1) as nat);
    }
}

pub proof fn pow10_adds(a: nat, b: nat)
    ensures
        pow10(a + b) == pow10(a) * pow10(b),
    decreases a,
{
    if a == 0 {
        assert(pow10(0 + b) == 1 * pow10(b));
    } else {
        pow10_adds((a - 1) as nat, b);
        assert(pow10((a - 1) as nat + b) == pow10((a - 1) as nat) * pow10(b));
        assert((a - 1) as nat + b == (a + b - 1) as nat);
        assert(pow10(a + b) == 10 * (pow10((a - 1) as nat) * pow10(b)));
        assert(10 * (pow10((a - 1) as nat) * pow10(b)) == (10 * pow10((a - 1) as nat)) * pow10(
            b,
        )) by (nonlinear_arith);
    }
}

pub proof fn digits_val_bound(ds: Seq<u8>)
    requires
        digits_ok(ds),
    ensures
        0 <= digits_val(ds) < pow10(ds.len()),
    decreases ds.len(),
{
    if ds.len() == 0 {
    } else {
        let head = ds.drop_last();
        assert(digits_ok(head));
        digits_val_bound(head);
        let v = digits_val(head);
        let p = pow10(head.len());
        assert(v * 10 + ds.last() < p * 10) by (nonlinear_arith)
            requires
                v < p,
                ds.last() < 10,
        ;
        assert(v * 10 + ds.last() >= 0) by (nonlinear_arith)
            requires
                v >= 0,
                ds.last() >= 0,
        ;
        assert(pow10(ds.len()) == 10 * p);
    }
}

pub proof fn pow10_18_value()
    ensures
        pow10(18) == 1000000000000000000,
{
    reveal_with_fuel(pow10, 19);
}

proof fn digits_take_step(ds: Seq<u8>, k: int)
    requires
        0 <= k < ds.len(),
    ensures
        digits_val(ds.take(k + 1)) == digits_val(ds.take(k)) * 10 + ds[k],
{
    assert(ds.take(k + 1).drop_last() =~= ds.take(k));
    assert(ds.take(k + 1).last() == ds[k]);
}

pub proof fn pow10_mono(a: nat, b: nat)
    requires
        a <= b,
    ensures
        pow10(a) <= pow10(b),
{
    pow10_adds(a, (b - a) as nat);
    pow10_pos(a);
    pow10_pos((b - a) as nat);
    assert(pow10(a) * 1 <= pow10(a) * pow10((b - a) as nat)) by (nonlinear_arith)
        requires
            pow10(a) >= 1,
            pow10((b - a) as nat) >= 1,
    ;
}

/// The numeric value of a digit vector, as a machine integer.
pub fn digits_value(ds: &Vec<u8>) -> (v: u64)
    requires
        ds@.len() <= 18,
        digits_ok(ds@),
    ensures
        v == digits_val(ds@),
        v < 1000000000000000000,
{
    let n = ds.len();
    let mut v: u64 = 0;
    let mut k: usize = 0;
    proof {
        assert(ds@.take(0) =~= Seq::<u8>::empty());
    }
    while k < n
        invariant
            0 <= k <= n == ds@.len() <= 18,
            digits_ok(ds@),
            v == digits_val(ds@.take(k as int)),
            v < pow10(k as nat),
        decreases n - k,
    {
        proof {
            digits_take_step(ds@, k as int);
            pow10_18_value();
            pow10_mono((k + 1) as nat, 18);
            assert(v * 10 + ds@[k as int] < pow10(k as nat) * 10) by (nonlinear_arith)
                requires
                    v < pow10(k as nat),
                    ds@[k as int] < 10,
            ;
            assert(pow10((k + 1) as nat) == 10 * pow10(k as nat));
        }
        v = v * 10 + (ds[k] as u64);
        k = k + 1;
    }
    proof {
        assert(ds@.take(n as int) =~= ds@);
        pow10_18_value();
        pow10_mono(k as nat, 18);
    }
    v
}

/// Ten to the power `k`, as a machine integer.
pub fn pow10_u64(k: usize) -> (p: u64)
    requires
        k <= 18,
    ensures
        p == pow10(k as nat),
{
    let mut p: u64 = 1;
    let mut t: usize = 0;
    while t < k
        invariant
            0 <= t <= k <= 18,
            p == pow10(t as nat),
        decreases k - t,
    {
        proof {
            pow10_18_value();
            pow10_mono((t + 1) as nat, 18);
            pow10_pos(t as nat);
            assert(pow10((t + 1) as nat) == 10 * pow10(t as nat));
        }
        p = p * 10;
        t = t + 1;
    }
    p
}

/// The scaled value and its scale: `decimal_scaled(r)` and `pow10(frac_len(r))`.
/// The magnitude of the scaled value is below `10^18` times the scale.
fn scaled_parts(r: &Decimal) -> (out: (i128, i128))
    requires
        wf_decimal(*r),
    ensures
        out.0 == decimal_scaled(*r),
        out.1 == pow10(frac_len(*r)),
        1 <= out.1 <= 1000000000000000000,
        -1000000000000000000 * out.1 < out.0 < 1000000000000000000 * out.1,
{
    let iv = digits_value(&r.int_digits);
    let (fv, p): (u64, u64) = match &r.frac_digits {
        Option::None => (0u64, 1u64),
        Option::Some(f) => {
            let fv = digits_value(f);
            let p = pow10_u64(f.len());
            (fv, p)
        },
    };
    proof {
        pow10_18_value();
        pow10_mono(frac_len(*r), 18);
        pow10_pos(frac_len(*r));
        if r.frac_digits is Some {
            digits_val_bound(r.frac_digits.unwrap()@);
        }
        assert(0 <= (iv as i128) * (p as i128) + (fv as i128) < 1000000000000000000 * (
        p as i128)) by (nonlinear_arith)
            requires
                0 <= iv < 1000000000000000000,
                1 <= p <= 1000000000000000000,
                0 <= fv < p,
        ;
    }
    let mag: i128 = (iv as i128) * (p as i128) + (fv as i128);
    if r.neg {
        (-mag, p as i128)
    } else {
        (mag, p as i128)
    }
}

/// Whether `lo / 100 <= r <= hi / 100`, decided exactly.
pub fn in_centi_range(r: &Decimal, lo: i64, hi: i64) -> (ok: bool)
    requires
        wf_decimal(*r),
        -1000000 <= lo <= 1000000,
        -1000000 <= hi <= 1000000,
    ensures
        ok == (decimal_ge_centi(*r, lo as int) && decimal_le_centi(*r, hi as int)),
{
    let (sv, p) = scaled_parts(r);
    proof {
        assert(-100000000000000000000000000000000000000 < sv * 100
            < 100000000000000000000000000000000000000) by (nonlinear_arith)
            requires
                -1000000000000000000 * p < sv < 1000000000000000000 * p,
                1 <= p <= 1000000000000000000,
        ;
        assert(-10000000000000000000000000 <= (lo as i128) * p <= 10000000000000000000000000)
            by (nonlinear_arith)
            requires
                -1000000 <= lo <= 1000000,
                1 <= p <= 1000000000000000000,
        ;
        assert(-10000000000000000000000000 <= (hi as i128) * p <= 10000000000000000000000000)
            by (nonlinear_arith)
            requires
                -1000000 <= hi <= 1000000,
                1 <= p <= 1000000000000000000,
        ;
    }
    sv * 100 >= (lo as i128) * p && sv * 100 <= (hi as i128) * p
}

/// Whether two numbers have the same rational value.
pub fn same_value(a: &Decimal, b: &Decimal) -> (eq: bool)
    requires
        wf_decimal(*a),
        wf_decimal(*b),
    ensures
        eq == decimal_eq_val(*a, *b),
{
    let (sa, pa) = scaled_parts(a);
    let (sb, pb) = scaled_parts(b);
    // compare sa * pb with sb * pa without overflowing: scale the side with
    // the shorter fraction up to the longer one
    let fa = match &a.frac_digits {
        Option::None => 0usize,
        Option::Some(f) => f.len(),
    };
    let fb = match &b.frac_digits {
        Option::None => 0usize,
        Option::Some(f) => f.len(),
    };
    if fa <= fb {
        let scale = pow10_u64(fb - fa) as i128;
        proof {
            pow10_pos((fb - fa) as nat);
            pow10_adds(fa as nat, (fb - fa) as nat);
            pow10_18_value();
            assert(-100000000000000000000000000000000000000 < sa * scale
                < 100000000000000000000000000000000000000) by (nonlinear_arith)
                requires
                    -1000000000000000000 * pa < sa < 1000000000000000000 * pa,
                    1 <= scale,
                    pa * scale == pb,
                    pb <= 1000000000000000000,
            ;
        }
        let lhs = sa * scale;
        let eq = lhs == sb;
        proof {
            lemma_cross_scale(sa as int, sb as int, (fb - fa) as nat, fa as nat, fb as nat);
        }
        eq
    } else {
        let scale = pow10_u64(fa - fb) as i128;
        proof {
            pow10_pos((fa - fb) as nat);
            pow10_adds(fb as nat, (fa - fb) as nat);
            pow10_18_value();
            assert(-100000000000000000000000000000000000000 < sb * scale
                < 100000000000000000000000000000000000000) by (nonlinear_arith)
                requires
                    -1000000000000000000 * pb < sb < 1000000000000000000 * pb,
                    1 <= scale,
                    pb * scale == pa,
                    pa <= 1000000000000000000,
            ;
        }
        let rhs = sb * scale;
        let eq = sa == rhs;
        proof {
            lemma_cross_scale(sb as int, sa as int, (fa - fb) as nat, fb as nat, fa as nat);
        }
        eq
    }
}


/// With `fbig == d + fsmall`: `x * pow10(d) == y` is the same comparison as
/// `x * pow10(fbig) == y * pow10(fsmall)`.
proof fn lemma_cross_scale(x: int, y: int, d: nat, fsmall: nat, fbig: nat)
    requires
        fbig == d + fsmall,
    ensures
        (x * pow10(d) == y) <==> (x * pow10(fbig) == y * pow10(fsmall)),
{
    pow10_adds(d, fsmall);
    pow10_pos(fsmall);
    pow10_pos(d);
    let ps = pow10(fsmall);
    let pd = pow10(d);
    assert(x * (pd * ps) == (x * pd) * ps) by (nonlinear_arith);
    assert(((x * pd) * ps == y * ps) <==> (x * pd == y)) by (nonlinear_arith)
        requires
            ps >= 1,
    ;
}


/// The scaled value and its scale, for rule checks: the first component is
/// `decimal_scaled(r)` and the second `pow10(frac_len(r))`.
pub fn parts_for_rules(r: &Decimal) -> (out: (i128, i128))
    requires
        wf_decimal(*r),
    ensures
        out.0 == decimal_scaled(*r),
        out.1 == pow10(frac_len(*r)),
        1 <= out.1,
        (out.0 >= 0) == decimal_ge_centi(*r, 0),
{
    let (sv, p) = scaled_parts(r);
    proof {
        assert(decimal_scaled(*r) * 100 >= 0 * pow10(frac_len(*r)) <==> decimal_scaled(*r) >= 0)
            by (nonlinear_arith)
            requires
                pow10(frac_len(*r)) >= 1,
        ;
    }
    (sv, p)
}

/// The text of a digit string.
pub open spec fn digit_chars(ds: Seq<u8>) -> Seq<char> {
    Seq::new(ds.len(), |k: int| dec_digit(ds[k] as int))
}

/// The text of a real number: sign, integer digits, then the fraction if one
/// was present.
pub open spec fn ser_decimal(r: Decimal) -> Seq<char> {
    (if r.neg {
        seq!['-']
    } else {
        Seq::<char>::empty()
    }) + digit_chars(r.int_digits@) + (match r.frac_digits {
        Option::None => Seq::<char>::empty(),
        Option::Some(f) => seq!['.'] + digit_chars(f@),
    })
}

/// The scan of a decimal number stops here: the input ends, or continues
/// with something that is neither a digit nor a decimal point.
pub open spec fn decimal_stop(s: Seq<char>, p: int) -> bool {
    p >= s.len() || (!is_digit_char(s[p]) && s[p] != '.')
}

/// Digit text is made of digit characters.
pub proof fn digit_chars_shape(ds: Seq<u8>)
    requires
        digits_ok(ds),
    ensures
        digit_chars(ds).len() == ds.len(),
        forall|t: int| 0 <= t < ds.len() ==> is_digit_char(#[trigger] digit_chars(ds)[t]),
{
    assert forall|t: int| 0 <= t < ds.len() implies is_digit_char(
        #[trigger] digit_chars(ds)[t],
    ) by {
        crate::numbers::dec_digit_code(ds[t] as int);
    }
}

/// Append the digit characters of `ds`.
pub fn write_digits(out: &mut String, ds: &Vec<u8>)
    requires
        digits_ok(ds@),
    ensures
        final(out)@ == old(out)@ + digit_chars(ds@),
{
    let n = ds.len();
    let mut k: usize = 0;
    while k < n
        invariant
            0 <= k <= n == ds@.len(),
            digits_ok(ds@),
            out@ == old(out)@ + digit_chars(ds@).take(k as int),
        decreases n - k,
    {
        crate::numbers::push_digit(out, ds[k] as u64);
        k = k + 1;
        proof {
            assert(digit_chars(ds@).take(k as int) =~= digit_chars(ds@).take(k - 1) + seq![
                dec_digit(ds@[k - 1] as int),
            ]);
        }
    }
    proof {
        assert(digit_chars(ds@).take(n as int) =~= digit_chars(ds@));
    }
}

/// Append the text of a real number.
pub fn write_decimal(out: &mut String, r: &Decimal)
    requires
        wf_decimal(*r),
    ensures
        final(out)@ == old(out)@ + ser_decimal(*r),
{
    if r.neg {
        out.append("-");
        proof {
            reveal_strlit("-");
        }
    }
    write_digits(out, &r.int_digits);
    match &r.frac_digits {
        Option::None => {},
        Option::Some(f) => {
            out.append(".");
            proof {
                reveal_strlit(".");
            }
            write_digits(out, f);
        },
    }
    proof {
        assert(out@ =~= old(out)@ + ser_decimal(*r));
    }
}

/// Scan a run of one to eighteen decimal digits.
pub fn scan_digits(s: &str, i: usize) -> (r: Result<(Vec<u8>, usize), ParseError>)
    requires
        i <= s@.len(),
    ensures
        match r {
            Ok((ds, j)) => {
                &&& i < j <= s@.len()
                &&& 1 <= ds@.len() <= 18
                &&& digits_ok(ds@)
                &&& s@.subrange(i as int, j as int) == digit_chars(ds@)
            },
            Err(_) => true,
        },
        forall|ws: Seq<u8>|
            #![trigger starts_with_at(s@, i as int, digit_chars(ws))]
            1 <= ws.len() <= 18 && digits_ok(ws) && starts_with_at(s@, i as int, digit_chars(ws))
                && digit_stop(s@, i + ws.len()) ==> r is Ok && (r->Ok_0).1 == i + ws.len(),
{
    let n = s.unicode_len();
    let mut ds: Vec<u8> = Vec::new();
    let mut j: usize = i;
    loop
        invariant
            i <= j <= n == s@.len(),
            ds@.len() == j - i,
            ds@.len() <= 18,
            digits_ok(ds@),
            s@.subrange(i as int, j as int) == digit_chars(ds@),
            forall|ws: Seq<u8>|
                #![trigger starts_with_at(s@, i as int, digit_chars(ws))]
                1 <= ws.len() <= 18 && digits_ok(ws) && starts_with_at(
                    s@,
                    i as int,
                    digit_chars(ws),
                ) && digit_stop(s@, i + ws.len()) ==> j <= i + ws.len(),
        decreases n - j,
    {
        proof {
            assert forall|ws: Seq<u8>|
                1 <= ws.len() <= 18 && digits_ok(ws) && #[trigger] starts_with_at(
                    s@,
                    i as int,
                    digit_chars(ws),
                ) && digit_stop(s@, i + ws.len()) implies (j < i + ws.len() ==> j < s@.len()
                && is_digit_char(s@[j as int])) && (j == i + ws.len() ==> digit_stop(
                s@,
                j as int,
            )) by {
                digit_chars_shape(ws);
                if j < i + ws.len() {
                    assert(s@[j as int] == s@.subrange(i as int, i + ws.len())[j - i]);
                }
            }
        }
        let stop = if j == n {
            true
        } else {
            let c = s.get_char(j);
            let code = c as u32;
            !(48 <= code && code <= 57)
        };
        if stop {
            proof {
                assert forall|ws: Seq<u8>|
                    1 <= ws.len() <= 18 && digits_ok(ws) && #[trigger] starts_with_at(
                        s@,
                        i as int,
                        digit_chars(ws),
                    ) && digit_stop(s@, i + ws.len()) implies j == i + ws.len() by {
                    digit_chars_shape(ws);
                    if j < i + ws.len() {
                        assert(s@[j as int] == s@.subrange(i as int, i + ws.len())[j - i]);
                    }
                }
            }
            if ds.len() == 0 {
                return Err(ParseError { pos: j, kind: ParseErrorKind::BadNumber });
            }
            return Ok((ds, j));
        }
        let c = s.get_char(j);
        let code = c as u32;
        if ds.len() == 18 {
            return Err(ParseError { pos: j, kind: ParseErrorKind::BadNumber });
        }
        let d = (code - 48) as u8;
        ds.push(d);
        j = j + 1;
        proof {
            crate::numbers::dec_digit_code(d as int);
            assert(s@.subrange(i as int, j as int) =~= digit_chars(ds@));
        }
    }
}

/// Parse a real number: optional minus sign, integer digits, optional
/// fraction.
pub fn parse_decimal(s: &str, i: usize) -> (r: Result<(Decimal, usize), ParseError>)
    requires
        i <= s@.len(),
    ensures
        match r {
            Ok((v, j)) => {
                &&& i < j <= s@.len()
                &&& wf_decimal(v)
                &&& s@.subrange(i as int, j as int) == ser_decimal(v)
            },
            Err(_) => true,
        },
        forall|w: Decimal|
            #![trigger starts_with_at(s@, i as int, ser_decimal(w))]
            wf_decimal(w) && starts_with_at(s@, i as int, ser_decimal(w)) && decimal_stop(
                s@,
                i + ser_decimal(w).len(),
            ) ==> r is Ok && (r->Ok_0).1 == i + ser_decimal(w).len(),
{
    let n = s.unicode_len();
    proof {
        assert(('-' as u32) == 45 && ('.' as u32) == 46);
        assert forall|w: Decimal|
            wf_decimal(w) && #[trigger] starts_with_at(s@, i as int, ser_decimal(w))
                && decimal_stop(s@, i + ser_decimal(w).len()) implies {
            let sign = if w.neg {
                seq!['-']
            } else {
                Seq::<char>::empty()
            };
            &&& i < s@.len()
            &&& (w.neg <==> s@[i as int] == '-')
            &&& starts_with_at(s@, i + sign.len(), digit_chars(w.int_digits@))
            &&& digit_stop(s@, i + sign.len() + w.int_digits@.len())
            &&& (w.frac_digits is Some <==> (i + sign.len() + w.int_digits@.len() < s@.len()
                && s@[i + sign.len() + w.int_digits@.len()] == '.'))
            &&& (w.frac_digits is Some ==> starts_with_at(
                s@,
                i + sign.len() + w.int_digits@.len() + 1,
                digit_chars(w.frac_digits->0@),
            ) && digit_stop(
                s@,
                i + sign.len() + w.int_digits@.len() + 1 + w.frac_digits->0@.len(),
            ))
        } by {
            let sign = if w.neg {
                seq!['-']
            } else {
                Seq::<char>::empty()
            };
            let fracpart = match w.frac_digits {
                Option::None => Seq::<char>::empty(),
                Option::Some(f) => seq!['.'] + digit_chars(f@),
            };
            digit_chars_shape(w.int_digits@);
            crate::wire::starts_split(s@, i as int, sign + digit_chars(w.int_digits@), fracpart);
            crate::wire::starts_split(s@, i as int, sign, digit_chars(w.int_digits@));
            if w.neg {
                assert(s@.subrange(i as int, i + 1)[0] == s@[i as int]);
            } else {
                assert(s@.subrange(i as int, i + w.int_digits@.len())[0] == s@[i as int]);
                assert(is_digit_char(s@[i as int]));
            }
            let fp = i + sign.len() + w.int_digits@.len();
            match w.frac_digits {
                Option::None => {},
                Option::Some(f) => {
                    digit_chars_shape(f@);
                    crate::wire::starts_split(s@, fp, seq!['.'], digit_chars(f@));
                    assert(s@.subrange(fp, fp + 1)[0] == s@[fp]);
                },
            }
        }
    }
    let mut pos = i;
    let neg = pos < n && s.get_char(pos) == '-';
    if neg {
        pos = pos + 1;
    }
    let (int_digits, p1) = scan_digits(s, pos)?;
    let mut out = Decimal { neg, int_digits, frac_digits: Option::None };
    let mut j = p1;
    proof {
        assert forall|w: Decimal|
            wf_decimal(w) && #[trigger] starts_with_at(s@, i as int, ser_decimal(w))
                && decimal_stop(s@, i + ser_decimal(w).len()) implies j == i + (if w.neg {
            1int
        } else {
            0int
        }) + w.int_digits@.len() && (w.frac_digits is Some <==> (j < s@.len() && s@[j as int]
            == '.')) by {
            digit_chars_shape(w.int_digits@);
        }
    }
    if j < n && s.get_char(j) == '.' {
        let (frac, p2) = scan_digits(s, j + 1)?;
        proof {
            crate::wire::subrange_join(s@, j as int, j + 1, p2 as int);
            assert forall|w: Decimal|
                wf_decimal(w) && #[trigger] starts_with_at(s@, i as int, ser_decimal(w))
                    && decimal_stop(s@, i + ser_decimal(w).len()) implies p2 == i + ser_decimal(
                w,
            ).len() by {
                digit_chars_shape(w.frac_digits->0@);
            }
        }
        out.frac_digits = Option::Some(frac);
        j = p2;
    } else {
        proof {
            assert forall|w: Decimal|
                wf_decimal(w) && #[trigger] starts_with_at(s@, i as int, ser_decimal(w))
                    && decimal_stop(s@, i + ser_decimal(w).len()) implies j == i + ser_decimal(
                w,
            ).len() by {}
        }
    }
    proof {
        if neg {
            crate::wire::subrange_join(s@, i as int, i + 1, p1 as int);
        }
        if out.frac_digits is Some {
            crate::wire::subrange_join(s@, i as int, p1 as int, j as int);
        }
        assert(s@.subrange(i as int, j as int) =~= ser_decimal(out));
    }
    Ok((out, j))
}

} // verus!
