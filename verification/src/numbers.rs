//! Decimal text codec for the integer fields of the dialect: canonical
//! (no leading zero) unsigned and signed decimal numbers.

use vstd::prelude::*;

use crate::wire::{starts_with_at, ParseError, ParseErrorKind};

verus! {

/// Two characters with the same code point are the same character.
pub proof fn char_code_eq(c1: char, c2: char)
    requires
        c1 as u32 == c2 as u32,
    ensures
        c1 == c2,
{
}

/// The decimal digit character for a value in 0..9.
pub open spec fn dec_digit(d: int) -> char {
    if d == 0 {
        '0'
    } else if d == 1 {
        '1'
    } else if d == 2 {
        '2'
    } else if d == 3 {
        '3'
    } else if d == 4 {
        '4'
    } else if d == 5 {
        '5'
    } else if d == 6 {
        '6'
    } else if d == 7 {
        '7'
    } else if d == 8 {
        '8'
    } else {
        '9'
    }
}

pub open spec fn is_digit_char(c: char) -> bool {
    48 <= (c as u32) <= 57
}

pub open spec fn digit_char_val(c: char) -> int {
    (c as u32) - 48
}

pub proof fn dec_digit_code(d: int)
    requires
        0 <= d <= 9,
    ensures
        is_digit_char(dec_digit(d)),
        digit_char_val(dec_digit(d)) == d,
{
}

/// Canonical decimal text of an unsigned number.
pub open spec fn u64_dec(n: int) -> Seq<char>
    decreases n,
{
    if n <= 9 {
        seq![dec_digit(n)]
    } else {
        u64_dec(n / 10) + seq![dec_digit(n % 10)]
    }
}

/// Canonical decimal text of a signed number (minus sign, then magnitude).
pub open spec fn i64_dec(n: int) -> Seq<char> {
    if n < 0 {
        seq!['-'] + u64_dec(-n)
    } else {
        u64_dec(n)
    }
}

/// Append one decimal digit character.
pub fn push_digit(out: &mut String, d: u64)
    requires
        d < 10,
    ensures
        final(out)@ == old(out)@ + seq![dec_digit(d as int)],
{
    let table = "0123456789";
    proof {
        reveal_strlit("0123456789");
    }
    let piece = table.substring_char(d as usize, d as usize + 1);
    assert(piece@ =~= seq![dec_digit(d as int)]);
    out.append(piece);
}

/// Append the canonical decimal text of `n`.
pub fn write_u64(out: &mut String, n: u64)
    ensures
        final(out)@ == old(out)@ + u64_dec(n as int),
    decreases n,
{
    if n <= 9 {
        push_digit(out, n);
    } else {
        write_u64(out, n / 10);
        push_digit(out, n % 10);
    }
}

/// Append the canonical decimal text of a signed `n`.
pub fn write_i64(out: &mut String, n: i64)
    requires
        n > i64::MIN,
    ensures
        final(out)@ == old(out)@ + i64_dec(n as int),
{
    if n < 0 {
        out.append("-");
        assert(seq!['-'] =~= "-"@) by {
            reveal_strlit("-");
        }
        write_u64(out, (-n) as u64);
        assert(out@ =~= old(out)@ + i64_dec(n as int));
    } else {
        write_u64(out, n as u64);
    }
}

proof fn u64_dec_step(v: int, d: int)
    requires
        v >= 1,
        0 <= d <= 9,
    ensures
        u64_dec(v * 10 + d) == u64_dec(v) + seq![dec_digit(d)],
{
    assert(v * 10 + d >= 10) by (nonlinear_arith)
        requires
            v >= 1,
            d >= 0,
    ;
    assert((v * 10 + d) / 10 == v && (v * 10 + d) % 10 == d) by (nonlinear_arith)
        requires
            0 <= d <= 9,
    ;
}

/// The scan of a number stops here: the input ends, or continues with a
/// non-digit.
pub open spec fn digit_stop(s: Seq<char>, p: int) -> bool {
    p >= s.len() || !is_digit_char(s[p])
}

/// Canonical decimal text is made of digits, has at least one of them, and
/// starts with a non-zero digit for any value above nine's predecessor.
pub proof fn u64_dec_shape(v: int)
    requires
        v >= 0,
    ensures
        u64_dec(v).len() >= 1,
        forall|t: int| 0 <= t < u64_dec(v).len() ==> is_digit_char(#[trigger] u64_dec(v)[t]),
        v >= 1 ==> u64_dec(v)[0] != '0',
        v == 0 ==> u64_dec(v) == seq![dec_digit(0)],
    decreases v,
{
    if v <= 9 {
        dec_digit_code(v);
        assert(u64_dec(v) == seq![dec_digit(v)]);
        if v >= 1 {
            reveal_strlit("0");
            assert(dec_digit(v) != '0');
        }
    } else {
        u64_dec_shape(v / 10);
        dec_digit_code(v % 10);
        assert(u64_dec(v) == u64_dec(v / 10) + seq![dec_digit(v % 10)]);
        assert(u64_dec(v)[0] == u64_dec(v / 10)[0]);
        assert(v / 10 >= 1);
    }
}

/// A number whose canonical text is a prefix of another's is no larger.
pub proof fn u64_dec_prefix_le(a: int, b: int)
    requires
        0 <= a,
        0 <= b,
        u64_dec(a).len() <= u64_dec(b).len(),
        u64_dec(a) == u64_dec(b).take(u64_dec(a).len() as int),
    ensures
        a <= b,
    decreases b,
{
    u64_dec_shape(a);
    u64_dec_shape(b);
    if u64_dec(a).len() == u64_dec(b).len() {
        assert(u64_dec(b).take(u64_dec(b).len() as int) =~= u64_dec(b));
        u64_dec_injective(a, b);
    } else {
        assert(b > 9) by {
            if b <= 9 {
                assert(u64_dec(b) == seq![dec_digit(b)]);
            }
        }
        assert(u64_dec(b) == u64_dec(b / 10) + seq![dec_digit(b % 10)]);
        u64_dec_shape(b / 10);
        assert(u64_dec(a).len() <= u64_dec(b / 10).len());
        assert(u64_dec(a) == u64_dec(b / 10).take(u64_dec(a).len() as int)) by {
            assert forall|t: int| 0 <= t < u64_dec(a).len() implies u64_dec(a)[t] == u64_dec(
                b / 10,
            ).take(u64_dec(a).len() as int)[t] by {
                assert(u64_dec(a)[t] == u64_dec(b).take(u64_dec(a).len() as int)[t]);
                assert(u64_dec(b)[t] == u64_dec(b / 10)[t]);
            }
            assert(u64_dec(a) =~= u64_dec(b / 10).take(u64_dec(a).len() as int));
        }
        u64_dec_prefix_le(a, b / 10);
    }
}

/// Canonical decimal text determines the number.
pub proof fn u64_dec_injective(a: int, b: int)
    requires
        0 <= a,
        0 <= b,
        u64_dec(a) == u64_dec(b),
    ensures
        a == b,
    decreases a + b,
{
    if a <= 9 && b <= 9 {
        dec_digit_code(a);
        dec_digit_code(b);
        assert(u64_dec(a)[0] == dec_digit(a) && u64_dec(b)[0] == dec_digit(b));
    } else if a <= 9 {
        u64_dec_shape(b / 10);
        assert(u64_dec(b) == u64_dec(b / 10) + seq![dec_digit(b % 10)]);
        assert(u64_dec(a).len() == 1 && u64_dec(b).len() >= 2);
    } else if b <= 9 {
        u64_dec_shape(a / 10);
        assert(u64_dec(a) == u64_dec(a / 10) + seq![dec_digit(a % 10)]);
        assert(u64_dec(a).len() >= 2 && u64_dec(b).len() == 1);
    } else {
        assert(u64_dec(a) == u64_dec(a / 10) + seq![dec_digit(a % 10)]);
        assert(u64_dec(b) == u64_dec(b / 10) + seq![dec_digit(b % 10)]);
        assert(u64_dec(a / 10) =~= u64_dec(b / 10)) by {
            assert(u64_dec(a).len() == u64_dec(b).len());
            assert(u64_dec(a / 10).len() == u64_dec(b / 10).len());
            assert forall|t: int| 0 <= t < u64_dec(a / 10).len() implies #[trigger] u64_dec(
                a / 10,
            )[t] == u64_dec(b / 10)[t] by {
                assert(u64_dec(a)[t] == u64_dec(a / 10)[t]);
                assert(u64_dec(b)[t] == u64_dec(b / 10)[t]);
            }
        }
        u64_dec_injective(a / 10, b / 10);
        assert(u64_dec(a).last() == dec_digit(a % 10));
        assert(u64_dec(b).last() == dec_digit(b % 10));
        dec_digit_code(a % 10);
        dec_digit_code(b % 10);
        assert(digit_char_val(dec_digit(a % 10)) == digit_char_val(dec_digit(b % 10)));
        assert(a % 10 == b % 10);
        assert(a == 10 * (a / 10) + a % 10 && b == 10 * (b / 10) + b % 10);
    }
}

/// Parse a canonical unsigned decimal number no greater than `max` starting
/// at `i`. The scan stops at the first non-digit character; a value that
/// would exceed `max` is a number error.
pub fn parse_u64(s: &str, i: usize, max: u64) -> (r: Result<(u64, usize), ParseError>)
    requires
        i <= s@.len(),
    ensures
        match r {
            Ok((v, j)) => {
                &&& i < j <= s@.len()
                &&& v <= max
                &&& s@.subrange(i as int, j as int) == u64_dec(v as int)
            },
            Err(_) => true,
        },
        forall|w: u64|
            #![trigger starts_with_at(s@, i as int, u64_dec(w as int))]
            w <= max && starts_with_at(s@, i as int, u64_dec(w as int)) && digit_stop(
                s@,
                i + u64_dec(w as int).len(),
            ) ==> r is Ok && (r->Ok_0).1 == i + u64_dec(w as int).len(),
{
    let n = s.unicode_len();
    proof {
        assert forall|w: u64| #[trigger]
            starts_with_at(s@, i as int, u64_dec(w as int)) implies i < s@.len() && s@[i as int]
            == u64_dec(w as int)[0] && is_digit_char(s@[i as int]) && (w >= 1 ==> s@[i as int]
            != '0') && digit_char_val(u64_dec(w as int)[0]) <= w by {
            u64_dec_shape(w as int);
            assert(s@.subrange(i as int, i + u64_dec(w as int).len())[0] == s@[i as int]);
            assert(u64_dec(digit_char_val(u64_dec(w as int)[0])) =~= u64_dec(w as int).take(1)) by {
                let c = u64_dec(w as int)[0];
                let d = digit_char_val(c);
                assert(is_digit_char(c));
                assert(0 <= d <= 9);
                dec_digit_code(d);
                assert((dec_digit(d) as u32) == (c as u32));
                char_code_eq(dec_digit(d), c);
                assert(u64_dec(d) == seq![dec_digit(d)]);
            }
            u64_dec_prefix_le(digit_char_val(u64_dec(w as int)[0]), w as int);
        }
        reveal_strlit("0");
    }
    if i == n {
        return Err(ParseError { pos: i, kind: ParseErrorKind::BadNumber });
    }
    let c0 = s.get_char(i);
    let code0 = c0 as u32;
    if !(48 <= code0 && code0 <= 57) {
        return Err(ParseError { pos: i, kind: ParseErrorKind::BadNumber });
    }
    let d0 = (code0 - 48) as u64;
    if d0 > max {
        return Err(ParseError { pos: i, kind: ParseErrorKind::BadNumber });
    }
    proof {
        dec_digit_code(d0 as int);
        assert(dec_digit(d0 as int) == c0);
        assert(s@.subrange(i as int, i + 1) =~= seq![dec_digit(d0 as int)]);
    }
    let mut v: u64 = d0;
    let mut j: usize = i + 1;
    if d0 == 0 {
        // a leading zero stands alone
        proof {
            assert forall|w: u64|
                w <= max && #[trigger] starts_with_at(s@, i as int, u64_dec(w as int))
                    && digit_stop(s@, i + u64_dec(w as int).len()) implies w == 0 && i + u64_dec(
                w as int,
            ).len() == j by {
                u64_dec_shape(w as int);
            }
        }
        return Ok((0, j));
    }
    loop
        invariant
            i < j <= n == s@.len(),
            1 <= v <= max,
            s@.subrange(i as int, j as int) == u64_dec(v as int),
            forall|w: u64|
                #![trigger starts_with_at(s@, i as int, u64_dec(w as int))]
                w <= max && starts_with_at(s@, i as int, u64_dec(w as int)) && digit_stop(
                    s@,
                    i + u64_dec(w as int).len(),
                ) ==> j <= i + u64_dec(w as int).len(),
        decreases n - j,
    {
        proof {
            // under any live hypothesis, the characters consumed so far are a
            // prefix of the hypothesis's canonical text, bounding the value
            assert forall|w: u64|
                w <= max && #[trigger] starts_with_at(s@, i as int, u64_dec(w as int))
                    && digit_stop(s@, i + u64_dec(w as int).len()) implies v <= w && (j < i
                + u64_dec(w as int).len() ==> j < s@.len() && is_digit_char(s@[j as int])) && (j
                == i + u64_dec(w as int).len() ==> digit_stop(s@, j as int)) by {
                u64_dec_shape(w as int);
                u64_dec_shape(v as int);
                let lw = u64_dec(w as int).len() as int;
                assert(u64_dec(v as int) =~= u64_dec(w as int).take(j - i)) by {
                    assert forall|t: int| 0 <= t < j - i implies u64_dec(v as int)[t] == u64_dec(
                        w as int,
                    )[t] by {
                        assert(u64_dec(v as int)[t] == s@.subrange(i as int, j as int)[t]);
                        assert(u64_dec(w as int)[t] == s@.subrange(i as int, i + lw)[t]);
                    }
                }
                u64_dec_prefix_le(v as int, w as int);
                if j < i + lw {
                    assert(s@[j as int] == s@.subrange(i as int, i + lw)[j - i]);
                }
            }
        }
        if j == n {
            return Ok((v, j));
        }
        let c = s.get_char(j);
        let code = c as u32;
        if !(48 <= code && code <= 57) {
            return Ok((v, j));
        }
        let d = (code - 48) as u64;
        proof {
            // the next digit extends the consumed prefix, so the grown value
            // still fits under any live hypothesis
            assert forall|w: u64|
                w <= max && #[trigger] starts_with_at(s@, i as int, u64_dec(w as int))
                    && digit_stop(s@, i + u64_dec(w as int).len()) implies v * 10 + d <= w by {
                u64_dec_step(v as int, d as int);
                dec_digit_code(d as int);
                assert(dec_digit(d as int) == c);
                u64_dec_shape(w as int);
                let lw = u64_dec(w as int).len() as int;
                assert(j < i + lw);
                assert(u64_dec(v * 10 + d) =~= u64_dec(w as int).take(j + 1 - i)) by {
                    assert forall|t: int| 0 <= t < j + 1 - i implies u64_dec(v * 10 + d)[t]
                        == u64_dec(w as int)[t] by {
                        if t < j - i {
                            assert(u64_dec(v as int)[t] == s@.subrange(i as int, j as int)[t]);
                            assert(u64_dec(w as int)[t] == s@.subrange(i as int, i + lw)[t]);
                        } else {
                            assert(u64_dec(w as int)[t] == s@.subrange(i as int, i + lw)[t]);
                        }
                    }
                }
                u64_dec_prefix_le((v * 10 + d) as int, w as int);
            }
        }
        if d > max || v > (max - d) / 10 {
            proof {
                assert forall|w: u64|
                    w <= max && #[trigger] starts_with_at(s@, i as int, u64_dec(w as int))
                        && digit_stop(s@, i + u64_dec(w as int).len()) implies false by {
                    assert(v * 10 + d <= w <= max);
                    assert(v <= (max - d) / 10) by (nonlinear_arith)
                        requires
                            v * 10 + d <= max,
                            0 <= d <= max,
                    ;
                }
            }
            return Err(ParseError { pos: j, kind: ParseErrorKind::BadNumber });
        }
        assert(v * 10 + d <= max) by (nonlinear_arith)
            requires
                v <= (max - d) / 10,
                0 <= d,
                d <= max,
        ;
        let v2 = v * 10 + d;
        proof {
            u64_dec_step(v as int, d as int);
            dec_digit_code(d as int);
            assert(dec_digit(d as int) == c);
            crate::wire::subrange_join(s@, i as int, j as int, j + 1);
            assert(s@.subrange(j as int, j + 1) =~= seq![dec_digit(d as int)]);
        }
        v = v2;
        j = j + 1;
    }
}

/// Parse a signed decimal number within `min ..= max`.
pub fn parse_i64(s: &str, i: usize, min: i64, max: i64) -> (r: Result<
    (i64, usize),
    ParseError,
>)
    requires
        i <= s@.len(),
        min > i64::MIN,
        min <= 0 <= max,
    ensures
        match r {
            Ok((v, j)) => {
                &&& i < j <= s@.len()
                &&& min <= v <= max
                &&& s@.subrange(i as int, j as int) == i64_dec(v as int)
            },
            Err(_) => true,
        },
        forall|w: i64|
            #![trigger starts_with_at(s@, i as int, i64_dec(w as int))]
            min <= w <= max && starts_with_at(s@, i as int, i64_dec(w as int)) && digit_stop(
                s@,
                i + i64_dec(w as int).len(),
            ) ==> r is Ok && (r->Ok_0).1 == i + i64_dec(w as int).len(),
{
    let n = s.unicode_len();
    proof {
        assert forall|w: i64|
            min <= w <= max && #[trigger] starts_with_at(s@, i as int, i64_dec(w as int))
                && digit_stop(s@, i + i64_dec(w as int).len()) implies i < s@.len() && s@[i as int]
            == i64_dec(w as int)[0] && (w < 0 ==> s@[i as int] == '-') && (w >= 0 ==> s@[i as int]
            != '-') by {
            u64_dec_shape(if w < 0 {
                -w as int
            } else {
                w as int
            });
            assert(s@.subrange(i as int, i + i64_dec(w as int).len())[0] == s@[i as int]);
            if w >= 0 {
                assert(i64_dec(w as int)[0] == u64_dec(w as int)[0]);
                assert(is_digit_char(s@[i as int]));
                assert(('-' as u32) == 45);
            }
        }
    }
    if i == n {
        return Err(ParseError { pos: i, kind: ParseErrorKind::BadNumber });
    }
    if s.get_char(i) == '-' {
        proof {
            assert forall|w: i64|
                min <= w <= max && #[trigger] starts_with_at(s@, i as int, i64_dec(w as int))
                    && digit_stop(s@, i + i64_dec(w as int).len()) implies w < 0 && starts_with_at(
                s@,
                i + 1,
                u64_dec(-w as int),
            ) && -w <= (-min) as u64 && digit_stop(s@, i + 1 + u64_dec(-w as int).len()) by {
                crate::wire::starts_split(s@, i as int, seq!['-'], u64_dec(-w as int));
            }
        }
        let mag = parse_u64(s, i + 1, (-min) as u64)?;
        let (m, j) = mag;
        if m == 0 {
            proof {
                assert forall|w: i64|
                    min <= w <= max && #[trigger] starts_with_at(s@, i as int, i64_dec(w as int))
                        && digit_stop(s@, i + i64_dec(w as int).len()) implies false by {
                    assert(s@.subrange(i + 1, j as int) == u64_dec(m as int));
                    assert(s@.subrange(i + 1, i + 1 + u64_dec(-w as int).len()) == u64_dec(
                        -w as int,
                    ));
                    assert(u64_dec(m as int) == u64_dec(-w as int));
                    u64_dec_injective(m as int, -w as int);
                }
            }
            return Err(ParseError { pos: i, kind: ParseErrorKind::BadNumber });
        }
        let v = -(m as i64);
        proof {
            assert(seq!['-'] =~= "-"@) by {
                reveal_strlit("-");
            }
            crate::wire::subrange_join(s@, i as int, i + 1, j as int);
            assert(s@.subrange(i as int, i + 1) =~= seq!['-']);
            assert(s@.subrange(i as int, j as int) == i64_dec(v as int));
            assert forall|w: i64|
                min <= w <= max && #[trigger] starts_with_at(s@, i as int, i64_dec(w as int))
                    && digit_stop(s@, i + i64_dec(w as int).len()) implies j == i + i64_dec(
                w as int,
            ).len() by {
                assert(i64_dec(w as int).len() == 1 + u64_dec(-w as int).len());
            }
        }
        Ok((v, j))
    } else {
        proof {
            assert forall|w: i64|
                min <= w <= max && #[trigger] starts_with_at(s@, i as int, i64_dec(w as int))
                    && digit_stop(s@, i + i64_dec(w as int).len()) implies w >= 0
                && starts_with_at(s@, i as int, u64_dec(w as int)) && w as u64 <= max as u64
                && digit_stop(s@, i + u64_dec(w as int).len()) by {
                assert(i64_dec(w as int) == u64_dec(w as int));
            }
        }
        let mag = parse_u64(s, i, max as u64)?;
        let (m, j) = mag;
        Ok((m as i64, j))
    }
}

} // verus!
