//! Low-level text primitives shared by every element codec: literal matching,
//! attribute-value scanning, and the character classes of the dialect.

use vstd::prelude::*;

verus! {

/// Where and why a parse failed. `pos` is the character offset in the input
/// at which the problem was found.
#[derive(Clone, Copy, Debug, PartialEq, Eq, Structural)]
pub struct ParseError {
    pub pos: usize,
    pub kind: ParseErrorKind,
}

#[derive(Clone, Copy, Debug, PartialEq, Eq, Structural)]
pub enum ParseErrorKind {
    /// The input does not continue with the expected markup or literal.
    Unexpected,
    /// A numeric field is malformed or out of the field's machine range.
    BadNumber,
    /// A page-split `pages` element whose declared type disagrees with the
    /// number of cutters present.
    UnknownPagesStructure,
    /// A distortion-model curve pair with an unrecognised combination of
    /// spline and polyline children.
    UnknownCurveVariant,
    /// A base64 payload that is not canonical.
    BadBase64,
}

pub open spec fn err_at(r: ParseError, p: int) -> bool {
    r.pos == p
}

/// Characters allowed inside an attribute value or element text: everything
/// except the markup characters and the escapes the writer never emits.
pub open spec fn is_value_char(c: char) -> bool {
    (c as u32) >= 0x20 && c != '"' && c != '&' && c != '<' && c != '>'
}

pub fn value_char(c: char) -> (r: bool)
    ensures
        r == is_value_char(c),
{
    (c as u32) >= 0x20 && c != '"' && c != '&' && c != '<' && c != '>'
}

pub open spec fn all_value_chars(s: Seq<char>) -> bool {
    forall|k: int| 0 <= k < s.len() ==> is_value_char(#[trigger] s[k])
}

/// Booleans travel as the digit `0` or `1`.
pub open spec fn ser_bool(b: bool) -> Seq<char> {
    if b {
        "1"@
    } else {
        "0"@
    }
}

pub fn write_bool(out: &mut String, b: bool)
    ensures
        final(out)@ == old(out)@ + ser_bool(b),
{
    if b {
        out.append("1");
    } else {
        out.append("0");
    }
}

pub fn parse_bool(s: &str, i: usize) -> (r: Result<(bool, usize), ParseError>)
    requires
        i <= s@.len(),
    ensures
        match r {
            Ok((b, j)) => {
                &&& i < j <= s@.len()
                &&& s@.subrange(i as int, j as int) == ser_bool(b)
            },
            Err(e) => err_at(e, i as int),
        },
        forall|b: bool|
            starts_with_at(s@, i as int, ser_bool(b)) ==> r is Ok && (#[trigger] ser_bool(b)).len()
                + i == (r->Ok_0).1,
{
    let n = s.unicode_len();
    proof {
        reveal_strlit("0");
        reveal_strlit("1");
    }
    if i == n {
        return Err(ParseError { pos: i, kind: ParseErrorKind::Unexpected });
    }
    let c = s.get_char(i);
    proof {
        assert(s@.subrange(i as int, i + 1) =~= seq![s@[i as int]]);
        assert forall|b: bool| starts_with_at(s@, i as int, ser_bool(b)) implies s@[i as int]
            == ser_bool(b)[0] by {
            assert(s@.subrange(i as int, i + 1)[0] == s@[i as int]);
        }
    }
    if c == '0' {
        Ok((false, i + 1))
    } else if c == '1' {
        Ok((true, i + 1))
    } else {
        Err(ParseError { pos: i, kind: ParseErrorKind::Unexpected })
    }
}

/// Joining two adjacent subranges gives the enclosing subrange.
pub proof fn subrange_join(s: Seq<char>, a: int, b: int, c: int)
    requires
        0 <= a <= b <= c <= s.len(),
    ensures
        s.subrange(a, c) == s.subrange(a, b) + s.subrange(b, c),
{
    assert(s.subrange(a, c) =~= s.subrange(a, b) + s.subrange(b, c));
}

/// The input continues with the literal `lit` at position `i`.
pub open spec fn starts_with_at(s: Seq<char>, i: int, lit: Seq<char>) -> bool {
    i + lit.len() <= s.len() && s.subrange(i, i + lit.len()) == lit
}

/// A match of a concatenation splits into matches of the parts.
pub proof fn starts_split(s: Seq<char>, i: int, a: Seq<char>, b: Seq<char>)
    requires
        0 <= i,
        starts_with_at(s, i, a + b),
    ensures
        starts_with_at(s, i, a),
        starts_with_at(s, i + a.len(), b),
{
    let w = a + b;
    assert(s.subrange(i, i + a.len()) =~= a) by {
        assert(forall|t: int|
            0 <= t < a.len() ==> s.subrange(i, i + w.len())[t] == #[trigger] w[t]);
    }
    assert(s.subrange(i + a.len(), i + a.len() + b.len()) =~= b) by {
        assert forall|t: int|
            0 <= t < b.len() implies s.subrange(i + a.len(), i + a.len() + b.len())[t]
            == b[t] by {
            assert(w[a.len() + t] == b[t]);
            assert(s.subrange(i, i + w.len())[a.len() + t] == w[a.len() + t]);
        }
    }
}

/// Match the exact literal `lit` at position `i`; on success the new position
/// is just past it. Fails if and only if the input does not continue with the
/// literal there.
pub fn expect(s: &str, i: usize, lit: &str) -> (r: Result<usize, ParseError>)
    requires
        i <= s@.len(),
    ensures
        match r {
            Ok(j) => {
                &&& j == i + lit@.len()
                &&& j <= s@.len()
                &&& s@.subrange(i as int, j as int) == lit@
            },
            Err(e) => !starts_with_at(s@, i as int, lit@) && err_at(e, i as int),
        },
{
    let n = s.unicode_len();
    let m = lit.unicode_len();
    if m > n - i {
        assert(!starts_with_at(s@, i as int, lit@));
        return Err(ParseError { pos: i, kind: ParseErrorKind::Unexpected });
    }
    let mut k: usize = 0;
    while k < m
        invariant
            0 <= k <= m,
            i + m <= n == s@.len(),
            m == lit@.len(),
            forall|t: int| 0 <= t < k ==> s@[i + t] == lit@[t],
        decreases m - k,
    {
        if s.get_char(i + k) != lit.get_char(k) {
            assert(s@.subrange(i as int, i + lit@.len()) != lit@) by {
                assert(s@.subrange(i as int, i + lit@.len())[k as int] != lit@[k as int]);
            }
            return Err(ParseError { pos: i, kind: ParseErrorKind::Unexpected });
        }
        k = k + 1;
    }
    assert(s@.subrange(i as int, (i + m) as int) =~= lit@);
    Ok(i + m)
}

/// Scan an attribute value: characters up to the closing quote. Returns the
/// scanned text and the position of the quote itself.
pub fn scan_value(s: &str, i: usize) -> (r: Result<(String, usize), ParseError>)
    requires
        i <= s@.len(),
    ensures
        match r {
            Ok((v, j)) => {
                &&& i <= j <= s@.len()
                &&& v@ == s@.subrange(i as int, j as int)
                &&& all_value_chars(v@)
                &&& j < s@.len() && s@[j as int] == '"'
            },
            Err(_) => true,
        },
        forall|vs: Seq<char>|
            #![trigger starts_with_at(s@, i as int, vs)]
            all_value_chars(vs) && i + vs.len() < s@.len() && starts_with_at(s@, i as int, vs)
                && s@[i + vs.len()] == '"' ==> r is Ok && (r->Ok_0).1 == i + vs.len(),
{
    let n = s.unicode_len();
    let mut j: usize = i;
    let mut out = String::new();
    loop
        invariant
            i <= j <= n == s@.len(),
            out@ == s@.subrange(i as int, j as int),
            all_value_chars(out@),
            forall|vs: Seq<char>|
                #![trigger starts_with_at(s@, i as int, vs)]
                all_value_chars(vs) && i + vs.len() < s@.len() && starts_with_at(s@, i as int, vs)
                    && s@[i + vs.len()] == '"' ==> j <= i + vs.len(),
        decreases n - j,
    {
        proof {
            assert forall|vs: Seq<char>|
                all_value_chars(vs) && i + vs.len() < s@.len() && #[trigger] starts_with_at(
                    s@,
                    i as int,
                    vs,
                ) && s@[i + vs.len()] == '"' implies j < i + vs.len() || (j == i + vs.len()
                && s@[j as int] == '"') || (j < s@.len() && is_value_char(s@[j as int])) by {
                if j < i + vs.len() {
                    assert(s@[j as int] == vs[j - i]);
                }
            }
        }
        if j == n {
            return Err(ParseError { pos: j, kind: ParseErrorKind::Unexpected });
        }
        let c = s.get_char(j);
        if c == '"' {
            proof {
                assert forall|vs: Seq<char>|
                    all_value_chars(vs) && i + vs.len() < s@.len() && #[trigger] starts_with_at(
                        s@,
                        i as int,
                        vs,
                    ) && s@[i + vs.len()] == '"' implies j == i + vs.len() by {
                    if j < i + vs.len() {
                        assert(s@[j as int] == vs[j - i]);
                    }
                }
            }
            return Ok((out, j));
        }
        if !value_char(c) {
            proof {
                assert forall|vs: Seq<char>|
                    all_value_chars(vs) && i + vs.len() < s@.len() && #[trigger] starts_with_at(
                        s@,
                        i as int,
                        vs,
                    ) && s@[i + vs.len()] == '"' implies false by {
                    if j < i + vs.len() {
                        assert(s@[j as int] == vs[j - i]);
                    }
                }
            }
            return Err(ParseError { pos: j, kind: ParseErrorKind::Unexpected });
        }
        let piece = s.substring_char(j, j + 1);
        out.append(piece);
        j = j + 1;
        assert(out@ =~= s@.subrange(i as int, j as int));
    }
}

} // verus!
