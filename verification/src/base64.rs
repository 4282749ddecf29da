//! Standard base64 with padding, as used for binary polyline payloads.
//! The decoder accepts exactly the canonical encoding, so whatever it
//! accepts re-encodes to the same text.

use vstd::prelude::*;

use vstd::arithmetic::div_mod::{lemma_fundamental_div_mod, lemma_fundamental_div_mod_converse};

use crate::wire::{subrange_join, ParseError, ParseErrorKind};

verus! {

/// The base64 alphabet character for a 6-bit value.
pub open spec fn b64_char(v: int) -> char {
    if v < 26 {
        ((65 + v) as u8) as char
    } else if v < 52 {
        ((97 + (v - 26)) as u8) as char
    } else if v < 62 {
        ((48 + (v - 52)) as u8) as char
    } else if v == 62 {
        '+'
    } else {
        '/'
    }
}

/// The canonical base64 text of a byte string.
pub open spec fn b64_of(bs: Seq<u8>) -> Seq<char>
    decreases bs.len(),
{
    if bs.len() == 0 {
        Seq::<char>::empty()
    } else if bs.len() == 1 {
        let b0 = bs[0] as int;
        seq![b64_char(b0 / 4), b64_char((b0 % 4) * 16), '=', '=']
    } else if bs.len() == 2 {
        let b0 = bs[0] as int;
        let b1 = bs[1] as int;
        seq![b64_char(b0 / 4), b64_char((b0 % 4) * 16 + b1 / 16), b64_char((b1 % 16) * 4), '=']
    } else {
        let b0 = bs[0] as int;
        let b1 = bs[1] as int;
        let b2 = bs[2] as int;
        seq![
            b64_char(b0 / 4),
            b64_char((b0 % 4) * 16 + b1 / 16),
            b64_char((b1 % 16) * 4 + b2 / 64),
            b64_char(b2 % 64),
        ] + b64_of(bs.skip(3))
    }
}

/// Append the single alphabet character for a 6-bit value.
fn push_b64(out: &mut String, v: u8)
    requires
        v < 64,
    ensures
        final(out)@ == old(out)@ + seq![b64_char(v as int)],
{
    let table = "ABCDEFGHIJKLMNOPQRSTUVWXYZabcdefghijklmnopqrstuvwxyz0123456789+/";
    proof {
        reveal_strlit("ABCDEFGHIJKLMNOPQRSTUVWXYZabcdefghijklmnopqrstuvwxyz0123456789+/");
    }
    let piece = table.substring_char(v as usize, v as usize + 1);
    assert(piece@ =~= seq![b64_char(v as int)]);
    out.append(piece);
}

proof fn b64_of_append3(bs: Seq<u8>, b0: u8, b1: u8, b2: u8)
    requires
        bs.len() % 3 == 0,
    ensures
        b64_of(bs + seq![b0, b1, b2]) == b64_of(bs) + b64_of(seq![b0, b1, b2]),
    decreases bs.len(),
{
    if bs.len() == 0 {
        assert(bs + seq![b0, b1, b2] =~= seq![b0, b1, b2]);
        assert(b64_of(bs) + b64_of(seq![b0, b1, b2]) =~= b64_of(seq![b0, b1, b2]));
    } else {
        let w = bs + seq![b0, b1, b2];
        assert(w.len() >= 3);
        assert(w.skip(3) =~= bs.skip(3) + seq![b0, b1, b2]);
        b64_of_append3(bs.skip(3), b0, b1, b2);
        assert(b64_of(w) =~= b64_of(bs) + b64_of(seq![b0, b1, b2]));
    }
}

proof fn b64_of_append_tail(bs: Seq<u8>, tail: Seq<u8>)
    requires
        bs.len() % 3 == 0,
        tail.len() < 3,
    ensures
        b64_of(bs + tail) == b64_of(bs) + b64_of(tail),
    decreases bs.len(),
{
    if bs.len() == 0 {
        assert(bs + tail =~= tail);
        assert(b64_of(bs) + b64_of(tail) =~= b64_of(tail));
    } else {
        let w = bs + tail;
        assert(w.len() >= 3);
        assert(w.skip(3) =~= bs.skip(3) + tail);
        b64_of_append_tail(bs.skip(3), tail);
        assert(b64_of(w) =~= b64_of(bs) + b64_of(tail));
    }
}

/// Append the canonical base64 text of `bs`.
pub fn write_b64(out: &mut String, bs: &Vec<u8>)
    ensures
        final(out)@ == old(out)@ + b64_of(bs@),
{
    let n = bs.len();
    let mut k: usize = 0;
    proof {
        assert(bs@.take(0) =~= Seq::<u8>::empty());
        assert(out@ =~= old(out)@ + b64_of(bs@.take(0)));
    }
    while n - k >= 3
        invariant
            0 <= k <= n == bs@.len(),
            k % 3 == 0,
            out@ == old(out)@ + b64_of(bs@.take(k as int)),
        decreases n - k,
    {
        let b0 = bs[k];
        let b1 = bs[k + 1];
        let b2 = bs[k + 2];
        push_b64(out, b0 / 4);
        push_b64(out, (b0 % 4) * 16 + b1 / 16);
        push_b64(out, (b1 % 16) * 4 + b2 / 64);
        push_b64(out, b2 % 64);
        proof {
            b64_of_append3(bs@.take(k as int), b0, b1, b2);
            assert(bs@.take(k as int) + seq![b0, b1, b2] =~= bs@.take(k + 3));
            assert(seq![b0, b1, b2].skip(3) =~= Seq::<u8>::empty());
            assert(b64_of(Seq::<u8>::empty()) =~= Seq::<char>::empty());
            assert(b64_of(seq![b0, b1, b2]) =~= seq![
                b64_char(b0 as int / 4),
                b64_char((b0 as int % 4) * 16 + b1 as int / 16),
                b64_char((b1 as int % 16) * 4 + b2 as int / 64),
                b64_char(b2 as int % 64),
            ]);
        }
        k = k + 3;
    }
    if n - k == 1 {
        let b0 = bs[k];
        push_b64(out, b0 / 4);
        push_b64(out, (b0 % 4) * 16);
        out.append("==");
        proof {
            reveal_strlit("==");
            b64_of_append_tail(bs@.take(k as int), seq![b0]);
            assert(bs@.take(k as int) + seq![b0] =~= bs@);
            assert(out@ =~= old(out)@ + b64_of(bs@));
        }
    } else if n - k == 2 {
        let b0 = bs[k];
        let b1 = bs[k + 1];
        push_b64(out, b0 / 4);
        push_b64(out, (b0 % 4) * 16 + b1 / 16);
        push_b64(out, (b1 % 16) * 4);
        out.append("=");
        proof {
            reveal_strlit("=");
            b64_of_append_tail(bs@.take(k as int), seq![b0, b1]);
            assert(bs@.take(k as int) + seq![b0, b1] =~= bs@);
            assert(out@ =~= old(out)@ + b64_of(bs@));
        }
    } else {
        proof {
            assert(bs@.take(k as int) =~= bs@);
        }
    }
}

/// The 6-bit value of an alphabet character, or 255 for anything else.
fn b64_val(c: char) -> (v: u8)
    ensures
        v < 64 ==> b64_char(v as int) == c,
        v >= 64 ==> forall|w: int| 0 <= w < 64 ==> b64_char(w) != c,
{
    let code = c as u32;
    if 65 <= code && code <= 90 {
        let v = (code - 65) as u8;
        assert(b64_char(v as int) == c);
        v
    } else if 97 <= code && code <= 122 {
        let v = (code - 97 + 26) as u8;
        assert(b64_char(v as int) == c);
        v
    } else if 48 <= code && code <= 57 {
        let v = (code - 48 + 52) as u8;
        assert(b64_char(v as int) == c);
        v
    } else if code == 43 {
        assert(b64_char(62) == c);
        62
    } else if code == 47 {
        assert(b64_char(63) == c);
        63
    } else {
        assert(forall|w: int| 0 <= w < 64 ==> b64_char(w) != c);
        255
    }
}

/// Recompose three bytes from four 6-bit values, with the identities the
/// decoder's correctness needs.
proof fn lemma_recompose(v0: int, v1: int, v2: int, v3: int)
    requires
        0 <= v0 < 64,
        0 <= v1 < 64,
        0 <= v2 < 64,
        0 <= v3 < 64,
    ensures
        (v0 * 4 + v1 / 16) / 4 == v0,
        (v0 * 4 + v1 / 16) % 4 == v1 / 16,
        ((v1 % 16) * 16 + v2 / 4) / 16 == v1 % 16,
        ((v1 % 16) * 16 + v2 / 4) % 16 == v2 / 4,
        ((v2 % 4) * 64 + v3) / 64 == v2 % 4,
        ((v2 % 4) * 64 + v3) % 64 == v3,
        (v1 / 16) * 16 + v1 % 16 == v1,
        (v2 / 4) * 4 + v2 % 4 == v2,
        0 <= v0 * 4 + v1 / 16 < 256,
        0 <= (v1 % 16) * 16 + v2 / 4 < 256,
        0 <= (v2 % 4) * 64 + v3 < 256,
{
    lemma_fundamental_div_mod(v1, 16);
    lemma_fundamental_div_mod(v2, 4);
    lemma_fundamental_div_mod_converse(v0 * 4 + v1 / 16, 4, v0, v1 / 16);
    lemma_fundamental_div_mod_converse((v1 % 16) * 16 + v2 / 4, 16, v1 % 16, v2 / 4);
    lemma_fundamental_div_mod_converse((v2 % 4) * 64 + v3, 64, v2 % 4, v3);
}

/// Decode canonical base64 starting at `i`: whole quads, with an optionally
/// padded final quad. Scanning stops before the first character that cannot
/// begin another quad. Whatever is accepted re-encodes to exactly the
/// consumed text.
pub fn parse_b64(s: &str, i: usize) -> (r: Result<(Vec<u8>, usize), ParseError>)
    requires
        i <= s@.len(),
    ensures
        match r {
            Ok((bs, j)) => {
                &&& i <= j <= s@.len()
                &&& s@.subrange(i as int, j as int) == b64_of(bs@)
            },
            Err(_) => true,
        },
{
    let n = s.unicode_len();
    let mut bs: Vec<u8> = Vec::new();
    let mut j: usize = i;
    proof {
        assert(s@.subrange(i as int, i as int) =~= b64_of(bs@));
    }
    loop
        invariant
            i <= j <= n == s@.len(),
            bs@.len() % 3 == 0,
            s@.subrange(i as int, j as int) == b64_of(bs@),
        decreases n - j,
    {
        if n - j < 4 {
            return Ok((bs, j));
        }
        let c0 = s.get_char(j);
        let c1 = s.get_char(j + 1);
        let c2 = s.get_char(j + 2);
        let c3 = s.get_char(j + 3);
        let v0 = b64_val(c0);
        let v1 = b64_val(c1);
        if v0 >= 64 || v1 >= 64 {
            return Ok((bs, j));
        }
        let v2 = b64_val(c2);
        let v3 = b64_val(c3);
        proof {
            lemma_recompose(v0 as int, v1 as int, if v2 < 64 {
                v2 as int
            } else {
                0
            }, if v3 < 64 {
                v3 as int
            } else {
                0
            });
        }
        if c2 == '=' {
            // one final byte; the low bits of the second character must be
            // zero for the encoding to be canonical
            if c3 != '=' || v1 % 16 != 0 {
                return Err(ParseError { pos: j, kind: ParseErrorKind::BadBase64 });
            }
            let b0 = v0 * 4 + v1 / 16;
            let ghost prev = bs@;
            bs.push(b0);
            proof {
                b64_of_append_tail(prev, seq![b0]);
                assert(prev + seq![b0] =~= bs@);
                assert(b64_of(seq![b0]) =~= seq![
                    b64_char(b0 as int / 4),
                    b64_char((b0 as int % 4) * 16),
                    '=',
                    '=',
                ]);
                assert((b0 as int % 4) * 16 == v1 as int);
                subrange_join(s@, i as int, j as int, j + 4);
                assert(s@.subrange(j as int, j + 4) =~= seq![c0, c1, c2, c3]);
                assert(s@.subrange(i as int, j + 4) == b64_of(bs@));
            }
            return Ok((bs, j + 4));
        }
        if v2 >= 64 {
            return Err(ParseError { pos: j, kind: ParseErrorKind::BadBase64 });
        }
        if c3 == '=' {
            // two final bytes; the low bits of the third character must be
            // zero
            if v2 % 4 != 0 {
                return Err(ParseError { pos: j, kind: ParseErrorKind::BadBase64 });
            }
            let b0 = v0 * 4 + v1 / 16;
            let b1 = (v1 % 16) * 16 + v2 / 4;
            let ghost prev = bs@;
            bs.push(b0);
            bs.push(b1);
            proof {
                b64_of_append_tail(prev, seq![b0, b1]);
                assert(prev + seq![b0, b1] =~= bs@);
                assert(b64_of(seq![b0, b1]) =~= seq![
                    b64_char(b0 as int / 4),
                    b64_char((b0 as int % 4) * 16 + b1 as int / 16),
                    b64_char((b1 as int % 16) * 4),
                    '=',
                ]);
                assert((b1 as int % 16) * 4 == v2 as int);
                subrange_join(s@, i as int, j as int, j + 4);
                assert(s@.subrange(j as int, j + 4) =~= seq![c0, c1, c2, c3]);
                assert(s@.subrange(i as int, j + 4) == b64_of(bs@));
            }
            return Ok((bs, j + 4));
        }
        if v3 >= 64 {
            return Err(ParseError { pos: j, kind: ParseErrorKind::BadBase64 });
        }
        let b0 = v0 * 4 + v1 / 16;
        let b1 = (v1 % 16) * 16 + v2 / 4;
        let b2 = (v2 % 4) * 64 + v3;
        let ghost prev = bs@;
        bs.push(b0);
        bs.push(b1);
        bs.push(b2);
        proof {
            b64_of_append3(prev, b0, b1, b2);
            assert(prev + seq![b0, b1, b2] =~= bs@);
            assert(seq![b0, b1, b2].skip(3) =~= Seq::<u8>::empty());
            assert(b64_of(Seq::<u8>::empty()) =~= Seq::<char>::empty());
            assert(b64_of(seq![b0, b1, b2]) =~= seq![
                b64_char(b0 as int / 4),
                b64_char((b0 as int % 4) * 16 + b1 as int / 16),
                b64_char((b1 as int % 16) * 4 + b2 as int / 64),
                b64_char(b2 as int % 64),
            ]);
            subrange_join(s@, i as int, j as int, j + 4);
            assert(s@.subrange(j as int, j + 4) =~= seq![c0, c1, c2, c3]);
            assert(s@.subrange(i as int, j + 4) == b64_of(bs@));
        }
        j = j + 4;
    }
}

} // verus!
