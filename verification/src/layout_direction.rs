//! The reading direction of the project.

use vstd::prelude::*;

use crate::wire::{starts_with_at, expect, ParseError, ParseErrorKind};

verus! {

#[derive(Clone, Copy, Debug, PartialEq, Eq, Structural)]
pub enum LayoutDirection {
    LTR,
    RTL,
}

pub open spec fn ser_layout_direction(v: LayoutDirection) -> Seq<char> {
    match v {
        LayoutDirection::LTR => "LTR"@,
        LayoutDirection::RTL => "RTL"@,
    }
}

pub fn write_layout_direction(out: &mut String, v: LayoutDirection)
    ensures
        final(out)@ == old(out)@ + ser_layout_direction(v),
{
    match v {
        LayoutDirection::LTR => out.append("LTR"),
        LayoutDirection::RTL => out.append("RTL"),
    }
}

pub fn parse_layout_direction(s: &str, i: usize) -> (r: Result<
    (LayoutDirection, usize),
    ParseError,
>)
    requires
        i <= s@.len(),
    ensures
        match r {
            Ok((v, j)) => {
                &&& i < j <= s@.len()
                &&& s@.subrange(i as int, j as int) == ser_layout_direction(v)
            },
            Err(_) => true,
        },
        forall|w: LayoutDirection|
            #![trigger starts_with_at(s@, i as int, ser_layout_direction(w))]
            starts_with_at(s@, i as int, ser_layout_direction(w)) ==> r is Ok && (r->Ok_0).1 == i + ser_layout_direction(
                w,
            ).len(),
{
    proof {
        reveal_strlit("LTR");
        reveal_strlit("RTL");
        assert forall|w: LayoutDirection| #[trigger] starts_with_at(s@, i as int, ser_layout_direction(w)) implies i < s@.len() && s@[i as int] == ser_layout_direction(w)[0] by {
            match w {
            LayoutDirection::LTR => {
                assert(s@.subrange(i as int, i + 3)[0] == s@[i as int]);
            },
            LayoutDirection::RTL => {
                assert(s@.subrange(i as int, i + 3)[0] == s@[i as int]);
            },
            }
        }
    }
    let n = s.unicode_len();
    if i == n {
        return Err(ParseError { pos: i, kind: ParseErrorKind::Unexpected });
    }
    proof {
        reveal_strlit("LTR");
        reveal_strlit("RTL");
    }
    let c = s.get_char(i);
    if c == 'L' {
        let j = expect(s, i, "LTR")?;
        Ok((LayoutDirection::LTR, j))
    } else if c == 'R' {
        let j = expect(s, i, "RTL")?;
        Ok((LayoutDirection::RTL, j))
    } else {
        Err(ParseError { pos: i, kind: ParseErrorKind::Unexpected })
    }
}

} // verus!
