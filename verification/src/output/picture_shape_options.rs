//! Picture-shape detection options for mixed-mode output.

use vstd::prelude::*;

use crate::numbers::{digit_stop, parse_u64, u64_dec, write_u64};
use crate::wire::{ParseError, ParseErrorKind, expect, parse_bool, ser_bool, starts_split, starts_with_at, subrange_join, write_bool};


verus! {

#[derive(Clone, Copy, Debug, PartialEq, Eq, Structural)]
pub enum PictureShape {
    Off,
    Free,
    Rectangular,
}

#[derive(Clone, Copy, Debug, PartialEq, Eq, Structural)]
pub struct PictureShapeOptions {
    pub higher_search_sensitivity: bool,
    pub picture_shape: PictureShape,
    pub sensitivity: u8,
}

pub open spec fn ser_picture_shape(v: PictureShape) -> Seq<char> {
    match v {
        PictureShape::Off => "off"@,
        PictureShape::Free => "free"@,
        PictureShape::Rectangular => "rectangular"@,
    }
}

pub fn write_picture_shape(out: &mut String, v: PictureShape)
    ensures
        final(out)@ == old(out)@ + ser_picture_shape(v),
{
    match v {
        PictureShape::Off => out.append("off"),
        PictureShape::Free => out.append("free"),
        PictureShape::Rectangular => out.append("rectangular"),
    }
}

pub fn parse_picture_shape(s: &str, i: usize) -> (r: Result<(PictureShape, usize), ParseError>)
    requires
        i <= s@.len(),
    ensures
        match r {
            Ok((v, j)) => {
                &&& i < j <= s@.len()
                &&& s@.subrange(i as int, j as int) == ser_picture_shape(v)
            },
            Err(_) => true,
        },
        forall|w: PictureShape|
            #![trigger starts_with_at(s@, i as int, ser_picture_shape(w))]
            starts_with_at(s@, i as int, ser_picture_shape(w)) ==> r is Ok && (r->Ok_0).1 == i + ser_picture_shape(
                w,
            ).len(),
{
    proof {
        reveal_strlit("off");
        reveal_strlit("free");
        reveal_strlit("rectangular");
        assert forall|w: PictureShape| #[trigger] starts_with_at(s@, i as int, ser_picture_shape(w)) implies i < s@.len() && s@[i as int] == ser_picture_shape(w)[0] by {
            match w {
            PictureShape::Off => {
                assert(s@.subrange(i as int, i + 3)[0] == s@[i as int]);
            },
            PictureShape::Free => {
                assert(s@.subrange(i as int, i + 4)[0] == s@[i as int]);
            },
            PictureShape::Rectangular => {
                assert(s@.subrange(i as int, i + 11)[0] == s@[i as int]);
            },
            }
        }
    }
    let n = s.unicode_len();
    proof {
        reveal_strlit("off");
        reveal_strlit("free");
        reveal_strlit("rectangular");
    }
    if i == n {
        return Err(ParseError { pos: i, kind: ParseErrorKind::Unexpected });
    }
    let c = s.get_char(i);
    if c == 'o' {
        let j = expect(s, i, "off")?;
        Ok((PictureShape::Off, j))
    } else if c == 'f' {
        let j = expect(s, i, "free")?;
        Ok((PictureShape::Free, j))
    } else {
        let j = expect(s, i, "rectangular")?;
        Ok((PictureShape::Rectangular, j))
    }
}

pub open spec fn ser_picture_shape_options(v: PictureShapeOptions) -> Seq<char> {
    "<picture-shape-options higherSearchSensitivity=\""@ + ser_bool(v.higher_search_sensitivity)
        + "\" pictureShape=\""@ + ser_picture_shape(v.picture_shape) + "\" sensitivity=\""@
        + u64_dec(v.sensitivity as int) + "\"/>"@
}

pub fn write_picture_shape_options(out: &mut String, v: &PictureShapeOptions)
    ensures
        final(out)@ == old(out)@ + ser_picture_shape_options(*v),
{
    out.append("<picture-shape-options higherSearchSensitivity=\"");
    write_bool(out, v.higher_search_sensitivity);
    out.append("\" pictureShape=\"");
    write_picture_shape(out, v.picture_shape);
    out.append("\" sensitivity=\"");
    write_u64(out, v.sensitivity as u64);
    out.append("\"/>");
    proof {
        assert(out@ =~= old(out)@ + ser_picture_shape_options(*v));
    }
}

#[verifier::rlimit(100)]
#[verifier::spinoff_prover]
pub fn parse_picture_shape_options(s: &str, i: usize) -> (r: Result<
    (PictureShapeOptions, usize),
    ParseError,
>)
    requires
        i <= s@.len(),
    ensures
        match r {
            Ok((v, j)) => {
                &&& i < j <= s@.len()
                &&& s@.subrange(i as int, j as int) == ser_picture_shape_options(v)
            },
            Err(_) => true,
        },
        forall|w: PictureShapeOptions|
            #![trigger starts_with_at(s@, i as int, ser_picture_shape_options(w))]
            true && starts_with_at(s@, i as int, ser_picture_shape_options(w)) ==> r is Ok && (
            r->Ok_0).1 == i + ser_picture_shape_options(w).len(),
{
    proof {
        reveal_strlit("<picture-shape-options higherSearchSensitivity=\"");
        reveal_strlit("\" pictureShape=\"");
        reveal_strlit("\" sensitivity=\"");
        reveal_strlit("\"/>");
        assert forall|w: PictureShapeOptions|
            true && #[trigger] starts_with_at(s@, i as int, ser_picture_shape_options(w)) implies {
            let a0 = "<picture-shape-options higherSearchSensitivity=\""@;
            let a1 = a0 + ser_bool(w.higher_search_sensitivity);
            let a2 = a1 + "\" pictureShape=\""@;
            let a3 = a2 + ser_picture_shape(w.picture_shape);
            let a4 = a3 + "\" sensitivity=\""@;
            let a5 = a4 + u64_dec(w.sensitivity as int);
            let a6 = a5 + "\"/>"@;
            &&& starts_with_at(s@, i as int, "<picture-shape-options higherSearchSensitivity=\""@)
            &&& starts_with_at(s@, i + a0.len(), ser_bool(w.higher_search_sensitivity))
            &&& starts_with_at(s@, i + a1.len(), "\" pictureShape=\""@)
            &&& starts_with_at(s@, i + a2.len(), ser_picture_shape(w.picture_shape))
            &&& starts_with_at(s@, i + a3.len(), "\" sensitivity=\""@)
            &&& starts_with_at(s@, i + a4.len(), u64_dec(w.sensitivity as int))
            &&& digit_stop(s@, i + a5.len())
            &&& starts_with_at(s@, i + a5.len(), "\"/>"@)
        } by {
            let a0 = "<picture-shape-options higherSearchSensitivity=\""@;
            let a1 = a0 + ser_bool(w.higher_search_sensitivity);
            let a2 = a1 + "\" pictureShape=\""@;
            let a3 = a2 + ser_picture_shape(w.picture_shape);
            let a4 = a3 + "\" sensitivity=\""@;
            let a5 = a4 + u64_dec(w.sensitivity as int);
            let a6 = a5 + "\"/>"@;
            starts_split(s@, i as int, a5, "\"/>"@);
            starts_split(s@, i as int, a4, u64_dec(w.sensitivity as int));
            starts_split(s@, i as int, a3, "\" sensitivity=\""@);
            starts_split(s@, i as int, a2, ser_picture_shape(w.picture_shape));
            starts_split(s@, i as int, a1, "\" pictureShape=\""@);
            starts_split(s@, i as int, a0, ser_bool(w.higher_search_sensitivity));
            assert(s@.subrange(i + a5.len(), i + a5.len() + 3)[0] == s@[i + a5.len()]);
        }
    }
    let j1 = expect(s, i, "<picture-shape-options higherSearchSensitivity=\"")?;
    let (hs, j2) = parse_bool(s, j1)?;
    let j3 = expect(s, j2, "\" pictureShape=\"")?;
    let (ps, j4) = parse_picture_shape(s, j3)?;
    let j5 = expect(s, j4, "\" sensitivity=\"")?;
    let (sv, j6) = parse_u64(s, j5, 255)?;
    let j7 = expect(s, j6, "\"/>")?;
    let v = PictureShapeOptions {
        higher_search_sensitivity: hs,
        picture_shape: ps,
        sensitivity: sv as u8,
    };
    proof {
        subrange_join(s@, i as int, j1 as int, j2 as int);
        subrange_join(s@, i as int, j2 as int, j3 as int);
        subrange_join(s@, i as int, j3 as int, j4 as int);
        subrange_join(s@, i as int, j4 as int, j5 as int);
        subrange_join(s@, i as int, j5 as int, j6 as int);
        subrange_join(s@, i as int, j6 as int, j7 as int);
        assert(s@.subrange(i as int, j7 as int) =~= ser_picture_shape_options(v));
    }
    Ok((v, j7))
}

} // verus!
