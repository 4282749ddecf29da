//! Types shared by several filter stages: rotations, rectangles, outlines,
//! and per-page image settings.

use vstd::prelude::*;

use crate::common::{parse_points_exact, ser_points, wf_points, Point};
use crate::decimal::{decimal_stop, parse_decimal, ser_decimal, wf_decimal, write_decimal, Decimal};
use crate::numbers::{digit_stop, parse_u64, u64_dec, write_u64};
use crate::wire::{ParseError, ParseErrorKind, expect, parse_bool, ser_bool, starts_split, starts_with_at, subrange_join, write_bool};

verus! {

/// A rotation in whole quarter turns, clockwise. Zero appears only in
/// dependency snapshots.
#[derive(Clone, Copy, Debug, PartialEq, Eq, Structural)]
pub enum Degrees {
    _0,
    _90,
    _180,
    _270,
}

/// `<rotation degrees="..."/>`.
#[derive(Clone, Copy, Debug, PartialEq, Eq, Structural)]
pub struct Rotation {
    pub degrees: Degrees,
}

pub open spec fn ser_degrees(d: Degrees) -> Seq<char> {
    match d {
        Degrees::_0 => "0"@,
        Degrees::_90 => "90"@,
        Degrees::_180 => "180"@,
        Degrees::_270 => "270"@,
    }
}

pub fn write_degrees(out: &mut String, d: Degrees)
    ensures
        final(out)@ == old(out)@ + ser_degrees(d),
{
    match d {
        Degrees::_0 => out.append("0"),
        Degrees::_90 => out.append("90"),
        Degrees::_180 => out.append("180"),
        Degrees::_270 => out.append("270"),
    }
}

pub fn parse_degrees(s: &str, i: usize) -> (r: Result<(Degrees, usize), ParseError>)
    requires
        i <= s@.len(),
    ensures
        match r {
            Ok((d, j)) => {
                &&& i < j <= s@.len()
                &&& s@.subrange(i as int, j as int) == ser_degrees(d)
            },
            Err(_) => true,
        },
        forall|w: Degrees|
            #![trigger starts_with_at(s@, i as int, ser_degrees(w))]
            starts_with_at(s@, i as int, ser_degrees(w)) ==> r is Ok && (r->Ok_0).1 == i + ser_degrees(
                w,
            ).len(),
{
    proof {
        reveal_strlit("0");
        reveal_strlit("90");
        reveal_strlit("180");
        reveal_strlit("270");
        assert forall|w: Degrees| #[trigger] starts_with_at(s@, i as int, ser_degrees(w)) implies i < s@.len() && s@[i as int] == ser_degrees(w)[0] by {
            match w {
            Degrees::_0 => {
                assert(s@.subrange(i as int, i + 1)[0] == s@[i as int]);
            },
            Degrees::_90 => {
                assert(s@.subrange(i as int, i + 2)[0] == s@[i as int]);
            },
            Degrees::_180 => {
                assert(s@.subrange(i as int, i + 3)[0] == s@[i as int]);
            },
            Degrees::_270 => {
                assert(s@.subrange(i as int, i + 3)[0] == s@[i as int]);
            },
            }
        }
    }
    let n = s.unicode_len();
    if i == n {
        return Err(ParseError { pos: i, kind: ParseErrorKind::Unexpected });
    }
    proof {
        reveal_strlit("0");
        reveal_strlit("90");
        reveal_strlit("180");
        reveal_strlit("270");
    }
    let c = s.get_char(i);
    if c == '0' {
        let j = expect(s, i, "0")?;
        Ok((Degrees::_0, j))
    } else if c == '9' {
        let j = expect(s, i, "90")?;
        Ok((Degrees::_90, j))
    } else if c == '1' {
        let j = expect(s, i, "180")?;
        Ok((Degrees::_180, j))
    } else if c == '2' {
        let j = expect(s, i, "270")?;
        Ok((Degrees::_270, j))
    } else {
        Err(ParseError { pos: i, kind: ParseErrorKind::Unexpected })
    }
}

pub open spec fn ser_rotation(v: Rotation) -> Seq<char> {
    "<rotation degrees=\""@ + ser_degrees(v.degrees) + "\"/>"@
}

pub fn write_rotation(out: &mut String, v: &Rotation)
    ensures
        final(out)@ == old(out)@ + ser_rotation(*v),
{
    out.append("<rotation degrees=\"");
    write_degrees(out, v.degrees);
    out.append("\"/>");
    proof {
        assert(out@ =~= old(out)@ + ser_rotation(*v));
    }
}

pub fn parse_rotation(s: &str, i: usize) -> (r: Result<(Rotation, usize), ParseError>)
    requires
        i <= s@.len(),
    ensures
        match r {
            Ok((v, j)) => {
                &&& i < j <= s@.len()
                &&& s@.subrange(i as int, j as int) == ser_rotation(v)
            },
            Err(_) => true,
        },
        forall|w: Rotation|
            #![trigger starts_with_at(s@, i as int, ser_rotation(w))]
            true && starts_with_at(s@, i as int, ser_rotation(w)) ==> r is Ok && (
            r->Ok_0).1 == i + ser_rotation(w).len(),
{
    proof {
        reveal_strlit("<rotation degrees=\"");
        reveal_strlit("\"/>");
        assert forall|w: Rotation|
            true && #[trigger] starts_with_at(s@, i as int, ser_rotation(w)) implies {
            let a0 = "<rotation degrees=\""@;
            let a1 = a0 + ser_degrees(w.degrees);
            let a2 = a1 + "\"/>"@;
            &&& starts_with_at(s@, i as int, "<rotation degrees=\""@)
            &&& starts_with_at(s@, i + a0.len(), ser_degrees(w.degrees))
            &&& starts_with_at(s@, i + a1.len(), "\"/>"@)
        } by {
            let a0 = "<rotation degrees=\""@;
            let a1 = a0 + ser_degrees(w.degrees);
            let a2 = a1 + "\"/>"@;
            starts_split(s@, i as int, a1, "\"/>"@);
            starts_split(s@, i as int, a0, ser_degrees(w.degrees));
        }
    }
    let j1 = expect(s, i, "<rotation degrees=\"")?;
    let (d, j2) = parse_degrees(s, j1)?;
    let j3 = expect(s, j2, "\"/>")?;
    let v = Rotation { degrees: d };
    proof {
        subrange_join(s@, i as int, j1 as int, j2 as int);
        subrange_join(s@, i as int, j2 as int, j3 as int);
        assert(s@.subrange(i as int, j3 as int) =~= ser_rotation(v));
    }
    Ok((v, j3))
}

/// A rectangle whose width and height must not be negative.
#[derive(Debug, Clone)]
pub struct Rect {
    pub height: Decimal,
    pub width: Decimal,
    pub x: Decimal,
    pub y: Decimal,
}

/// A rectangle that must lie wholly in the non-negative quadrant: position
/// and dimensions all non-negative.
#[derive(Debug, Clone)]
pub struct PositiveRegionRect {
    pub height: Decimal,
    pub width: Decimal,
    pub x: Decimal,
    pub y: Decimal,
}

pub open spec fn wf_rect(v: Rect) -> bool {
    wf_decimal(v.height) && wf_decimal(v.width) && wf_decimal(v.x) && wf_decimal(v.y)
}

pub open spec fn wf_pos_rect(v: PositiveRegionRect) -> bool {
    wf_decimal(v.height) && wf_decimal(v.width) && wf_decimal(v.x) && wf_decimal(v.y)
}

pub open spec fn ser_rect4(
    name: Seq<char>,
    h: Decimal,
    w: Decimal,
    x: Decimal,
    y: Decimal,
) -> Seq<char> {
    seq!['<'] + name + " height=\""@ + ser_decimal(h) + "\" width=\""@ + ser_decimal(w)
        + "\" x=\""@ + ser_decimal(x) + "\" y=\""@ + ser_decimal(y) + "\"/>"@
}

pub open spec fn ser_rect(name: Seq<char>, v: Rect) -> Seq<char> {
    ser_rect4(name, v.height, v.width, v.x, v.y)
}

pub open spec fn ser_pos_rect(name: Seq<char>, v: PositiveRegionRect) -> Seq<char> {
    ser_rect4(name, v.height, v.width, v.x, v.y)
}

#[verifier::rlimit(100)]
#[verifier::spinoff_prover]
fn write_rect4(out: &mut String, name: &str, h: &Decimal, w: &Decimal, x: &Decimal, y: &Decimal)
    requires
        wf_decimal(*h),
        wf_decimal(*w),
        wf_decimal(*x),
        wf_decimal(*y),
    ensures
        final(out)@ == old(out)@ + ser_rect4(name@, *h, *w, *x, *y),
{
    out.append("<");
    out.append(name);
    out.append(" height=\"");
    write_decimal(out, h);
    out.append("\" width=\"");
    write_decimal(out, w);
    out.append("\" x=\"");
    write_decimal(out, x);
    out.append("\" y=\"");
    write_decimal(out, y);
    out.append("\"/>");
    proof {
        reveal_strlit("<");
        assert(out@ =~= old(out)@ + ser_rect4(name@, *h, *w, *x, *y));
    }
}

#[verifier::rlimit(100)]
#[verifier::spinoff_prover]
fn parse_rect4(s: &str, i: usize, name: &str) -> (r: Result<
    ((Decimal, Decimal, Decimal, Decimal), usize),
    ParseError,
>)
    requires
        i <= s@.len(),
    ensures
        match r {
            Ok(((h, w, x, y), j)) => {
                &&& i < j <= s@.len()
                &&& wf_decimal(h) && wf_decimal(w) && wf_decimal(x) && wf_decimal(y)
                &&& s@.subrange(i as int, j as int) == ser_rect4(name@, h, w, x, y)
            },
            Err(_) => true,
        },
        forall|wh: Decimal, ww: Decimal, wx: Decimal, wy: Decimal|
            #![trigger starts_with_at(s@, i as int, ser_rect4(name@, wh, ww, wx, wy))]
            wf_decimal(wh) && wf_decimal(ww) && wf_decimal(wx) && wf_decimal(wy) && starts_with_at(s@, i as int, ser_rect4(name@, wh, ww, wx, wy)) ==> r is Ok && (
            r->Ok_0).1 == i + ser_rect4(name@, wh, ww, wx, wy).len(),
{
    proof {
        reveal_strlit(" height=\"");
        reveal_strlit("\" width=\"");
        reveal_strlit("\" x=\"");
        reveal_strlit("\" y=\"");
        reveal_strlit("\"/>");
        reveal_strlit("<");
        assert("<"@ =~= seq!['<']);
        assert forall|wh: Decimal, ww: Decimal, wx: Decimal, wy: Decimal|
            wf_decimal(wh) && wf_decimal(ww) && wf_decimal(wx) && wf_decimal(wy) && #[trigger] starts_with_at(s@, i as int, ser_rect4(name@, wh, ww, wx, wy)) implies {
            let a0 = seq!['<'];
            let a1 = a0 + name@;
            let a2 = a1 + " height=\""@;
            let a3 = a2 + ser_decimal(wh);
            let a4 = a3 + "\" width=\""@;
            let a5 = a4 + ser_decimal(ww);
            let a6 = a5 + "\" x=\""@;
            let a7 = a6 + ser_decimal(wx);
            let a8 = a7 + "\" y=\""@;
            let a9 = a8 + ser_decimal(wy);
            let a10 = a9 + "\"/>"@;
            &&& starts_with_at(s@, i as int, seq!['<'])
            &&& starts_with_at(s@, i + a0.len(), name@)
            &&& starts_with_at(s@, i + a1.len(), " height=\""@)
            &&& starts_with_at(s@, i + a2.len(), ser_decimal(wh))
            &&& decimal_stop(s@, i + a3.len())
            &&& starts_with_at(s@, i + a3.len(), "\" width=\""@)
            &&& starts_with_at(s@, i + a4.len(), ser_decimal(ww))
            &&& decimal_stop(s@, i + a5.len())
            &&& starts_with_at(s@, i + a5.len(), "\" x=\""@)
            &&& starts_with_at(s@, i + a6.len(), ser_decimal(wx))
            &&& decimal_stop(s@, i + a7.len())
            &&& starts_with_at(s@, i + a7.len(), "\" y=\""@)
            &&& starts_with_at(s@, i + a8.len(), ser_decimal(wy))
            &&& decimal_stop(s@, i + a9.len())
            &&& starts_with_at(s@, i + a9.len(), "\"/>"@)
        } by {
            let a0 = seq!['<'];
            let a1 = a0 + name@;
            let a2 = a1 + " height=\""@;
            let a3 = a2 + ser_decimal(wh);
            let a4 = a3 + "\" width=\""@;
            let a5 = a4 + ser_decimal(ww);
            let a6 = a5 + "\" x=\""@;
            let a7 = a6 + ser_decimal(wx);
            let a8 = a7 + "\" y=\""@;
            let a9 = a8 + ser_decimal(wy);
            let a10 = a9 + "\"/>"@;
            starts_split(s@, i as int, a9, "\"/>"@);
            starts_split(s@, i as int, a8, ser_decimal(wy));
            starts_split(s@, i as int, a7, "\" y=\""@);
            starts_split(s@, i as int, a6, ser_decimal(wx));
            starts_split(s@, i as int, a5, "\" x=\""@);
            starts_split(s@, i as int, a4, ser_decimal(ww));
            starts_split(s@, i as int, a3, "\" width=\""@);
            starts_split(s@, i as int, a2, ser_decimal(wh));
            starts_split(s@, i as int, a1, " height=\""@);
            starts_split(s@, i as int, a0, name@);
            assert(s@.subrange(i + a3.len(), i + a3.len() + 9)[0] == s@[i + a3.len()]);
            assert(s@.subrange(i + a5.len(), i + a5.len() + 5)[0] == s@[i + a5.len()]);
            assert(s@.subrange(i + a7.len(), i + a7.len() + 5)[0] == s@[i + a7.len()]);
            assert(s@.subrange(i + a9.len(), i + a9.len() + 3)[0] == s@[i + a9.len()]);
        }
    }
    let j1 = expect(s, i, "<")?;
    let j2 = expect(s, j1, name)?;
    let j3 = expect(s, j2, " height=\"")?;
    let (h, j4) = parse_decimal(s, j3)?;
    let j5 = expect(s, j4, "\" width=\"")?;
    let (w, j6) = parse_decimal(s, j5)?;
    let j7 = expect(s, j6, "\" x=\"")?;
    let (x, j8) = parse_decimal(s, j7)?;
    let j9 = expect(s, j8, "\" y=\"")?;
    let (y, j10) = parse_decimal(s, j9)?;
    let j11 = expect(s, j10, "\"/>")?;
    proof {
        reveal_strlit("<");
        subrange_join(s@, i as int, j1 as int, j2 as int);
        subrange_join(s@, i as int, j2 as int, j3 as int);
        subrange_join(s@, i as int, j3 as int, j4 as int);
        subrange_join(s@, i as int, j4 as int, j5 as int);
        subrange_join(s@, i as int, j5 as int, j6 as int);
        subrange_join(s@, i as int, j6 as int, j7 as int);
        subrange_join(s@, i as int, j7 as int, j8 as int);
        subrange_join(s@, i as int, j8 as int, j9 as int);
        subrange_join(s@, i as int, j9 as int, j10 as int);
        subrange_join(s@, i as int, j10 as int, j11 as int);
        assert(s@.subrange(i as int, j11 as int) =~= ser_rect4(name@, h, w, x, y));
    }
    Ok(((h, w, x, y), j11))
}

pub fn write_rect(out: &mut String, name: &str, v: &Rect)
    requires
        wf_rect(*v),
    ensures
        final(out)@ == old(out)@ + ser_rect(name@, *v),
{
    write_rect4(out, name, &v.height, &v.width, &v.x, &v.y);
}

pub fn parse_rect(s: &str, i: usize, name: &str) -> (r: Result<(Rect, usize), ParseError>)
    requires
        i <= s@.len(),
    ensures
        match r {
            Ok((v, j)) => {
                &&& i < j <= s@.len()
                &&& wf_rect(v)
                &&& s@.subrange(i as int, j as int) == ser_rect(name@, v)
            },
            Err(_) => true,
        },
        forall|w: Rect|
            #![trigger starts_with_at(s@, i as int, ser_rect(name@, w))]
            wf_rect(w) && starts_with_at(s@, i as int, ser_rect(name@, w)) ==> r is Ok
                && (r->Ok_0).1 == i + ser_rect(name@, w).len(),
{
    proof {
        assert forall|w: Rect|
            wf_rect(w) && #[trigger] starts_with_at(s@, i as int, ser_rect(name@, w)) implies
            starts_with_at(
            s@,
            i as int,
            ser_rect4(name@, w.height, w.width, w.x, w.y),
        ) by {}
    }
    let ((h, w, x, y), j) = parse_rect4(s, i, name)?;
    Ok((Rect { height: h, width: w, x, y }, j))
}

pub fn write_pos_rect(out: &mut String, name: &str, v: &PositiveRegionRect)
    requires
        wf_pos_rect(*v),
    ensures
        final(out)@ == old(out)@ + ser_pos_rect(name@, *v),
{
    write_rect4(out, name, &v.height, &v.width, &v.x, &v.y);
}

pub fn parse_pos_rect(s: &str, i: usize, name: &str) -> (r: Result<
    (PositiveRegionRect, usize),
    ParseError,
>)
    requires
        i <= s@.len(),
    ensures
        match r {
            Ok((v, j)) => {
                &&& i < j <= s@.len()
                &&& wf_pos_rect(v)
                &&& s@.subrange(i as int, j as int) == ser_pos_rect(name@, v)
            },
            Err(_) => true,
        },
        forall|w: PositiveRegionRect|
            #![trigger starts_with_at(s@, i as int, ser_pos_rect(name@, w))]
            wf_pos_rect(w) && starts_with_at(s@, i as int, ser_pos_rect(name@, w)) ==> r is Ok
                && (r->Ok_0).1 == i + ser_pos_rect(name@, w).len(),
{
    proof {
        assert forall|w: PositiveRegionRect|
            wf_pos_rect(w) && #[trigger] starts_with_at(s@, i as int, ser_pos_rect(name@, w)) implies
            starts_with_at(
            s@,
            i as int,
            ser_rect4(name@, w.height, w.width, w.x, w.y),
        ) by {}
    }
    let ((h, w, x, y), j) = parse_rect4(s, i, name)?;
    Ok((PositiveRegionRect { height: h, width: w, x, y }, j))
}

/// A closed polygon boundary: either wholly absent, or exactly five ordered
/// points whose first and last entries should coincide.
#[derive(Debug, Clone)]
pub enum Outline {
    Filled(FilledOutline),
    Empty(EmptyOutline),
}

/// The filled shape of an outline: five ordered points.
#[derive(Debug, Clone)]
pub struct FilledOutline {
    pub point: Vec<Point>,
}

/// The empty shape of an outline.
#[derive(Debug, Clone)]
pub struct EmptyOutline {}

pub open spec fn wf_filled_outline(o: FilledOutline) -> bool {
    o.point@.len() == 5 && wf_points(o.point@)
}

pub open spec fn wf_outline(o: Outline) -> bool {
    match o {
        Outline::Filled(f) => wf_filled_outline(f),
        Outline::Empty(_) => true,
    }
}

/// The five points close: the first equals the last, by numeric value.
pub open spec fn outline_points_closed(pts: Seq<Point>) -> bool {
    crate::decimal::decimal_eq_val(pts[0].x, pts[4].x) && crate::decimal::decimal_eq_val(
        pts[0].y,
        pts[4].y,
    )
}

/// An outline passes the closure rule when it is empty or closes.
pub open spec fn outline_closed(o: Outline) -> bool {
    match o {
        Outline::Filled(f) => outline_points_closed(f.point@),
        Outline::Empty(_) => true,
    }
}

/// Decide the closure rule for a filled outline.
pub fn filled_outline_closes(f: &FilledOutline) -> (ok: bool)
    requires
        wf_filled_outline(*f),
    ensures
        ok == outline_points_closed(f.point@),
{
    let first = &f.point[0];
    let last = &f.point[4];
    let xe = crate::decimal::same_value(&first.x, &last.x);
    let ye = crate::decimal::same_value(&first.y, &last.y);
    xe && ye
}

pub open spec fn ser_outline(name: Seq<char>, o: Outline) -> Seq<char> {
    match o {
        Outline::Empty(_) => seq!['<'] + name + "/>"@,
        Outline::Filled(f) => seq!['<'] + name + ">"@ + ser_points(f.point@) + "</"@ + name
            + ">"@,
    }
}

pub fn write_outline(out: &mut String, name: &str, o: &Outline)
    requires
        wf_outline(*o),
    ensures
        final(out)@ == old(out)@ + ser_outline(name@, *o),
{
    match o {
        Outline::Empty(_) => {
            out.append("<");
            out.append(name);
            out.append("/>");
        },
        Outline::Filled(f) => {
            out.append("<");
            out.append(name);
            out.append(">");
            crate::common::write_points(out, &f.point);
            out.append("</");
            out.append(name);
            out.append(">");
        },
    }
    proof {
        reveal_strlit("<");
        reveal_strlit("</");
        assert(out@ =~= old(out)@ + ser_outline(name@, *o));
    }
}

/// Parse an outline element: a self-closing tag is the empty shape, an open
/// tag must hold exactly five points.
pub fn parse_outline(s: &str, i: usize, name: &str) -> (r: Result<(Outline, usize), ParseError>)
    requires
        i <= s@.len(),
    ensures
        match r {
            Ok((o, j)) => {
                &&& i < j <= s@.len()
                &&& wf_outline(o)
                &&& s@.subrange(i as int, j as int) == ser_outline(name@, o)
            },
            Err(_) => true,
        },
        forall|w: Outline|
            #![trigger starts_with_at(s@, i as int, ser_outline(name@, w))]
            wf_outline(w) && starts_with_at(s@, i as int, ser_outline(name@, w)) ==> r is Ok && (
            r->Ok_0).1 == i + ser_outline(name@, w).len(),
{
    let n = s.unicode_len();
    proof {
        reveal_strlit("<");
        reveal_strlit("/>");
        reveal_strlit(">");
        reveal_strlit("</");
        assert("<"@ =~= seq!['<']);
        assert forall|w: Outline|
            wf_outline(w) && #[trigger] starts_with_at(s@, i as int, ser_outline(name@, w)) implies {
            let a0 = seq!['<'];
            let a1 = a0 + name@;
            &&& starts_with_at(s@, i as int, a0)
            &&& starts_with_at(s@, i + a0.len(), name@)
            &&& i + a1.len() < s@.len()
            &&& (w is Empty ==> s@[i + a1.len()] == '/' && starts_with_at(
                s@,
                i + a1.len(),
                "/>"@,
            ))
            &&& (w is Filled ==> s@[i + a1.len()] == '>' && starts_with_at(
                s@,
                i + a1.len(),
                ">"@,
            ) && starts_with_at(s@, i + a1.len() + 1, ser_points(w->Filled_0.point@))
                && starts_with_at(
                s@,
                i + a1.len() + 1 + ser_points(w->Filled_0.point@).len(),
                "</"@,
            ) && starts_with_at(
                s@,
                i + a1.len() + 3 + ser_points(w->Filled_0.point@).len(),
                name@,
            ) && starts_with_at(
                s@,
                i + a1.len() + 3 + ser_points(w->Filled_0.point@).len() + name@.len(),
                ">"@,
            ))
        } by {
            let a0 = seq!['<'];
            let a1 = a0 + name@;
            match w {
                Outline::Empty(_) => {
                    starts_split(s@, i as int, a1, "/>"@);
                    starts_split(s@, i as int, a0, name@);
                    assert(s@.subrange(i + a1.len(), i + a1.len() + 2)[0] == s@[i + a1.len()]);
                },
                Outline::Filled(f) => {
                    let a2 = a1 + ">"@;
                    let a3 = a2 + ser_points(f.point@);
                    let a4 = a3 + "</"@;
                    let a5 = a4 + name@;
                    starts_split(s@, i as int, a5, ">"@);
                    starts_split(s@, i as int, a4, name@);
                    starts_split(s@, i as int, a3, "</"@);
                    starts_split(s@, i as int, a2, ser_points(f.point@));
                    starts_split(s@, i as int, a1, ">"@);
                    starts_split(s@, i as int, a0, name@);
                    assert(s@.subrange(i + a1.len(), i + a1.len() + 1)[0] == s@[i + a1.len()]);
                },
            }
        }
    }
    let j1 = expect(s, i, "<")?;
    let j2 = expect(s, j1, name)?;
    if j2 < n && s.get_char(j2) == '/' {
        let j3 = expect(s, j2, "/>")?;
        let o = Outline::Empty(EmptyOutline {});
        proof {
            reveal_strlit("<");
            subrange_join(s@, i as int, j1 as int, j2 as int);
            subrange_join(s@, i as int, j2 as int, j3 as int);
            assert(s@.subrange(i as int, j3 as int) =~= ser_outline(name@, o));
        }
        Ok((o, j3))
    } else {
        let j3 = expect(s, j2, ">")?;
        let (pts, j4) = parse_points_exact(s, j3, 5)?;
        let j5 = expect(s, j4, "</")?;
        let j6 = expect(s, j5, name)?;
        let j7 = expect(s, j6, ">")?;
        let o = Outline::Filled(FilledOutline { point: pts });
        proof {
            reveal_strlit("<");
            reveal_strlit("</");
            subrange_join(s@, i as int, j1 as int, j2 as int);
            subrange_join(s@, i as int, j2 as int, j3 as int);
            subrange_join(s@, i as int, j3 as int, j4 as int);
            subrange_join(s@, i as int, j4 as int, j5 as int);
            subrange_join(s@, i as int, j5 as int, j6 as int);
            subrange_join(s@, i as int, j6 as int, j7 as int);
            assert(s@.subrange(i as int, j7 as int) =~= ser_outline(name@, o));
        }
        Ok((o, j7))
    }
}

/// Per-page black/white threshold settings shared by several stages.
#[derive(Debug, Clone)]
pub struct ImageSettings {
    pub page: Vec<ImageSettingsPage>,
}

#[derive(Debug, Clone)]
pub struct ImageSettingsPage {
    pub id: u32,
    pub image_params: ImageParams,
}

#[derive(Clone, Copy, Debug, PartialEq, Eq, Structural)]
pub struct ImageParams {
    pub black_on_white: bool,
    pub bw_threshold: u8,
}

pub open spec fn ser_image_params(v: ImageParams) -> Seq<char> {
    "<image-params blackOnWhite=\""@ + ser_bool(v.black_on_white) + "\" bwThreshold=\""@
        + u64_dec(v.bw_threshold as int) + "\"/>"@
}

pub fn write_image_params(out: &mut String, v: &ImageParams)
    ensures
        final(out)@ == old(out)@ + ser_image_params(*v),
{
    out.append("<image-params blackOnWhite=\"");
    write_bool(out, v.black_on_white);
    out.append("\" bwThreshold=\"");
    write_u64(out, v.bw_threshold as u64);
    out.append("\"/>");
    proof {
        assert(out@ =~= old(out)@ + ser_image_params(*v));
    }
}

pub fn parse_image_params(s: &str, i: usize) -> (r: Result<(ImageParams, usize), ParseError>)
    requires
        i <= s@.len(),
    ensures
        match r {
            Ok((v, j)) => {
                &&& i < j <= s@.len()
                &&& s@.subrange(i as int, j as int) == ser_image_params(v)
            },
            Err(_) => true,
        },
        forall|w: ImageParams|
            #![trigger starts_with_at(s@, i as int, ser_image_params(w))]
            true && starts_with_at(s@, i as int, ser_image_params(w)) ==> r is Ok && (
            r->Ok_0).1 == i + ser_image_params(w).len(),
{
    proof {
        reveal_strlit("<image-params blackOnWhite=\"");
        reveal_strlit("\" bwThreshold=\"");
        reveal_strlit("\"/>");
        assert forall|w: ImageParams|
            true && #[trigger] starts_with_at(s@, i as int, ser_image_params(w)) implies {
            let a0 = "<image-params blackOnWhite=\""@;
            let a1 = a0 + ser_bool(w.black_on_white);
            let a2 = a1 + "\" bwThreshold=\""@;
            let a3 = a2 + u64_dec(w.bw_threshold as int);
            let a4 = a3 + "\"/>"@;
            &&& starts_with_at(s@, i as int, "<image-params blackOnWhite=\""@)
            &&& starts_with_at(s@, i + a0.len(), ser_bool(w.black_on_white))
            &&& starts_with_at(s@, i + a1.len(), "\" bwThreshold=\""@)
            &&& starts_with_at(s@, i + a2.len(), u64_dec(w.bw_threshold as int))
            &&& digit_stop(s@, i + a3.len())
            &&& starts_with_at(s@, i + a3.len(), "\"/>"@)
        } by {
            let a0 = "<image-params blackOnWhite=\""@;
            let a1 = a0 + ser_bool(w.black_on_white);
            let a2 = a1 + "\" bwThreshold=\""@;
            let a3 = a2 + u64_dec(w.bw_threshold as int);
            let a4 = a3 + "\"/>"@;
            starts_split(s@, i as int, a3, "\"/>"@);
            starts_split(s@, i as int, a2, u64_dec(w.bw_threshold as int));
            starts_split(s@, i as int, a1, "\" bwThreshold=\""@);
            starts_split(s@, i as int, a0, ser_bool(w.black_on_white));
            assert(s@.subrange(i + a3.len(), i + a3.len() + 3)[0] == s@[i + a3.len()]);
        }
    }
    let j1 = expect(s, i, "<image-params blackOnWhite=\"")?;
    let (b, j2) = parse_bool(s, j1)?;
    let j3 = expect(s, j2, "\" bwThreshold=\"")?;
    let (t, j4) = parse_u64(s, j3, 255)?;
    let j5 = expect(s, j4, "\"/>")?;
    let v = ImageParams { black_on_white: b, bw_threshold: t as u8 };
    proof {
        subrange_join(s@, i as int, j1 as int, j2 as int);
        subrange_join(s@, i as int, j2 as int, j3 as int);
        subrange_join(s@, i as int, j3 as int, j4 as int);
        subrange_join(s@, i as int, j4 as int, j5 as int);
        assert(s@.subrange(i as int, j5 as int) =~= ser_image_params(v));
    }
    Ok((v, j5))
}

pub open spec fn ser_settings_page(v: ImageSettingsPage) -> Seq<char> {
    "<page id=\""@ + u64_dec(v.id as int) + "\">"@ + ser_image_params(v.image_params) + "</page>"@
}

pub fn write_settings_page(out: &mut String, v: &ImageSettingsPage)
    ensures
        final(out)@ == old(out)@ + ser_settings_page(*v),
{
    out.append("<page id=\"");
    write_u64(out, v.id as u64);
    out.append("\">");
    write_image_params(out, &v.image_params);
    out.append("</page>");
    proof {
        assert(out@ =~= old(out)@ + ser_settings_page(*v));
    }
}

pub fn parse_settings_page(s: &str, i: usize) -> (r: Result<
    (ImageSettingsPage, usize),
    ParseError,
>)
    requires
        i <= s@.len(),
    ensures
        match r {
            Ok((v, j)) => {
                &&& i < j <= s@.len()
                &&& s@.subrange(i as int, j as int) == ser_settings_page(v)
            },
            Err(_) => true,
        },
        forall|w: ImageSettingsPage|
            #![trigger starts_with_at(s@, i as int, ser_settings_page(w))]
            true && starts_with_at(s@, i as int, ser_settings_page(w)) ==> r is Ok && (
            r->Ok_0).1 == i + ser_settings_page(w).len(),
{
    proof {
        reveal_strlit("<page id=\"");
        reveal_strlit("\">");
        reveal_strlit("</page>");
        assert forall|w: ImageSettingsPage|
            true && #[trigger] starts_with_at(s@, i as int, ser_settings_page(w)) implies {
            let a0 = "<page id=\""@;
            let a1 = a0 + u64_dec(w.id as int);
            let a2 = a1 + "\">"@;
            let a3 = a2 + ser_image_params(w.image_params);
            let a4 = a3 + "</page>"@;
            &&& starts_with_at(s@, i as int, "<page id=\""@)
            &&& starts_with_at(s@, i + a0.len(), u64_dec(w.id as int))
            &&& digit_stop(s@, i + a1.len())
            &&& starts_with_at(s@, i + a1.len(), "\">"@)
            &&& starts_with_at(s@, i + a2.len(), ser_image_params(w.image_params))
            &&& starts_with_at(s@, i + a3.len(), "</page>"@)
        } by {
            let a0 = "<page id=\""@;
            let a1 = a0 + u64_dec(w.id as int);
            let a2 = a1 + "\">"@;
            let a3 = a2 + ser_image_params(w.image_params);
            let a4 = a3 + "</page>"@;
            starts_split(s@, i as int, a3, "</page>"@);
            starts_split(s@, i as int, a2, ser_image_params(w.image_params));
            starts_split(s@, i as int, a1, "\">"@);
            starts_split(s@, i as int, a0, u64_dec(w.id as int));
            assert(s@.subrange(i + a1.len(), i + a1.len() + 2)[0] == s@[i + a1.len()]);
        }
    }
    let j1 = expect(s, i, "<page id=\"")?;
    let (id, j2) = parse_u64(s, j1, 0xffffffff)?;
    let j3 = expect(s, j2, "\">")?;
    let (params, j4) = parse_image_params(s, j3)?;
    let j5 = expect(s, j4, "</page>")?;
    let v = ImageSettingsPage { id: id as u32, image_params: params };
    proof {
        subrange_join(s@, i as int, j1 as int, j2 as int);
        subrange_join(s@, i as int, j2 as int, j3 as int);
        subrange_join(s@, i as int, j3 as int, j4 as int);
        subrange_join(s@, i as int, j4 as int, j5 as int);
        assert(s@.subrange(i as int, j5 as int) =~= ser_settings_page(v));
    }
    Ok((v, j5))
}

pub open spec fn ser_settings_pages(xs: Seq<ImageSettingsPage>) -> Seq<char>
    decreases xs.len(),
{
    if xs.len() == 0 {
        Seq::<char>::empty()
    } else {
        ser_settings_page(xs[0]) + ser_settings_pages(xs.drop_first())
    }
}

pub proof fn ser_settings_pages_snoc(xs: Seq<ImageSettingsPage>, x: ImageSettingsPage)
    ensures
        ser_settings_pages(xs + seq![x]) == ser_settings_pages(xs) + ser_settings_page(x),
    decreases xs.len(),
{
    assert(ser_settings_pages(Seq::<ImageSettingsPage>::empty()) =~= Seq::<char>::empty());
    if xs.len() == 0 {
        assert(xs + seq![x] =~= seq![x]);
        assert(seq![x].drop_first() =~= Seq::<ImageSettingsPage>::empty());
        assert(ser_settings_pages(seq![x]) =~= ser_settings_page(x));
        assert(ser_settings_pages(xs + seq![x]) =~= ser_settings_pages(xs) + ser_settings_page(
            x,
        ));
    } else {
        assert((xs + seq![x]).drop_first() =~= xs.drop_first() + seq![x]);
        ser_settings_pages_snoc(xs.drop_first(), x);
        assert(ser_settings_pages(xs + seq![x]) =~= ser_settings_pages(xs) + ser_settings_page(
            x,
        ));
    }
}

pub proof fn ser_settings_pages_cat(xs: Seq<ImageSettingsPage>, ys: Seq<ImageSettingsPage>)
    ensures
        ser_settings_pages(xs + ys) == ser_settings_pages(xs) + ser_settings_pages(ys),
    decreases xs.len(),
{
    if xs.len() == 0 {
        assert(xs + ys =~= ys);
        assert(ser_settings_pages(xs) + ser_settings_pages(ys) =~= ser_settings_pages(ys));
    } else {
        assert((xs + ys).drop_first() =~= xs.drop_first() + ys);
        ser_settings_pages_cat(xs.drop_first(), ys);
        assert(ser_settings_pages(xs + ys) =~= ser_settings_pages(xs) + ser_settings_pages(ys));
    }
}

/// `<image-settings/>` or `<image-settings>...pages...</image-settings>`.
pub open spec fn ser_image_settings(v: ImageSettings) -> Seq<char> {
    if v.page@.len() == 0 {
        "<image-settings/>"@
    } else {
        "<image-settings>"@ + ser_settings_pages(v.page@) + "</image-settings>"@
    }
}

pub fn write_image_settings(out: &mut String, v: &ImageSettings)
    ensures
        final(out)@ == old(out)@ + ser_image_settings(*v),
{
    if v.page.len() == 0 {
        out.append("<image-settings/>");
        return ;
    }
    out.append("<image-settings>");
    let n = v.page.len();
    let mut k: usize = 0;
    proof {
        assert(v.page@.take(0) =~= Seq::<ImageSettingsPage>::empty());
        assert(ser_settings_pages(v.page@.take(0)) =~= Seq::<char>::empty());
        assert(out@ =~= old(out)@ + "<image-settings>"@ + ser_settings_pages(v.page@.take(0)));
    }
    while k < n
        invariant
            0 < n == v.page@.len(),
            0 <= k <= n,
            out@ == old(out)@ + "<image-settings>"@ + ser_settings_pages(v.page@.take(k as int)),
        decreases n - k,
    {
        write_settings_page(out, &v.page[k]);
        k = k + 1;
        proof {
            ser_settings_pages_snoc(v.page@.take(k - 1), v.page@[k - 1]);
            assert(v.page@.take(k - 1) + seq![v.page@[k - 1]] =~= v.page@.take(k as int));
        }
    }
    out.append("</image-settings>");
    proof {
        assert(v.page@.take(n as int) =~= v.page@);
        assert(out@ =~= old(out)@ + ser_image_settings(*v));
    }
}

#[verifier::rlimit(100)]
#[verifier::spinoff_prover]
#[verifier::loop_isolation(false)]
pub fn parse_image_settings(s: &str, i: usize) -> (r: Result<(ImageSettings, usize), ParseError>)
    requires
        i <= s@.len(),
    ensures
        match r {
            Ok((v, j)) => {
                &&& i < j <= s@.len()
                &&& true
                &&& s@.subrange(i as int, j as int) == ser_image_settings(v)
            },
            Err(_) => true,
        },
        forall|w: ImageSettings|
            #![trigger starts_with_at(s@, i as int, ser_image_settings(w))]
            true && starts_with_at(s@, i as int, ser_image_settings(w)) ==> r is Ok && (
            r->Ok_0).1 == i + ser_image_settings(w).len(),
{
    let n = s.unicode_len();
    proof {
        reveal_strlit("<image-settings");
        reveal_strlit("/>");
        reveal_strlit(">");
        reveal_strlit("<image-settings/>");
        reveal_strlit("<image-settings>");
        reveal_strlit("</image-settings>");
        reveal_strlit("<page id=\"");
        assert forall|w: ImageSettings|
            true && #[trigger] starts_with_at(s@, i as int, ser_image_settings(w)) implies {
            let a0 = "<image-settings"@;
            &&& starts_with_at(s@, i as int, a0)
            &&& i + a0.len() < s@.len()
            &&& (w.page@.len() == 0 ==> s@[i + a0.len()] == '/' && starts_with_at(
                s@,
                i + a0.len(),
                "/>"@,
            ))
            &&& (w.page@.len() > 0 ==> s@[i + a0.len()] == '>' && starts_with_at(
                s@,
                i + a0.len(),
                ">"@,
            ) && starts_with_at(
                s@,
                i + a0.len() + 1,
                ser_settings_pages(w.page@),
            ) && starts_with_at(
                s@,
                i + a0.len() + 1 + ser_settings_pages(w.page@).len(),
                "</image-settings>"@,
            ))
        } by {
            let a0 = "<image-settings"@;
            if w.page@.len() == 0 {
                assert(ser_image_settings(w) == "<image-settings/>"@);
                assert(starts_with_at(s@, i as int, a0 + "/>"@)) by {
                    assert(a0 + "/>"@ =~= "<image-settings/>"@);
                }
                starts_split(s@, i as int, a0, "/>"@);
                assert(s@.subrange(i + a0.len(), i + a0.len() + 2)[0] == s@[i + a0.len()]);
            } else {
                let lst = ser_settings_pages(w.page@);
                assert(starts_with_at(s@, i as int, a0 + ">"@ + lst + "</image-settings>"@)) by {
                    assert(a0 + ">"@ =~= "<image-settings>"@);
                    assert(a0 + ">"@ + lst + "</image-settings>"@ =~= ser_image_settings(w));
                }
                starts_split(s@, i as int, a0 + ">"@ + lst, "</image-settings>"@);
                starts_split(s@, i as int, a0 + ">"@, lst);
                starts_split(s@, i as int, a0, ">"@);
                assert(s@.subrange(i + a0.len(), i + a0.len() + 1)[0] == s@[i + a0.len()]);
            }
        }
    }
    let j1 = expect(s, i, "<image-settings")?;
    if j1 < n && s.get_char(j1) == '/' {
        let j2 = expect(s, j1, "/>")?;
        let v = ImageSettings { page: Vec::new() };
        proof {
            subrange_join(s@, i as int, j1 as int, j2 as int);
            assert(s@.subrange(i as int, j2 as int) =~= ser_image_settings(v));
        }
        return Ok((v, j2));
    }
    let j2 = expect(s, j1, ">")?;
    let mut xs: Vec<ImageSettingsPage> = Vec::new();
    let mut j: usize = j2;
    let ghost mut k: int = 0;
    proof {
        assert(s@.subrange(j2 as int, j2 as int) =~= ser_settings_pages(xs@));
    }
    loop
        invariant
            i <= j1 <= j2 <= j <= s@.len(),
            k == xs@.len(),
            s@.subrange(i as int, j1 as int) == "<image-settings"@,
            s@.subrange(j1 as int, j2 as int) == ">"@,
            
            s@.subrange(j2 as int, j as int) == ser_settings_pages(xs@),
            forall|w: ImageSettings|
                #![trigger starts_with_at(s@, i as int, ser_image_settings(w))]
                true && starts_with_at(s@, i as int, ser_image_settings(w)) && w.page@.len() > 0
                    && j2 == i + "<image-settings>"@.len() ==> k <= w.page@.len() && j == j2
                    + ser_settings_pages(w.page@.take(k)).len(),
        decreases s@.len() - j,
    {
        proof {
            reveal_strlit("<image-settings>");
            reveal_strlit("</image-settings>");
            reveal_strlit("<page id=\"");
            assert forall|w: ImageSettings|
                true && #[trigger] starts_with_at(s@, i as int, ser_image_settings(w))
                    && w.page@.len() > 0 && j2 == i + "<image-settings>"@.len() && k
                    < w.page@.len() implies true && starts_with_at(
                s@,
                j as int,
                ser_settings_page(w.page@[k]),
            ) by {
                let ws = w.page@;
                assert(ws.take(k) + ws.skip(k) =~= ws);
                ser_settings_pages_cat(ws.take(k), ws.skip(k));
                assert(starts_with_at(s@, j2 as int, ser_settings_pages(ws)));
                starts_split(s@, j2 as int, ser_settings_pages(ws.take(k)), ser_settings_pages(
                    ws.skip(k),
                ));
                assert(ws.skip(k)[0] == ws[k]);
                assert(ws.skip(k).drop_first() =~= ws.skip(k + 1));
                assert(ser_settings_pages(ws.skip(k)) == ser_settings_page(ws[k])
                    + ser_settings_pages(ws.skip(k + 1)));
                starts_split(s@, j as int, ser_settings_page(ws[k]), ser_settings_pages(
                    ws.skip(k + 1),
                ));
            }
        }
        match parse_settings_page(s, j) {
            Ok((x, j3)) => {
                proof {
                    reveal_strlit("<image-settings>");
                    reveal_strlit("</image-settings>");
                    reveal_strlit("<page id=\"");
                    assert forall|w: ImageSettings|
                        true && #[trigger] starts_with_at(s@, i as int, ser_image_settings(w))
                            && w.page@.len() > 0 && j2 == i + "<image-settings>"@.len() implies k
                        < w.page@.len() && j3 == j2 + ser_settings_pages(
                        w.page@.take(k + 1),
                    ).len() by {
                        let ws = w.page@;
                        if k >= ws.len() {
                            assert(ws.take(k) =~= ws);
                            assert(starts_with_at(
                                s@,
                                j as int,
                                "</image-settings>"@,
                            ));
                            assert(s@.subrange(j as int, j3 as int) == ser_settings_page(x));
                            reveal_strlit("\">");
                            reveal_strlit("</page>");
                            assert(ser_settings_page(x) == "<page id=\""@ + u64_dec(
                                x.id as int,
                            ) + "\">"@ + ser_image_params(x.image_params) + "</page>"@);
                            assert(ser_settings_page(x).len() >= 2);
                            assert(j3 - j == ser_settings_page(x).len());
                            assert(s@[j + 1] == ser_settings_page(x)[1]) by {
                                assert(s@.subrange(j as int, j3 as int)[1] == s@[j + 1]);
                            }
                            assert(ser_settings_page(x)[1] == "<page id=\""@[1]);
                            assert(s@[j + 1] == "</image-settings>"@[1]) by {
                                assert(s@.subrange(j as int, j + "</image-settings>"@.len())[1] == s@[j
                                    + 1]);
                            }
                        } else {
                            assert(starts_with_at(s@, j as int, ser_settings_page(ws[k])));
                            ser_settings_pages_snoc(ws.take(k), ws[k]);
                            assert(ws.take(k) + seq![ws[k]] =~= ws.take(k + 1));
                        }
                    }
                    ser_settings_pages_snoc(xs@, x);
                    subrange_join(s@, j2 as int, j as int, j3 as int);
                }
                let ghost prev = xs@;
                xs.push(x);
                j = j3;
                proof {
                    k = k + 1;
                    assert(xs@ =~= prev + seq![x]);
                }
            },
            Err(_) => {
                proof {
                    reveal_strlit("<image-settings>");
                    reveal_strlit("</image-settings>");
                    assert forall|w: ImageSettings|
                        true && #[trigger] starts_with_at(s@, i as int, ser_image_settings(w))
                            && w.page@.len() > 0 && j2 == i + "<image-settings>"@.len() implies k
                        == w.page@.len() && j == j2 + ser_settings_pages(w.page@).len() by {
                        if k < w.page@.len() {
                            assert(starts_with_at(
                                s@,
                                j as int,
                                ser_settings_page(w.page@[k]),
                            ));
                        } else {
                            assert(w.page@.take(k) =~= w.page@);
                        }
                    }
                }
                if xs.len() == 0 {
                    return Err(ParseError { pos: j, kind: ParseErrorKind::Unexpected });
                }
                let j4 = expect(s, j, "</image-settings>")?;
                let v = ImageSettings { page: xs };
                proof {
                    subrange_join(s@, i as int, j1 as int, j2 as int);
                    subrange_join(s@, i as int, j2 as int, j as int);
                    subrange_join(s@, i as int, j as int, j4 as int);
                    assert(s@.subrange(i as int, j4 as int) =~= ser_image_settings(v));
                }
                return Ok((v, j4));
            },
        }
    }
}

} // verus!
