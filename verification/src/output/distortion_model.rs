//! The legacy distortion-model curve pair. Each curve may carry a spline
//! control-point list, a base64-encoded polyline, or both; the pair of
//! shapes decides the model variant.

use vstd::prelude::*;

use crate::base64::{b64_of, parse_b64, write_b64};
use crate::common::{parse_points_many, ser_points, wf_points, Point};
use crate::wire::{expect, subrange_join, ParseError, ParseErrorKind};

verus! {

/// A spline control-point list.
#[derive(Debug, Clone)]
pub struct XSpline {
    pub point: Vec<Point>,
}

/// A curve that has only the decoded polyline.
#[derive(Debug, Clone)]
pub struct PolylineCurve {
    pub polyline: Vec<u8>,
}

/// A curve that has both the spline and the decoded polyline.
#[derive(Debug, Clone)]
pub struct XSplineAndPolylineCurve {
    pub xspline: XSpline,
    pub polyline: Vec<u8>,
}

/// The automatically fitted model: polyline-only curves.
#[derive(Debug, Clone)]
pub struct AutoDistortionModel {
    pub top_curve: PolylineCurve,
    pub bottom_curve: PolylineCurve,
}

/// The marginal model: both representations per curve.
#[derive(Debug, Clone)]
pub struct MarginalDistortionModel {
    pub top_curve: XSplineAndPolylineCurve,
    pub bottom_curve: XSplineAndPolylineCurve,
}

/// The resolved model.
#[derive(Debug, Clone)]
pub enum DistortionModel {
    Auto(AutoDistortionModel),
    Marginal(MarginalDistortionModel),
}

pub open spec fn wf_xspline(v: XSpline) -> bool {
    v.point@.len() >= 1 && wf_points(v.point@)
}

pub open spec fn wf_distortion_model(v: DistortionModel) -> bool {
    match v {
        DistortionModel::Auto(m) => m.top_curve.polyline@.len() >= 1
            && m.bottom_curve.polyline@.len() >= 1,
        DistortionModel::Marginal(m) => {
            &&& wf_xspline(m.top_curve.xspline)
            &&& wf_xspline(m.bottom_curve.xspline)
            &&& m.top_curve.polyline@.len() >= 1
            &&& m.bottom_curve.polyline@.len() >= 1
        },
    }
}

/// Decide the model from what each curve carried. Both curves with spline
/// and polyline resolve to the marginal model; both with a polyline alone
/// resolve to the automatic model; anything else is the hard parse error
/// for an unknown curve variant.
pub fn resolve_distortion_model(
    top_xspline: Option<XSpline>,
    top_polyline: Option<Vec<u8>>,
    bottom_xspline: Option<XSpline>,
    bottom_polyline: Option<Vec<u8>>,
    at: usize,
) -> (r: Result<DistortionModel, ParseError>)
    ensures
        match r {
            Ok(m) => match m {
                DistortionModel::Marginal(mm) => {
                    &&& top_xspline == Option::Some(mm.top_curve.xspline)
                    &&& top_polyline == Option::Some(mm.top_curve.polyline)
                    &&& bottom_xspline == Option::Some(mm.bottom_curve.xspline)
                    &&& bottom_polyline == Option::Some(mm.bottom_curve.polyline)
                },
                DistortionModel::Auto(mm) => {
                    &&& top_xspline is None
                    &&& top_polyline == Option::Some(mm.top_curve.polyline)
                    &&& bottom_xspline is None
                    &&& bottom_polyline == Option::Some(mm.bottom_curve.polyline)
                },
            },
            Err(e) => {
                &&& !(top_xspline is Some && top_polyline is Some && bottom_xspline is Some
                    && bottom_polyline is Some)
                &&& !(top_xspline is None && top_polyline is Some && bottom_xspline is None
                    && bottom_polyline is Some)
                &&& e.kind == ParseErrorKind::UnknownCurveVariant
            },
        },
{
    match (top_xspline, top_polyline, bottom_xspline, bottom_polyline) {
        (
            Option::Some(top_xspline),
            Option::Some(top_polyline),
            Option::Some(bottom_xspline),
            Option::Some(bottom_polyline),
        ) => Ok(
            DistortionModel::Marginal(
                MarginalDistortionModel {
                    top_curve: XSplineAndPolylineCurve {
                        xspline: top_xspline,
                        polyline: top_polyline,
                    },
                    bottom_curve: XSplineAndPolylineCurve {
                        xspline: bottom_xspline,
                        polyline: bottom_polyline,
                    },
                },
            ),
        ),
        (Option::None, Option::Some(top_polyline), Option::None, Option::Some(bottom_polyline)) => Ok(
            DistortionModel::Auto(
                AutoDistortionModel {
                    top_curve: PolylineCurve { polyline: top_polyline },
                    bottom_curve: PolylineCurve { polyline: bottom_polyline },
                },
            ),
        ),
        _ => Err(ParseError { pos: at, kind: ParseErrorKind::UnknownCurveVariant }),
    }
}

pub open spec fn ser_xspline(v: XSpline) -> Seq<char> {
    "<xspline>"@ + ser_points(v.point@) + "</xspline>"@
}

pub fn write_xspline(out: &mut String, v: &XSpline)
    requires
        wf_xspline(*v),
    ensures
        final(out)@ == old(out)@ + ser_xspline(*v),
{
    out.append("<xspline>");
    crate::common::write_points(out, &v.point);
    out.append("</xspline>");
    proof {
        assert(out@ =~= old(out)@ + ser_xspline(*v));
    }
}

pub fn parse_xspline(s: &str, i: usize) -> (r: Result<(XSpline, usize), ParseError>)
    requires
        i <= s@.len(),
    ensures
        match r {
            Ok((v, j)) => {
                &&& i < j <= s@.len()
                &&& wf_xspline(v)
                &&& s@.subrange(i as int, j as int) == ser_xspline(v)
            },
            Err(_) => true,
        },
{
    let j1 = expect(s, i, "<xspline>")?;
    let (pts, j2) = parse_points_many(s, j1);
    if pts.len() == 0 {
        return Err(ParseError { pos: j2, kind: ParseErrorKind::Unexpected });
    }
    let j3 = expect(s, j2, "</xspline>")?;
    let v = XSpline { point: pts };
    proof {
        subrange_join(s@, i as int, j1 as int, j2 as int);
        subrange_join(s@, i as int, j2 as int, j3 as int);
        assert(s@.subrange(i as int, j3 as int) =~= ser_xspline(v));
    }
    Ok((v, j3))
}

/// `<polyline>` holding base64 text.
pub open spec fn ser_polyline(bytes: Seq<u8>) -> Seq<char> {
    "<polyline>"@ + b64_of(bytes) + "</polyline>"@
}

pub fn write_polyline(out: &mut String, bytes: &Vec<u8>)
    ensures
        final(out)@ == old(out)@ + ser_polyline(bytes@),
{
    out.append("<polyline>");
    write_b64(out, bytes);
    out.append("</polyline>");
    proof {
        assert(out@ =~= old(out)@ + ser_polyline(bytes@));
    }
}

pub fn parse_polyline(s: &str, i: usize) -> (r: Result<(Vec<u8>, usize), ParseError>)
    requires
        i <= s@.len(),
    ensures
        match r {
            Ok((bytes, j)) => {
                &&& i < j <= s@.len()
                &&& bytes@.len() >= 1
                &&& s@.subrange(i as int, j as int) == ser_polyline(bytes@)
            },
            Err(_) => true,
        },
{
    let j1 = expect(s, i, "<polyline>")?;
    let (bytes, j2) = parse_b64(s, j1)?;
    if bytes.len() == 0 {
        return Err(ParseError { pos: j2, kind: ParseErrorKind::BadBase64 });
    }
    let j3 = expect(s, j2, "</polyline>")?;
    proof {
        subrange_join(s@, i as int, j1 as int, j2 as int);
        subrange_join(s@, i as int, j2 as int, j3 as int);
        assert(s@.subrange(i as int, j3 as int) =~= ser_polyline(bytes@));
    }
    Ok((bytes, j3))
}

/// What one curve element holds for each variant.
pub open spec fn ser_top_curve(v: DistortionModel) -> Seq<char> {
    match v {
        DistortionModel::Auto(m) => ser_polyline(m.top_curve.polyline@),
        DistortionModel::Marginal(m) => ser_xspline(m.top_curve.xspline) + ser_polyline(
            m.top_curve.polyline@,
        ),
    }
}

pub open spec fn ser_bottom_curve(v: DistortionModel) -> Seq<char> {
    match v {
        DistortionModel::Auto(m) => ser_polyline(m.bottom_curve.polyline@),
        DistortionModel::Marginal(m) => ser_xspline(m.bottom_curve.xspline) + ser_polyline(
            m.bottom_curve.polyline@,
        ),
    }
}

pub open spec fn ser_distortion_model(v: DistortionModel) -> Seq<char> {
    "<distortion-model><top-curve>"@ + ser_top_curve(v) + "</top-curve><bottom-curve>"@
        + ser_bottom_curve(v) + "</bottom-curve></distortion-model>"@
}

pub fn write_distortion_model(out: &mut String, v: &DistortionModel)
    requires
        wf_distortion_model(*v),
    ensures
        final(out)@ == old(out)@ + ser_distortion_model(*v),
{
    out.append("<distortion-model><top-curve>");
    match v {
        DistortionModel::Auto(m) => {
            write_polyline(out, &m.top_curve.polyline);
        },
        DistortionModel::Marginal(m) => {
            write_xspline(out, &m.top_curve.xspline);
            write_polyline(out, &m.top_curve.polyline);
        },
    }
    out.append("</top-curve><bottom-curve>");
    match v {
        DistortionModel::Auto(m) => {
            write_polyline(out, &m.bottom_curve.polyline);
        },
        DistortionModel::Marginal(m) => {
            write_xspline(out, &m.bottom_curve.xspline);
            write_polyline(out, &m.bottom_curve.polyline);
        },
    }
    out.append("</bottom-curve></distortion-model>");
    proof {
        assert(out@ =~= old(out)@ + ser_distortion_model(*v));
    }
}

/// Parse one curve element body: an optional spline and an optional
/// polyline, in that order.
fn parse_curve_body(s: &str, i: usize) -> (r: (Option<XSpline>, Option<Vec<u8>>, usize))
    requires
        i <= s@.len(),
    ensures
        ({
            let (xs, pl, j) = r;
            &&& i <= j <= s@.len()
            &&& (match xs {
                Option::None => true,
                Option::Some(x) => wf_xspline(x),
            })
            &&& (match pl {
                Option::None => true,
                Option::Some(b) => b@.len() >= 1,
            })
            &&& s@.subrange(i as int, j as int) == (match xs {
                Option::None => Seq::<char>::empty(),
                Option::Some(x) => ser_xspline(x),
            }) + (match pl {
                Option::None => Seq::<char>::empty(),
                Option::Some(b) => ser_polyline(b@),
            })
        }),
{
    let (xs, j1): (Option<XSpline>, usize) = match parse_xspline(s, i) {
        Ok((x, j1)) => (Option::Some(x), j1),
        Err(_) => (Option::None, i),
    };
    let (pl, j2): (Option<Vec<u8>>, usize) = match parse_polyline(s, j1) {
        Ok((b, j2)) => (Option::Some(b), j2),
        Err(_) => (Option::None, j1),
    };
    proof {
        subrange_join(s@, i as int, j1 as int, j2 as int);
    }
    (xs, pl, j2)
}

/// Parse a distortion model and resolve its variant from the shapes of the
/// two curves.
pub fn parse_distortion_model(s: &str, i: usize) -> (r: Result<
    (DistortionModel, usize),
    ParseError,
>)
    requires
        i <= s@.len(),
    ensures
        match r {
            Ok((v, j)) => {
                &&& i < j <= s@.len()
                &&& wf_distortion_model(v)
                &&& s@.subrange(i as int, j as int) == ser_distortion_model(v)
            },
            Err(_) => true,
        },
{
    let j1 = expect(s, i, "<distortion-model><top-curve>")?;
    let (top_xs, top_pl, j2) = parse_curve_body(s, j1);
    let j3 = expect(s, j2, "</top-curve><bottom-curve>")?;
    let (bot_xs, bot_pl, j4) = parse_curve_body(s, j3);
    let j5 = expect(s, j4, "</bottom-curve></distortion-model>")?;
    let v = resolve_distortion_model(top_xs, top_pl, bot_xs, bot_pl, i)?;
    proof {
        subrange_join(s@, i as int, j1 as int, j2 as int);
        subrange_join(s@, i as int, j2 as int, j3 as int);
        subrange_join(s@, i as int, j3 as int, j4 as int);
        subrange_join(s@, i as int, j4 as int, j5 as int);
        assert(s@.subrange(i as int, j5 as int) =~= ser_distortion_model(v));
    }
    Ok((v, j5))
}

} // verus!
