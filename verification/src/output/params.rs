//! Rendering parameters of an output page.

use vstd::prelude::*;

use crate::common::{parse_dpi, ser_dpi, wf_dpi, write_dpi, DPI};
use crate::decimal::{parse_decimal, ser_decimal, wf_decimal, write_decimal, Decimal};
use crate::numbers::{parse_u64, u64_dec, write_u64};
use crate::output::color_params::{
    parse_color_params, ser_color_params, wf_color_params, write_color_params, ColorParams,
};
use crate::output::dewarping_options::{
    parse_dewarping_options, ser_dewarping_options, wf_dewarping_options, write_dewarping_options,
    DewarpingOptions,
};
use crate::output::distortion_model::{
    parse_distortion_model, ser_distortion_model, wf_distortion_model, write_distortion_model,
    DistortionModel,
};
use crate::output::picture_shape_options::{
    parse_picture_shape_options, ser_picture_shape_options, write_picture_shape_options,
    PictureShapeOptions,
};
use crate::output::splitting::{parse_splitting, ser_splitting, write_splitting, Splitting};
use crate::wire::{
    expect, parse_bool, ser_bool, subrange_join, write_bool, ParseError,
};

verus! {

/// The rendering parameters block of a page.
#[derive(Debug, Clone)]
pub struct Params {
    pub black_on_white: bool,
    pub depth_perception: u32,
    pub despeckle_level: Decimal,
    pub distortion_model: Option<DistortionModel>,
    pub picture_shape_options: PictureShapeOptions,
    pub dewarping_options: DewarpingOptions,
    pub dpi: DPI,
    pub color_params: ColorParams,
    pub splitting: Splitting,
}

pub open spec fn wf_out_params(v: Params) -> bool {
    &&& wf_decimal(v.despeckle_level)
    &&& (match v.distortion_model {
        Option::None => true,
        Option::Some(m) => wf_distortion_model(m),
    })
    &&& wf_dewarping_options(v.dewarping_options)
    &&& wf_dpi(v.dpi)
    &&& wf_color_params(v.color_params)
}

pub open spec fn ser_out_params(v: Params) -> Seq<char> {
    "<params blackOnWhite=\""@ + ser_bool(v.black_on_white) + "\" depthPerception=\""@
        + u64_dec(v.depth_perception as int) + "\" despeckleLevel=\""@ + ser_decimal(
        v.despeckle_level,
    ) + "\">"@ + (match v.distortion_model {
        Option::None => Seq::<char>::empty(),
        Option::Some(m) => ser_distortion_model(m),
    }) + ser_picture_shape_options(v.picture_shape_options) + ser_dewarping_options(
        v.dewarping_options,
    ) + ser_dpi(v.dpi) + ser_color_params(v.color_params) + ser_splitting(v.splitting)
        + "</params>"@
}

#[verifier::rlimit(100)]
#[verifier::spinoff_prover]
pub fn write_out_params(out: &mut String, v: &Params)
    requires
        wf_out_params(*v),
    ensures
        final(out)@ == old(out)@ + ser_out_params(*v),
{
    out.append("<params blackOnWhite=\"");
    write_bool(out, v.black_on_white);
    out.append("\" depthPerception=\"");
    write_u64(out, v.depth_perception as u64);
    out.append("\" despeckleLevel=\"");
    write_decimal(out, &v.despeckle_level);
    out.append("\">");
    match &v.distortion_model {
        Option::None => {},
        Option::Some(m) => write_distortion_model(out, m),
    }
    write_picture_shape_options(out, &v.picture_shape_options);
    write_dewarping_options(out, &v.dewarping_options);
    write_dpi(out, &v.dpi);
    write_color_params(out, &v.color_params);
    write_splitting(out, &v.splitting);
    out.append("</params>");
    proof {
        assert(out@ =~= old(out)@ + ser_out_params(*v));
    }
}

#[verifier::rlimit(100)]
#[verifier::spinoff_prover]
pub fn parse_out_params(s: &str, i: usize) -> (r: Result<(Params, usize), ParseError>)
    requires
        i <= s@.len(),
    ensures
        match r {
            Ok((v, j)) => {
                &&& i < j <= s@.len()
                &&& wf_out_params(v)
                &&& s@.subrange(i as int, j as int) == ser_out_params(v)
            },
            Err(_) => true,
        },
{
    let j1 = expect(s, i, "<params blackOnWhite=\"")?;
    let (bw, j2) = parse_bool(s, j1)?;
    let j3 = expect(s, j2, "\" depthPerception=\"")?;
    let (dp, j4) = parse_u64(s, j3, 0xffffffff)?;
    let j5 = expect(s, j4, "\" despeckleLevel=\"")?;
    let (dl, j6) = parse_decimal(s, j5)?;
    let j7 = expect(s, j6, "\">")?;
    let (dm, j8): (Option<DistortionModel>, usize) = match parse_distortion_model(s, j7) {
        Ok((m, j8)) => (Option::Some(m), j8),
        Err(_) => (Option::None, j7),
    };
    let (pso, j9) = parse_picture_shape_options(s, j8)?;
    let (dwo, j10) = parse_dewarping_options(s, j9)?;
    let (dpi, j11) = parse_dpi(s, j10)?;
    let (cp, j12) = parse_color_params(s, j11)?;
    let (sp, j13) = parse_splitting(s, j12)?;
    let j14 = expect(s, j13, "</params>")?;
    let v = Params {
        black_on_white: bw,
        depth_perception: dp as u32,
        despeckle_level: dl,
        distortion_model: dm,
        picture_shape_options: pso,
        dewarping_options: dwo,
        dpi,
        color_params: cp,
        splitting: sp,
    };
    proof {
        subrange_join(s@, i as int, j1 as int, j2 as int);
        subrange_join(s@, i as int, j2 as int, j3 as int);
        subrange_join(s@, i as int, j3 as int, j4 as int);
        subrange_join(s@, i as int, j4 as int, j5 as int);
        subrange_join(s@, i as int, j5 as int, j6 as int);
        subrange_join(s@, i as int, j6 as int, j7 as int);
        subrange_join(s@, i as int, j7 as int, j8 as int);
        subrange_join(s@, i as int, j8 as int, j9 as int);
        subrange_join(s@, i as int, j9 as int, j10 as int);
        subrange_join(s@, i as int, j10 as int, j11 as int);
        subrange_join(s@, i as int, j11 as int, j12 as int);
        subrange_join(s@, i as int, j12 as int, j13 as int);
        subrange_join(s@, i as int, j13 as int, j14 as int);
        assert(s@.subrange(i as int, j14 as int) =~= ser_out_params(v));
    }
    Ok((v, j14))
}

} // verus!
