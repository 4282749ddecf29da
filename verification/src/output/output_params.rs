//! The record of an already-rendered output artifact: the exact settings
//! it was produced with and the files that came out of the render.

use vstd::prelude::*;

use crate::common::{parse_dpi, parse_int_size, ser_dpi, ser_int_size, wf_dpi, write_dpi,
    write_int_size, IntSize, DPI};
use crate::decimal::{Decimal, decimal_stop, parse_decimal, ser_decimal, wf_decimal, write_decimal};
use crate::filters::common::{
    parse_outline, parse_pos_rect, ser_outline, ser_pos_rect, wf_outline, wf_pos_rect,
    write_outline, write_pos_rect, Outline, PositiveRegionRect,
};
use crate::numbers::{digit_stop, i64_dec, parse_i64, parse_u64, u64_dec, write_i64, write_u64};
use crate::output::color_params::{
    parse_color_params, ser_color_params, wf_color_params, write_color_params, ColorParams,
};
use crate::output::dewarping_options::{
    parse_dewarping_options, ser_dewarping_options, wf_dewarping_options, write_dewarping_options,
    DewarpingOptions,
};
use crate::output::distortion_model::{
    parse_distortion_model, ser_distortion_model, wf_distortion_model, write_distortion_model,
    DistortionModel,
};
use crate::output::picture_shape_options::{
    parse_picture_shape_options, ser_picture_shape_options, write_picture_shape_options,
    PictureShapeOptions,
};
use crate::output::processing_params::{
    parse_processing_params, ser_processing_params, write_processing_params, ProcessingParams,
};
use crate::output::splitting::{parse_splitting, ser_splitting, write_splitting, Splitting};
use crate::output::zones::{
    parse_fill_zones, parse_zones, ser_fill_zones, ser_zones, wf_zones, write_fill_zones,
    write_zones, FillZones, Zones,
};
use crate::wire::{ParseError, expect, parse_bool, ser_bool, starts_split, starts_with_at, subrange_join, write_bool};

verus! {

/// A rendered artifact file, identified only by its modification time in
/// seconds since the epoch and its byte size.
#[derive(Clone, Copy, Debug, PartialEq, Eq, Structural)]
pub struct File {
    pub mtime: i64,
    pub size: u64,
}

/// The linear part of the transform the render applied.
#[derive(Debug, Clone)]
pub struct PartialTransform {
    pub m11: Decimal,
    pub m12: Decimal,
    pub m21: Decimal,
    pub m22: Decimal,
}

/// The settings snapshot the render was produced with.
#[derive(Debug, Clone)]
pub struct Image {
    pub black_on_white: bool,
    pub depth_perception: u32,
    pub despeckle_level: Decimal,
    pub size: IntSize,
    pub content_rect: PositiveRegionRect,
    pub crop_area: Outline,
    pub partial_transform: PartialTransform,
    pub dpi: DPI,
    pub color_params: ColorParams,
    pub splitting: Splitting,
    pub picture_shape_options: PictureShapeOptions,
    pub distortion_model: Option<DistortionModel>,
    pub dewarping_options: DewarpingOptions,
    pub processing_params: ProcessingParams,
}

#[derive(Debug, Clone)]
pub struct OutputParams {
    pub image: Image,
    pub source_file: File,
    pub file: File,
    pub foreground_file: Option<File>,
    pub background_file: Option<File>,
    pub automask: Option<File>,
    pub speckles: Option<File>,
    pub zones: Zones,
    pub fill_zones: FillZones,
}

pub open spec fn wf_partial_transform(v: PartialTransform) -> bool {
    wf_decimal(v.m11) && wf_decimal(v.m12) && wf_decimal(v.m21) && wf_decimal(v.m22)
}

pub open spec fn wf_op_file(v: File) -> bool {
    v.mtime > i64::MIN
}

pub open spec fn wf_op_image(v: Image) -> bool {
    &&& wf_decimal(v.despeckle_level)
    &&& wf_pos_rect(v.content_rect)
    &&& wf_outline(v.crop_area)
    &&& wf_partial_transform(v.partial_transform)
    &&& wf_dpi(v.dpi)
    &&& wf_color_params(v.color_params)
    &&& (match v.distortion_model {
        Option::None => true,
        Option::Some(m) => wf_distortion_model(m),
    })
    &&& wf_dewarping_options(v.dewarping_options)
}

pub open spec fn wf_output_params(v: OutputParams) -> bool {
    &&& wf_op_image(v.image)
    &&& wf_op_file(v.source_file)
    &&& wf_op_file(v.file)
    &&& (match v.foreground_file {
        Option::None => true,
        Option::Some(f) => wf_op_file(f),
    })
    &&& (match v.background_file {
        Option::None => true,
        Option::Some(f) => wf_op_file(f),
    })
    &&& (match v.automask {
        Option::None => true,
        Option::Some(f) => wf_op_file(f),
    })
    &&& (match v.speckles {
        Option::None => true,
        Option::Some(f) => wf_op_file(f),
    })
    &&& wf_zones(v.zones)
}

/// `<name mtime="..." size="..."/>`.
pub open spec fn ser_file_entry(name: Seq<char>, v: File) -> Seq<char> {
    seq!['<'] + name + " mtime=\""@ + i64_dec(v.mtime as int) + "\" size=\""@ + u64_dec(
        v.size as int,
    ) + "\"/>"@
}

pub fn write_file_entry(out: &mut String, name: &str, v: &File)
    requires
        wf_op_file(*v),
    ensures
        final(out)@ == old(out)@ + ser_file_entry(name@, *v),
{
    out.append("<");
    out.append(name);
    out.append(" mtime=\"");
    write_i64(out, v.mtime);
    out.append("\" size=\"");
    write_u64(out, v.size);
    out.append("\"/>");
    proof {
        reveal_strlit("<");
        assert(out@ =~= old(out)@ + ser_file_entry(name@, *v));
    }
}

#[verifier::rlimit(100)]
#[verifier::spinoff_prover]
pub fn parse_file_entry(s: &str, i: usize, name: &str) -> (r: Result<(File, usize), ParseError>)
    requires
        i <= s@.len(),
    ensures
        match r {
            Ok((v, j)) => {
                &&& i < j <= s@.len()
                &&& wf_op_file(v)
                &&& s@.subrange(i as int, j as int) == ser_file_entry(name@, v)
            },
            Err(_) => true,
        },
        forall|w: File|
            #![trigger starts_with_at(s@, i as int, ser_file_entry(name@, w))]
            wf_op_file(w) && starts_with_at(s@, i as int, ser_file_entry(name@, w)) ==> r is Ok && (
            r->Ok_0).1 == i + ser_file_entry(name@, w).len(),
{
    proof {
        reveal_strlit(" mtime=\"");
        reveal_strlit("\" size=\"");
        reveal_strlit("\"/>");
        reveal_strlit("<");
        assert("<"@ =~= seq!['<']);
        assert forall|w: File|
            wf_op_file(w) && #[trigger] starts_with_at(s@, i as int, ser_file_entry(name@, w)) implies {
            let a0 = seq!['<'];
            let a1 = a0 + name@;
            let a2 = a1 + " mtime=\""@;
            let a3 = a2 + i64_dec(w.mtime as int);
            let a4 = a3 + "\" size=\""@;
            let a5 = a4 + u64_dec(w.size as int);
            let a6 = a5 + "\"/>"@;
            &&& starts_with_at(s@, i as int, seq!['<'])
            &&& starts_with_at(s@, i + a0.len(), name@)
            &&& starts_with_at(s@, i + a1.len(), " mtime=\""@)
            &&& starts_with_at(s@, i + a2.len(), i64_dec(w.mtime as int))
            &&& digit_stop(s@, i + a3.len())
            &&& starts_with_at(s@, i + a3.len(), "\" size=\""@)
            &&& starts_with_at(s@, i + a4.len(), u64_dec(w.size as int))
            &&& digit_stop(s@, i + a5.len())
            &&& starts_with_at(s@, i + a5.len(), "\"/>"@)
        } by {
            let a0 = seq!['<'];
            let a1 = a0 + name@;
            let a2 = a1 + " mtime=\""@;
            let a3 = a2 + i64_dec(w.mtime as int);
            let a4 = a3 + "\" size=\""@;
            let a5 = a4 + u64_dec(w.size as int);
            let a6 = a5 + "\"/>"@;
            starts_split(s@, i as int, a5, "\"/>"@);
            starts_split(s@, i as int, a4, u64_dec(w.size as int));
            starts_split(s@, i as int, a3, "\" size=\""@);
            starts_split(s@, i as int, a2, i64_dec(w.mtime as int));
            starts_split(s@, i as int, a1, " mtime=\""@);
            starts_split(s@, i as int, a0, name@);
            assert(s@.subrange(i + a3.len(), i + a3.len() + 8)[0] == s@[i + a3.len()]);
            assert(s@.subrange(i + a5.len(), i + a5.len() + 3)[0] == s@[i + a5.len()]);
        }
    }
    let j1 = expect(s, i, "<")?;
    let j2 = expect(s, j1, name)?;
    let j3 = expect(s, j2, " mtime=\"")?;
    let (mt, j4) = parse_i64(s, j3, -9223372036854775807, 9223372036854775807)?;
    let j5 = expect(s, j4, "\" size=\"")?;
    let (sz, j6) = parse_u64(s, j5, 0xffffffffffffffff)?;
    let j7 = expect(s, j6, "\"/>")?;
    let v = File { mtime: mt, size: sz };
    proof {
        reveal_strlit("<");
        subrange_join(s@, i as int, j1 as int, j2 as int);
        subrange_join(s@, i as int, j2 as int, j3 as int);
        subrange_join(s@, i as int, j3 as int, j4 as int);
        subrange_join(s@, i as int, j4 as int, j5 as int);
        subrange_join(s@, i as int, j5 as int, j6 as int);
        subrange_join(s@, i as int, j6 as int, j7 as int);
        assert(s@.subrange(i as int, j7 as int) =~= ser_file_entry(name@, v));
    }
    Ok((v, j7))
}

pub open spec fn ser_partial_transform(v: PartialTransform) -> Seq<char> {
    "<partial-xform><m11>"@ + ser_decimal(v.m11) + "</m11><m12>"@ + ser_decimal(v.m12)
        + "</m12><m21>"@ + ser_decimal(v.m21) + "</m21><m22>"@ + ser_decimal(v.m22)
        + "</m22></partial-xform>"@
}

#[verifier::rlimit(60)]
pub fn write_partial_transform(out: &mut String, v: &PartialTransform)
    requires
        wf_partial_transform(*v),
    ensures
        final(out)@ == old(out)@ + ser_partial_transform(*v),
{
    out.append("<partial-xform><m11>");
    write_decimal(out, &v.m11);
    out.append("</m11><m12>");
    write_decimal(out, &v.m12);
    out.append("</m12><m21>");
    write_decimal(out, &v.m21);
    out.append("</m21><m22>");
    write_decimal(out, &v.m22);
    out.append("</m22></partial-xform>");
    proof {
        assert(out@ =~= old(out)@ + ser_partial_transform(*v));
    }
}

#[verifier::rlimit(100)]
#[verifier::spinoff_prover]
pub fn parse_partial_transform(s: &str, i: usize) -> (r: Result<
    (PartialTransform, usize),
    ParseError,
>)
    requires
        i <= s@.len(),
    ensures
        match r {
            Ok((v, j)) => {
                &&& i < j <= s@.len()
                &&& wf_partial_transform(v)
                &&& s@.subrange(i as int, j as int) == ser_partial_transform(v)
            },
            Err(_) => true,
        },
        forall|w: PartialTransform|
            #![trigger starts_with_at(s@, i as int, ser_partial_transform(w))]
            wf_partial_transform(w) && starts_with_at(s@, i as int, ser_partial_transform(w)) ==> r is Ok && (
            r->Ok_0).1 == i + ser_partial_transform(w).len(),
{
    proof {
        reveal_strlit("<partial-xform><m11>");
        reveal_strlit("</m11><m12>");
        reveal_strlit("</m12><m21>");
        reveal_strlit("</m21><m22>");
        reveal_strlit("</m22></partial-xform>");
        assert forall|w: PartialTransform|
            wf_partial_transform(w) && #[trigger] starts_with_at(s@, i as int, ser_partial_transform(w)) implies {
            let a0 = "<partial-xform><m11>"@;
            let a1 = a0 + ser_decimal(w.m11);
            let a2 = a1 + "</m11><m12>"@;
            let a3 = a2 + ser_decimal(w.m12);
            let a4 = a3 + "</m12><m21>"@;
            let a5 = a4 + ser_decimal(w.m21);
            let a6 = a5 + "</m21><m22>"@;
            let a7 = a6 + ser_decimal(w.m22);
            let a8 = a7 + "</m22></partial-xform>"@;
            &&& starts_with_at(s@, i as int, "<partial-xform><m11>"@)
            &&& starts_with_at(s@, i + a0.len(), ser_decimal(w.m11))
            &&& decimal_stop(s@, i + a1.len())
            &&& starts_with_at(s@, i + a1.len(), "</m11><m12>"@)
            &&& starts_with_at(s@, i + a2.len(), ser_decimal(w.m12))
            &&& decimal_stop(s@, i + a3.len())
            &&& starts_with_at(s@, i + a3.len(), "</m12><m21>"@)
            &&& starts_with_at(s@, i + a4.len(), ser_decimal(w.m21))
            &&& decimal_stop(s@, i + a5.len())
            &&& starts_with_at(s@, i + a5.len(), "</m21><m22>"@)
            &&& starts_with_at(s@, i + a6.len(), ser_decimal(w.m22))
            &&& decimal_stop(s@, i + a7.len())
            &&& starts_with_at(s@, i + a7.len(), "</m22></partial-xform>"@)
        } by {
            let a0 = "<partial-xform><m11>"@;
            let a1 = a0 + ser_decimal(w.m11);
            let a2 = a1 + "</m11><m12>"@;
            let a3 = a2 + ser_decimal(w.m12);
            let a4 = a3 + "</m12><m21>"@;
            let a5 = a4 + ser_decimal(w.m21);
            let a6 = a5 + "</m21><m22>"@;
            let a7 = a6 + ser_decimal(w.m22);
            let a8 = a7 + "</m22></partial-xform>"@;
            starts_split(s@, i as int, a7, "</m22></partial-xform>"@);
            starts_split(s@, i as int, a6, ser_decimal(w.m22));
            starts_split(s@, i as int, a5, "</m21><m22>"@);
            starts_split(s@, i as int, a4, ser_decimal(w.m21));
            starts_split(s@, i as int, a3, "</m12><m21>"@);
            starts_split(s@, i as int, a2, ser_decimal(w.m12));
            starts_split(s@, i as int, a1, "</m11><m12>"@);
            starts_split(s@, i as int, a0, ser_decimal(w.m11));
            assert(s@.subrange(i + a1.len(), i + a1.len() + 11)[0] == s@[i + a1.len()]);
            assert(s@.subrange(i + a3.len(), i + a3.len() + 11)[0] == s@[i + a3.len()]);
            assert(s@.subrange(i + a5.len(), i + a5.len() + 11)[0] == s@[i + a5.len()]);
            assert(s@.subrange(i + a7.len(), i + a7.len() + 22)[0] == s@[i + a7.len()]);
        }
    }
    let j1 = expect(s, i, "<partial-xform><m11>")?;
    let (m11, j2) = parse_decimal(s, j1)?;
    let j3 = expect(s, j2, "</m11><m12>")?;
    let (m12, j4) = parse_decimal(s, j3)?;
    let j5 = expect(s, j4, "</m12><m21>")?;
    let (m21, j6) = parse_decimal(s, j5)?;
    let j7 = expect(s, j6, "</m21><m22>")?;
    let (m22, j8) = parse_decimal(s, j7)?;
    let j9 = expect(s, j8, "</m22></partial-xform>")?;
    let v = PartialTransform { m11, m12, m21, m22 };
    proof {
        subrange_join(s@, i as int, j1 as int, j2 as int);
        subrange_join(s@, i as int, j2 as int, j3 as int);
        subrange_join(s@, i as int, j3 as int, j4 as int);
        subrange_join(s@, i as int, j4 as int, j5 as int);
        subrange_join(s@, i as int, j5 as int, j6 as int);
        subrange_join(s@, i as int, j6 as int, j7 as int);
        subrange_join(s@, i as int, j7 as int, j8 as int);
        subrange_join(s@, i as int, j8 as int, j9 as int);
        assert(s@.subrange(i as int, j9 as int) =~= ser_partial_transform(v));
    }
    Ok((v, j9))
}

/// The attribute head of the settings snapshot.
pub open spec fn ser_op_image_head(v: Image) -> Seq<char> {
    "<image blackOnWhite=\""@ + ser_bool(v.black_on_white) + "\" depthPerception=\""@
        + u64_dec(v.depth_perception as int) + "\" despeckleLevel=\""@ + ser_decimal(
        v.despeckle_level,
    ) + "\">"@ + ser_int_size("size"@, v.size) + ser_pos_rect("content-rect"@, v.content_rect)
        + ser_outline("crop-area"@, v.crop_area) + ser_partial_transform(v.partial_transform)
}

/// The children after the transform.
pub open spec fn ser_op_image_mid(v: Image) -> Seq<char> {
    ser_dpi(v.dpi) + ser_color_params(v.color_params) + ser_splitting(v.splitting)
        + ser_picture_shape_options(v.picture_shape_options)
}

pub open spec fn ser_op_image_last(v: Image) -> Seq<char> {
    (match v.distortion_model {
        Option::None => Seq::<char>::empty(),
        Option::Some(m) => ser_distortion_model(m),
    }) + ser_dewarping_options(v.dewarping_options) + ser_processing_params(v.processing_params)
        + "</image>"@
}

pub open spec fn ser_op_image_tail(v: Image) -> Seq<char> {
    ser_op_image_mid(v) + ser_op_image_last(v)
}

pub open spec fn ser_op_image(v: Image) -> Seq<char> {
    ser_op_image_head(v) + ser_op_image_tail(v)
}

#[verifier::rlimit(100)]
#[verifier::spinoff_prover]
pub fn write_op_image(out: &mut String, v: &Image)
    requires
        wf_op_image(*v),
    ensures
        final(out)@ == old(out)@ + ser_op_image(*v),
{
    out.append("<image blackOnWhite=\"");
    write_bool(out, v.black_on_white);
    out.append("\" depthPerception=\"");
    write_u64(out, v.depth_perception as u64);
    out.append("\" despeckleLevel=\"");
    write_decimal(out, &v.despeckle_level);
    out.append("\">");
    write_int_size(out, "size", &v.size);
    write_pos_rect(out, "content-rect", &v.content_rect);
    write_outline(out, "crop-area", &v.crop_area);
    write_partial_transform(out, &v.partial_transform);
    proof {
        assert(out@ =~= old(out)@ + ser_op_image_head(*v));
    }
    let ghost mid = out@;
    write_dpi(out, &v.dpi);
    write_color_params(out, &v.color_params);
    write_splitting(out, &v.splitting);
    write_picture_shape_options(out, &v.picture_shape_options);
    proof {
        assert(out@ =~= mid + ser_op_image_mid(*v));
    }
    let ghost mid2 = out@;
    match &v.distortion_model {
        Option::None => {},
        Option::Some(m) => write_distortion_model(out, m),
    }
    write_dewarping_options(out, &v.dewarping_options);
    write_processing_params(out, &v.processing_params);
    out.append("</image>");
    proof {
        assert(out@ =~= mid2 + ser_op_image_last(*v));
        assert(out@ =~= mid + ser_op_image_tail(*v));
        assert(out@ =~= old(out)@ + ser_op_image(*v));
    }
}

#[verifier::rlimit(100)]
#[verifier::spinoff_prover]
pub fn parse_op_image(s: &str, i: usize) -> (r: Result<(Image, usize), ParseError>)
    requires
        i <= s@.len(),
    ensures
        match r {
            Ok((v, j)) => {
                &&& i < j <= s@.len()
                &&& wf_op_image(v)
                &&& s@.subrange(i as int, j as int) == ser_op_image(v)
            },
            Err(_) => true,
        },
{
    let j1 = expect(s, i, "<image blackOnWhite=\"")?;
    let (bw, j2) = parse_bool(s, j1)?;
    let j3 = expect(s, j2, "\" depthPerception=\"")?;
    let (dp, j4) = parse_u64(s, j3, 0xffffffff)?;
    let j5 = expect(s, j4, "\" despeckleLevel=\"")?;
    let (dl, j6) = parse_decimal(s, j5)?;
    let j7 = expect(s, j6, "\">")?;
    let (size, j8) = parse_int_size(s, j7, "size")?;
    let (cr, j9) = parse_pos_rect(s, j8, "content-rect")?;
    let (ca, j10) = parse_outline(s, j9, "crop-area")?;
    let (pt, j11) = parse_partial_transform(s, j10)?;
    proof {
        subrange_join(s@, i as int, j1 as int, j2 as int);
        subrange_join(s@, i as int, j2 as int, j3 as int);
        subrange_join(s@, i as int, j3 as int, j4 as int);
        subrange_join(s@, i as int, j4 as int, j5 as int);
        subrange_join(s@, i as int, j5 as int, j6 as int);
        subrange_join(s@, i as int, j6 as int, j7 as int);
        subrange_join(s@, i as int, j7 as int, j8 as int);
        subrange_join(s@, i as int, j8 as int, j9 as int);
        subrange_join(s@, i as int, j9 as int, j10 as int);
        subrange_join(s@, i as int, j10 as int, j11 as int);
    }
    let (dpi, j12) = parse_dpi(s, j11)?;
    let (cp, j13) = parse_color_params(s, j12)?;
    let (sp, j14) = parse_splitting(s, j13)?;
    let (pso, j15) = parse_picture_shape_options(s, j14)?;
    let (dm, j16): (Option<DistortionModel>, usize) = match parse_distortion_model(s, j15) {
        Ok((m, j16)) => (Option::Some(m), j16),
        Err(_) => (Option::None, j15),
    };
    let (dwo, j17) = parse_dewarping_options(s, j16)?;
    let (pp, j18) = parse_processing_params(s, j17)?;
    let j19 = expect(s, j18, "</image>")?;
    let v = Image {
        black_on_white: bw,
        depth_perception: dp as u32,
        despeckle_level: dl,
        size,
        content_rect: cr,
        crop_area: ca,
        partial_transform: pt,
        dpi,
        color_params: cp,
        splitting: sp,
        picture_shape_options: pso,
        distortion_model: dm,
        dewarping_options: dwo,
        processing_params: pp,
    };
    proof {
        assert(s@.subrange(i as int, j11 as int) =~= ser_op_image_head(v));
        subrange_join(s@, j11 as int, j12 as int, j13 as int);
        subrange_join(s@, j11 as int, j13 as int, j14 as int);
        subrange_join(s@, j11 as int, j14 as int, j15 as int);
        assert(s@.subrange(j11 as int, j15 as int) =~= ser_op_image_mid(v));
        subrange_join(s@, j15 as int, j16 as int, j17 as int);
        subrange_join(s@, j15 as int, j17 as int, j18 as int);
        subrange_join(s@, j15 as int, j18 as int, j19 as int);
        assert(s@.subrange(j15 as int, j19 as int) =~= ser_op_image_last(v));
        subrange_join(s@, j11 as int, j15 as int, j19 as int);
        assert(s@.subrange(j11 as int, j19 as int) =~= ser_op_image_tail(v));
        subrange_join(s@, i as int, j11 as int, j19 as int);
        assert(s@.subrange(i as int, j19 as int) =~= ser_op_image(v));
    }
    Ok((v, j19))
}

/// The optional artifact entry for `name`, or nothing.
pub open spec fn ser_file_opt(name: Seq<char>, v: Option<File>) -> Seq<char> {
    match v {
        Option::None => Seq::<char>::empty(),
        Option::Some(f) => ser_file_entry(name, f),
    }
}

/// Try the optional artifact entry for `name`.
pub fn parse_file_opt(s: &str, i: usize, name: &str) -> (r: (Option<File>, usize))
    requires
        i <= s@.len(),
    ensures
        ({
            let (v, j) = r;
            &&& i <= j <= s@.len()
            &&& (match v {
                Option::None => true,
                Option::Some(f) => wf_op_file(f),
            })
            &&& s@.subrange(i as int, j as int) == ser_file_opt(name@, v)
        }),
{
    match parse_file_entry(s, i, name) {
        Ok((f, j)) => (Option::Some(f), j),
        Err(_) => {
            proof {
                assert(s@.subrange(i as int, i as int) =~= Seq::<char>::empty());
            }
            (Option::None, i)
        },
    }
}

pub fn write_file_opt(out: &mut String, name: &str, v: &Option<File>)
    requires
        match v {
            Option::None => true,
            Option::Some(f) => wf_op_file(*f),
        },
    ensures
        final(out)@ == old(out)@ + ser_file_opt(name@, *v),
{
    match v {
        Option::None => {
            proof {
                assert(out@ =~= old(out)@ + ser_file_opt(name@, *v));
            }
        },
        Option::Some(f) => write_file_entry(out, name, f),
    }
}

pub open spec fn ser_output_params_head(v: OutputParams) -> Seq<char> {
    "<output-params>"@ + ser_op_image(v.image) + ser_file_entry("source_file"@, v.source_file)
        + ser_file_entry("file"@, v.file)
}

pub open spec fn ser_output_params_opts(v: OutputParams) -> Seq<char> {
    ser_file_opt("foreground_file"@, v.foreground_file) + ser_file_opt(
        "background_file"@,
        v.background_file,
    ) + ser_file_opt("automask"@, v.automask) + ser_file_opt("speckles"@, v.speckles)
}

pub open spec fn ser_output_params_tail(v: OutputParams) -> Seq<char> {
    ser_output_params_opts(v) + ser_zones(v.zones) + ser_fill_zones(v.fill_zones)
        + "</output-params>"@
}

pub open spec fn ser_output_params(v: OutputParams) -> Seq<char> {
    ser_output_params_head(v) + ser_output_params_tail(v)
}

#[verifier::rlimit(100)]
#[verifier::spinoff_prover]
pub fn write_output_params(out: &mut String, v: &OutputParams)
    requires
        wf_output_params(*v),
    ensures
        final(out)@ == old(out)@ + ser_output_params(*v),
{
    out.append("<output-params>");
    write_op_image(out, &v.image);
    write_file_entry(out, "source_file", &v.source_file);
    write_file_entry(out, "file", &v.file);
    proof {
        assert(out@ =~= old(out)@ + ser_output_params_head(*v));
    }
    let ghost mid = out@;
    write_file_opt(out, "foreground_file", &v.foreground_file);
    write_file_opt(out, "background_file", &v.background_file);
    write_file_opt(out, "automask", &v.automask);
    write_file_opt(out, "speckles", &v.speckles);
    proof {
        assert(out@ =~= mid + ser_output_params_opts(*v));
    }
    let ghost mid2 = out@;
    write_zones(out, &v.zones);
    write_fill_zones(out, &v.fill_zones);
    out.append("</output-params>");
    proof {
        assert(out@ =~= mid2 + ser_zones(v.zones) + ser_fill_zones(v.fill_zones)
            + "</output-params>"@);
        assert(out@ =~= mid + ser_output_params_tail(*v));
        assert(out@ =~= old(out)@ + ser_output_params(*v));
    }
}

#[verifier::rlimit(100)]
#[verifier::spinoff_prover]
pub fn parse_output_params(s: &str, i: usize) -> (r: Result<(OutputParams, usize), ParseError>)
    requires
        i <= s@.len(),
    ensures
        match r {
            Ok((v, j)) => {
                &&& i < j <= s@.len()
                &&& wf_output_params(v)
                &&& s@.subrange(i as int, j as int) == ser_output_params(v)
            },
            Err(_) => true,
        },
{
    let j1 = expect(s, i, "<output-params>")?;
    let (image, j2) = parse_op_image(s, j1)?;
    let (sf, j3) = parse_file_entry(s, j2, "source_file")?;
    let (fl, j4) = parse_file_entry(s, j3, "file")?;
    let (fg, j5) = parse_file_opt(s, j4, "foreground_file");
    let (bg, j6) = parse_file_opt(s, j5, "background_file");
    let (am, j7) = parse_file_opt(s, j6, "automask");
    let (sk, j8) = parse_file_opt(s, j7, "speckles");
    let (zs, j9) = parse_zones(s, j8)?;
    let (fz, j10) = parse_fill_zones(s, j9)?;
    let j11 = expect(s, j10, "</output-params>")?;
    let v = OutputParams {
        image,
        source_file: sf,
        file: fl,
        foreground_file: fg,
        background_file: bg,
        automask: am,
        speckles: sk,
        zones: zs,
        fill_zones: fz,
    };
    proof {
        subrange_join(s@, i as int, j1 as int, j2 as int);
        subrange_join(s@, i as int, j2 as int, j3 as int);
        subrange_join(s@, i as int, j3 as int, j4 as int);
        assert(s@.subrange(i as int, j4 as int) =~= ser_output_params_head(v));
        subrange_join(s@, j4 as int, j5 as int, j6 as int);
        subrange_join(s@, j4 as int, j6 as int, j7 as int);
        subrange_join(s@, j4 as int, j7 as int, j8 as int);
        assert(s@.subrange(j4 as int, j8 as int) =~= ser_output_params_opts(v));
        subrange_join(s@, j8 as int, j9 as int, j10 as int);
        subrange_join(s@, j8 as int, j10 as int, j11 as int);
        assert(s@.subrange(j8 as int, j11 as int) =~= ser_zones(v.zones) + ser_fill_zones(
            v.fill_zones,
        ) + "</output-params>"@);
        subrange_join(s@, j4 as int, j8 as int, j11 as int);
        assert(s@.subrange(j4 as int, j11 as int) =~= ser_output_params_tail(v));
        subrange_join(s@, i as int, j4 as int, j11 as int);
        assert(s@.subrange(i as int, j11 as int) =~= ser_output_params(v));
    }
    Ok((v, j11))
}

} // verus!
