//! Colour-mode parameters of a rendered page: the colour/grayscale block
//! and the black/white binarization block, each independently optional.

use vstd::prelude::*;

use crate::decimal::{Decimal, decimal_stop, parse_decimal, ser_decimal, wf_decimal, write_decimal};
use crate::numbers::{digit_stop, i64_dec, parse_i64, parse_u64, u64_dec, write_i64, write_u64};
use crate::wire::{ParseError, ParseErrorKind, expect, parse_bool, ser_bool, starts_split, starts_with_at, subrange_join, write_bool};

verus! {

#[derive(Clone, Copy, Debug, PartialEq, Eq, Structural)]
pub enum ColorMode {
    BlackAndWhite,
    ColorOrGrayscale,
    Mixed,
}

#[derive(Clone, Copy, Debug, PartialEq, Eq, Structural)]
pub enum FillingColor {
    Background,
    White,
    Black,
}

#[derive(Clone, Copy, Debug, PartialEq, Eq, Structural)]
pub struct PosterizationOptions {
    pub enabled: bool,
    pub force_black_and_white: bool,
    pub level: u8,
    pub normalization_enabled: bool,
}

#[derive(Debug, Clone)]
pub struct ColorOrGrayscale {
    pub fill_margins: bool,
    pub fill_offcut: bool,
    pub filling_color: FillingColor,
    pub normalize_illumination_color: bool,
    pub posterization_options: PosterizationOptions,
}

#[derive(Clone, Copy, Debug, PartialEq, Eq, Structural)]
pub enum BinarizationMethod {
    Otsu,
    Sauvola,
    Wolf,
    EdgePlus,
    BlurDiv,
    EdgeDiv,
}

#[derive(Clone, Copy, Debug, PartialEq, Eq, Structural)]
pub struct ColorSegmenterOptions {
    pub blue_threshold_adjustment: i8,
    pub enabled: bool,
    pub green_threshold_adjustment: i8,
    pub noise_reduction: u16,
    pub red_threshold_adjustment: i8,
}

#[derive(Debug, Clone)]
pub struct BW {
    pub binarization_method: BinarizationMethod,
    pub morphological_smoothing: bool,
    pub normalize_illumination_bw: bool,
    pub sauvola_coeff: Decimal,
    pub savitzky_golay_smoothing: bool,
    pub threshold_adj: i8,
    pub window_size: u16,
    pub wolf_coeff: Decimal,
    pub wolf_lower_bound: u8,
    pub wolf_upper_bound: u8,
    pub color_segmenter_options: ColorSegmenterOptions,
}

#[derive(Debug, Clone)]
pub struct ColorParams {
    pub color_mode: ColorMode,
    pub color_or_grayscale: Option<ColorOrGrayscale>,
    pub bw: Option<BW>,
}

pub open spec fn wf_bw(v: BW) -> bool {
    wf_decimal(v.sauvola_coeff) && wf_decimal(v.wolf_coeff)
}

pub open spec fn wf_color_params(v: ColorParams) -> bool {
    match v.bw {
        Option::None => true,
        Option::Some(b) => wf_bw(b),
    }
}

pub open spec fn ser_color_mode(v: ColorMode) -> Seq<char> {
    match v {
        ColorMode::BlackAndWhite => "bw"@,
        ColorMode::ColorOrGrayscale => "colorOrGray"@,
        ColorMode::Mixed => "mixed"@,
    }
}

pub fn write_color_mode(out: &mut String, v: ColorMode)
    ensures
        final(out)@ == old(out)@ + ser_color_mode(v),
{
    match v {
        ColorMode::BlackAndWhite => out.append("bw"),
        ColorMode::ColorOrGrayscale => out.append("colorOrGray"),
        ColorMode::Mixed => out.append("mixed"),
    }
}

pub fn parse_color_mode(s: &str, i: usize) -> (r: Result<(ColorMode, usize), ParseError>)
    requires
        i <= s@.len(),
    ensures
        match r {
            Ok((v, j)) => {
                &&& i < j <= s@.len()
                &&& s@.subrange(i as int, j as int) == ser_color_mode(v)
            },
            Err(_) => true,
        },
        forall|w: ColorMode|
            #![trigger starts_with_at(s@, i as int, ser_color_mode(w))]
            starts_with_at(s@, i as int, ser_color_mode(w)) ==> r is Ok && (r->Ok_0).1 == i + ser_color_mode(
                w,
            ).len(),
{
    proof {
        reveal_strlit("bw");
        reveal_strlit("colorOrGray");
        reveal_strlit("mixed");
        assert forall|w: ColorMode| #[trigger] starts_with_at(s@, i as int, ser_color_mode(w)) implies i < s@.len() && s@[i as int] == ser_color_mode(w)[0] by {
            match w {
            ColorMode::BlackAndWhite => {
                assert(s@.subrange(i as int, i + 2)[0] == s@[i as int]);
            },
            ColorMode::ColorOrGrayscale => {
                assert(s@.subrange(i as int, i + 11)[0] == s@[i as int]);
            },
            ColorMode::Mixed => {
                assert(s@.subrange(i as int, i + 5)[0] == s@[i as int]);
            },
            }
        }
    }
    let n = s.unicode_len();
    proof {
        reveal_strlit("bw");
        reveal_strlit("colorOrGray");
        reveal_strlit("mixed");
    }
    if i == n {
        return Err(ParseError { pos: i, kind: ParseErrorKind::Unexpected });
    }
    let c = s.get_char(i);
    if c == 'b' {
        let j = expect(s, i, "bw")?;
        Ok((ColorMode::BlackAndWhite, j))
    } else if c == 'c' {
        let j = expect(s, i, "colorOrGray")?;
        Ok((ColorMode::ColorOrGrayscale, j))
    } else {
        let j = expect(s, i, "mixed")?;
        Ok((ColorMode::Mixed, j))
    }
}

pub open spec fn ser_filling_color(v: FillingColor) -> Seq<char> {
    match v {
        FillingColor::White => "white"@,
        FillingColor::Background => "background"@,
        FillingColor::Black => "black"@,
    }
}

pub fn write_filling_color(out: &mut String, v: FillingColor)
    ensures
        final(out)@ == old(out)@ + ser_filling_color(v),
{
    match v {
        FillingColor::White => out.append("white"),
        FillingColor::Background => out.append("background"),
        FillingColor::Black => out.append("black"),
    }
}

pub fn parse_filling_color(s: &str, i: usize) -> (r: Result<(FillingColor, usize), ParseError>)
    requires
        i <= s@.len(),
    ensures
        match r {
            Ok((v, j)) => {
                &&& i < j <= s@.len()
                &&& s@.subrange(i as int, j as int) == ser_filling_color(v)
            },
            Err(_) => true,
        },
        forall|w: FillingColor|
            #![trigger starts_with_at(s@, i as int, ser_filling_color(w))]
            starts_with_at(s@, i as int, ser_filling_color(w)) ==> r is Ok && (r->Ok_0).1 == i + ser_filling_color(
                w,
            ).len(),
{
    proof {
        reveal_strlit("background");
        reveal_strlit("white");
        reveal_strlit("black");
        assert forall|w: FillingColor| #[trigger] starts_with_at(s@, i as int, ser_filling_color(w)) implies i < s@.len() && s@[i as int] == ser_filling_color(w)[0] && (w is Background ==> s@[i + 1] == 'a') && (w is Black ==> s@[i + 1] == 'l') by {
            match w {
            FillingColor::Background => {
                assert(s@.subrange(i as int, i + 10)[0] == s@[i as int]);
                assert(s@.subrange(i as int, i + 10)[1] == s@[i + 1]);
            },
            FillingColor::White => {
                assert(s@.subrange(i as int, i + 5)[0] == s@[i as int]);
            },
            FillingColor::Black => {
                assert(s@.subrange(i as int, i + 5)[0] == s@[i as int]);
                assert(s@.subrange(i as int, i + 5)[1] == s@[i + 1]);
            },
            }
        }
    }
    let n = s.unicode_len();
    proof {
        reveal_strlit("white");
        reveal_strlit("background");
        reveal_strlit("black");
    }
    if i == n {
        return Err(ParseError { pos: i, kind: ParseErrorKind::Unexpected });
    }
    let c = s.get_char(i);
    if c == 'w' {
        let j = expect(s, i, "white")?;
        Ok((FillingColor::White, j))
    } else if n - i >= 2 && s.get_char(i + 1) == 'a' {
        let j = expect(s, i, "background")?;
        Ok((FillingColor::Background, j))
    } else {
        let j = expect(s, i, "black")?;
        Ok((FillingColor::Black, j))
    }
}

pub open spec fn ser_binarization_method(v: BinarizationMethod) -> Seq<char> {
    match v {
        BinarizationMethod::Otsu => "otsu"@,
        BinarizationMethod::Sauvola => "sauvola"@,
        BinarizationMethod::Wolf => "wolf"@,
        BinarizationMethod::BlurDiv => "blurdiv"@,
        BinarizationMethod::EdgePlus => "edgeplus"@,
        BinarizationMethod::EdgeDiv => "edgediv"@,
    }
}

pub fn write_binarization_method(out: &mut String, v: BinarizationMethod)
    ensures
        final(out)@ == old(out)@ + ser_binarization_method(v),
{
    match v {
        BinarizationMethod::Otsu => out.append("otsu"),
        BinarizationMethod::Sauvola => out.append("sauvola"),
        BinarizationMethod::Wolf => out.append("wolf"),
        BinarizationMethod::BlurDiv => out.append("blurdiv"),
        BinarizationMethod::EdgePlus => out.append("edgeplus"),
        BinarizationMethod::EdgeDiv => out.append("edgediv"),
    }
}

pub fn parse_binarization_method(s: &str, i: usize) -> (r: Result<(BinarizationMethod, usize), ParseError>)
    requires
        i <= s@.len(),
    ensures
        match r {
            Ok((v, j)) => {
                &&& i < j <= s@.len()
                &&& s@.subrange(i as int, j as int) == ser_binarization_method(v)
            },
            Err(_) => true,
        },
        forall|w: BinarizationMethod|
            #![trigger starts_with_at(s@, i as int, ser_binarization_method(w))]
            starts_with_at(s@, i as int, ser_binarization_method(w)) ==> r is Ok && (r->Ok_0).1 == i + ser_binarization_method(
                w,
            ).len(),
{
    proof {
        reveal_strlit("otsu");
        reveal_strlit("sauvola");
        reveal_strlit("wolf");
        reveal_strlit("edgeplus");
        reveal_strlit("blurdiv");
        reveal_strlit("edgediv");
        assert forall|w: BinarizationMethod| #[trigger] starts_with_at(s@, i as int, ser_binarization_method(w)) implies i < s@.len() && s@[i as int] == ser_binarization_method(w)[0] && (w is EdgePlus ==> s@[i + 4] == 'p') && (w is EdgeDiv ==> s@[i + 4] == 'd') by {
            match w {
            BinarizationMethod::Otsu => {
                assert(s@.subrange(i as int, i + 4)[0] == s@[i as int]);
            },
            BinarizationMethod::Sauvola => {
                assert(s@.subrange(i as int, i + 7)[0] == s@[i as int]);
            },
            BinarizationMethod::Wolf => {
                assert(s@.subrange(i as int, i + 4)[0] == s@[i as int]);
            },
            BinarizationMethod::EdgePlus => {
                assert(s@.subrange(i as int, i + 8)[0] == s@[i as int]);
                assert(s@.subrange(i as int, i + 8)[4] == s@[i + 4]);
            },
            BinarizationMethod::BlurDiv => {
                assert(s@.subrange(i as int, i + 7)[0] == s@[i as int]);
            },
            BinarizationMethod::EdgeDiv => {
                assert(s@.subrange(i as int, i + 7)[0] == s@[i as int]);
                assert(s@.subrange(i as int, i + 7)[4] == s@[i + 4]);
            },
            }
        }
    }
    let n = s.unicode_len();
    proof {
        reveal_strlit("otsu");
        reveal_strlit("sauvola");
        reveal_strlit("wolf");
        reveal_strlit("blurdiv");
        reveal_strlit("edgeplus");
        reveal_strlit("edgediv");
    }
    if i == n {
        return Err(ParseError { pos: i, kind: ParseErrorKind::Unexpected });
    }
    let c = s.get_char(i);
    if c == 'o' {
        let j = expect(s, i, "otsu")?;
        Ok((BinarizationMethod::Otsu, j))
    } else if c == 's' {
        let j = expect(s, i, "sauvola")?;
        Ok((BinarizationMethod::Sauvola, j))
    } else if c == 'w' {
        let j = expect(s, i, "wolf")?;
        Ok((BinarizationMethod::Wolf, j))
    } else if c == 'b' {
        let j = expect(s, i, "blurdiv")?;
        Ok((BinarizationMethod::BlurDiv, j))
    } else if n - i >= 5 && s.get_char(i + 4) == 'p' {
        let j = expect(s, i, "edgeplus")?;
        Ok((BinarizationMethod::EdgePlus, j))
    } else {
        let j = expect(s, i, "edgediv")?;
        Ok((BinarizationMethod::EdgeDiv, j))
    }
}

pub open spec fn ser_posterization_options(v: PosterizationOptions) -> Seq<char> {
    "<posterization-options enabled=\""@ + ser_bool(v.enabled)
        + "\" forceBlackAndWhite=\""@ + ser_bool(v.force_black_and_white) + "\" level=\""@
        + u64_dec(v.level as int) + "\" normalizationEnabled=\""@ + ser_bool(
        v.normalization_enabled,
    ) + "\"/>"@
}

pub fn write_posterization_options(out: &mut String, v: &PosterizationOptions)
    ensures
        final(out)@ == old(out)@ + ser_posterization_options(*v),
{
    out.append("<posterization-options enabled=\"");
    write_bool(out, v.enabled);
    out.append("\" forceBlackAndWhite=\"");
    write_bool(out, v.force_black_and_white);
    out.append("\" level=\"");
    write_u64(out, v.level as u64);
    out.append("\" normalizationEnabled=\"");
    write_bool(out, v.normalization_enabled);
    out.append("\"/>");
    proof {
        assert(out@ =~= old(out)@ + ser_posterization_options(*v));
    }
}

#[verifier::rlimit(100)]
#[verifier::spinoff_prover]
pub fn parse_posterization_options(s: &str, i: usize) -> (r: Result<
    (PosterizationOptions, usize),
    ParseError,
>)
    requires
        i <= s@.len(),
    ensures
        match r {
            Ok((v, j)) => {
                &&& i < j <= s@.len()
                &&& s@.subrange(i as int, j as int) == ser_posterization_options(v)
            },
            Err(_) => true,
        },
        forall|w: PosterizationOptions|
            #![trigger starts_with_at(s@, i as int, ser_posterization_options(w))]
            true && starts_with_at(s@, i as int, ser_posterization_options(w)) ==> r is Ok && (
            r->Ok_0).1 == i + ser_posterization_options(w).len(),
{
    proof {
        reveal_strlit("<posterization-options enabled=\"");
        reveal_strlit("\" forceBlackAndWhite=\"");
        reveal_strlit("\" level=\"");
        reveal_strlit("\" normalizationEnabled=\"");
        reveal_strlit("\"/>");
        assert forall|w: PosterizationOptions|
            true && #[trigger] starts_with_at(s@, i as int, ser_posterization_options(w)) implies {
            let a0 = "<posterization-options enabled=\""@;
            let a1 = a0 + ser_bool(w.enabled);
            let a2 = a1 + "\" forceBlackAndWhite=\""@;
            let a3 = a2 + ser_bool(w.force_black_and_white);
            let a4 = a3 + "\" level=\""@;
            let a5 = a4 + u64_dec(w.level as int);
            let a6 = a5 + "\" normalizationEnabled=\""@;
            let a7 = a6 + ser_bool(w.normalization_enabled);
            let a8 = a7 + "\"/>"@;
            &&& starts_with_at(s@, i as int, "<posterization-options enabled=\""@)
            &&& starts_with_at(s@, i + a0.len(), ser_bool(w.enabled))
            &&& starts_with_at(s@, i + a1.len(), "\" forceBlackAndWhite=\""@)
            &&& starts_with_at(s@, i + a2.len(), ser_bool(w.force_black_and_white))
            &&& starts_with_at(s@, i + a3.len(), "\" level=\""@)
            &&& starts_with_at(s@, i + a4.len(), u64_dec(w.level as int))
            &&& digit_stop(s@, i + a5.len())
            &&& starts_with_at(s@, i + a5.len(), "\" normalizationEnabled=\""@)
            &&& starts_with_at(s@, i + a6.len(), ser_bool(w.normalization_enabled))
            &&& starts_with_at(s@, i + a7.len(), "\"/>"@)
        } by {
            let a0 = "<posterization-options enabled=\""@;
            let a1 = a0 + ser_bool(w.enabled);
            let a2 = a1 + "\" forceBlackAndWhite=\""@;
            let a3 = a2 + ser_bool(w.force_black_and_white);
            let a4 = a3 + "\" level=\""@;
            let a5 = a4 + u64_dec(w.level as int);
            let a6 = a5 + "\" normalizationEnabled=\""@;
            let a7 = a6 + ser_bool(w.normalization_enabled);
            let a8 = a7 + "\"/>"@;
            starts_split(s@, i as int, a7, "\"/>"@);
            starts_split(s@, i as int, a6, ser_bool(w.normalization_enabled));
            starts_split(s@, i as int, a5, "\" normalizationEnabled=\""@);
            starts_split(s@, i as int, a4, u64_dec(w.level as int));
            starts_split(s@, i as int, a3, "\" level=\""@);
            starts_split(s@, i as int, a2, ser_bool(w.force_black_and_white));
            starts_split(s@, i as int, a1, "\" forceBlackAndWhite=\""@);
            starts_split(s@, i as int, a0, ser_bool(w.enabled));
            assert(s@.subrange(i + a5.len(), i + a5.len() + 24)[0] == s@[i + a5.len()]);
        }
    }
    let j1 = expect(s, i, "<posterization-options enabled=\"")?;
    let (en, j2) = parse_bool(s, j1)?;
    let j3 = expect(s, j2, "\" forceBlackAndWhite=\"")?;
    let (fb, j4) = parse_bool(s, j3)?;
    let j5 = expect(s, j4, "\" level=\"")?;
    let (lv, j6) = parse_u64(s, j5, 255)?;
    let j7 = expect(s, j6, "\" normalizationEnabled=\"")?;
    let (ne, j8) = parse_bool(s, j7)?;
    let j9 = expect(s, j8, "\"/>")?;
    let v = PosterizationOptions {
        enabled: en,
        force_black_and_white: fb,
        level: lv as u8,
        normalization_enabled: ne,
    };
    proof {
        subrange_join(s@, i as int, j1 as int, j2 as int);
        subrange_join(s@, i as int, j2 as int, j3 as int);
        subrange_join(s@, i as int, j3 as int, j4 as int);
        subrange_join(s@, i as int, j4 as int, j5 as int);
        subrange_join(s@, i as int, j5 as int, j6 as int);
        subrange_join(s@, i as int, j6 as int, j7 as int);
        subrange_join(s@, i as int, j7 as int, j8 as int);
        subrange_join(s@, i as int, j8 as int, j9 as int);
        assert(s@.subrange(i as int, j9 as int) =~= ser_posterization_options(v));
    }
    Ok((v, j9))
}

pub open spec fn ser_color_or_grayscale(v: ColorOrGrayscale) -> Seq<char> {
    "<color-or-grayscale fillMargins=\""@ + ser_bool(v.fill_margins) + "\" fillOffcut=\""@
        + ser_bool(v.fill_offcut) + "\" fillingColor=\""@ + ser_filling_color(v.filling_color)
        + "\" normalizeIlluminationColor=\""@ + ser_bool(v.normalize_illumination_color)
        + "\">"@ + ser_posterization_options(v.posterization_options) + "</color-or-grayscale>"@
}

#[verifier::rlimit(100)]
#[verifier::spinoff_prover]
pub fn write_color_or_grayscale(out: &mut String, v: &ColorOrGrayscale)
    ensures
        final(out)@ == old(out)@ + ser_color_or_grayscale(*v),
{
    out.append("<color-or-grayscale fillMargins=\"");
    write_bool(out, v.fill_margins);
    out.append("\" fillOffcut=\"");
    write_bool(out, v.fill_offcut);
    out.append("\" fillingColor=\"");
    write_filling_color(out, v.filling_color);
    out.append("\" normalizeIlluminationColor=\"");
    write_bool(out, v.normalize_illumination_color);
    out.append("\">");
    write_posterization_options(out, &v.posterization_options);
    out.append("</color-or-grayscale>");
    proof {
        assert(out@ =~= old(out)@ + ser_color_or_grayscale(*v));
    }
}

#[verifier::rlimit(100)]
#[verifier::spinoff_prover]
pub fn parse_color_or_grayscale(s: &str, i: usize) -> (r: Result<
    (ColorOrGrayscale, usize),
    ParseError,
>)
    requires
        i <= s@.len(),
    ensures
        match r {
            Ok((v, j)) => {
                &&& i < j <= s@.len()
                &&& s@.subrange(i as int, j as int) == ser_color_or_grayscale(v)
            },
            Err(_) => true,
        },
        forall|w: ColorOrGrayscale|
            #![trigger starts_with_at(s@, i as int, ser_color_or_grayscale(w))]
            true && starts_with_at(s@, i as int, ser_color_or_grayscale(w)) ==> r is Ok && (
            r->Ok_0).1 == i + ser_color_or_grayscale(w).len(),
{
    proof {
        reveal_strlit("<color-or-grayscale fillMargins=\"");
        reveal_strlit("\" fillOffcut=\"");
        reveal_strlit("\" fillingColor=\"");
        reveal_strlit("\" normalizeIlluminationColor=\"");
        reveal_strlit("\">");
        reveal_strlit("</color-or-grayscale>");
        assert forall|w: ColorOrGrayscale|
            true && #[trigger] starts_with_at(s@, i as int, ser_color_or_grayscale(w)) implies {
            let a0 = "<color-or-grayscale fillMargins=\""@;
            let a1 = a0 + ser_bool(w.fill_margins);
            let a2 = a1 + "\" fillOffcut=\""@;
            let a3 = a2 + ser_bool(w.fill_offcut);
            let a4 = a3 + "\" fillingColor=\""@;
            let a5 = a4 + ser_filling_color(w.filling_color);
            let a6 = a5 + "\" normalizeIlluminationColor=\""@;
            let a7 = a6 + ser_bool(w.normalize_illumination_color);
            let a8 = a7 + "\">"@;
            let a9 = a8 + ser_posterization_options(w.posterization_options);
            let a10 = a9 + "</color-or-grayscale>"@;
            &&& starts_with_at(s@, i as int, "<color-or-grayscale fillMargins=\""@)
            &&& starts_with_at(s@, i + a0.len(), ser_bool(w.fill_margins))
            &&& starts_with_at(s@, i + a1.len(), "\" fillOffcut=\""@)
            &&& starts_with_at(s@, i + a2.len(), ser_bool(w.fill_offcut))
            &&& starts_with_at(s@, i + a3.len(), "\" fillingColor=\""@)
            &&& starts_with_at(s@, i + a4.len(), ser_filling_color(w.filling_color))
            &&& starts_with_at(s@, i + a5.len(), "\" normalizeIlluminationColor=\""@)
            &&& starts_with_at(s@, i + a6.len(), ser_bool(w.normalize_illumination_color))
            &&& starts_with_at(s@, i + a7.len(), "\">"@)
            &&& starts_with_at(s@, i + a8.len(), ser_posterization_options(w.posterization_options))
            &&& starts_with_at(s@, i + a9.len(), "</color-or-grayscale>"@)
        } by {
            let a0 = "<color-or-grayscale fillMargins=\""@;
            let a1 = a0 + ser_bool(w.fill_margins);
            let a2 = a1 + "\" fillOffcut=\""@;
            let a3 = a2 + ser_bool(w.fill_offcut);
            let a4 = a3 + "\" fillingColor=\""@;
            let a5 = a4 + ser_filling_color(w.filling_color);
            let a6 = a5 + "\" normalizeIlluminationColor=\""@;
            let a7 = a6 + ser_bool(w.normalize_illumination_color);
            let a8 = a7 + "\">"@;
            let a9 = a8 + ser_posterization_options(w.posterization_options);
            let a10 = a9 + "</color-or-grayscale>"@;
            starts_split(s@, i as int, a9, "</color-or-grayscale>"@);
            starts_split(s@, i as int, a8, ser_posterization_options(w.posterization_options));
            starts_split(s@, i as int, a7, "\">"@);
            starts_split(s@, i as int, a6, ser_bool(w.normalize_illumination_color));
            starts_split(s@, i as int, a5, "\" normalizeIlluminationColor=\""@);
            starts_split(s@, i as int, a4, ser_filling_color(w.filling_color));
            starts_split(s@, i as int, a3, "\" fillingColor=\""@);
            starts_split(s@, i as int, a2, ser_bool(w.fill_offcut));
            starts_split(s@, i as int, a1, "\" fillOffcut=\""@);
            starts_split(s@, i as int, a0, ser_bool(w.fill_margins));
        }
    }
    let j1 = expect(s, i, "<color-or-grayscale fillMargins=\"")?;
    let (fm, j2) = parse_bool(s, j1)?;
    let j3 = expect(s, j2, "\" fillOffcut=\"")?;
    let (fo, j4) = parse_bool(s, j3)?;
    let j5 = expect(s, j4, "\" fillingColor=\"")?;
    let (fc, j6) = parse_filling_color(s, j5)?;
    let j7 = expect(s, j6, "\" normalizeIlluminationColor=\"")?;
    let (ni, j8) = parse_bool(s, j7)?;
    let j9 = expect(s, j8, "\">")?;
    let (po, j10) = parse_posterization_options(s, j9)?;
    let j11 = expect(s, j10, "</color-or-grayscale>")?;
    let v = ColorOrGrayscale {
        fill_margins: fm,
        fill_offcut: fo,
        filling_color: fc,
        normalize_illumination_color: ni,
        posterization_options: po,
    };
    proof {
        subrange_join(s@, i as int, j1 as int, j2 as int);
        subrange_join(s@, i as int, j2 as int, j3 as int);
        subrange_join(s@, i as int, j3 as int, j4 as int);
        subrange_join(s@, i as int, j4 as int, j5 as int);
        subrange_join(s@, i as int, j5 as int, j6 as int);
        subrange_join(s@, i as int, j6 as int, j7 as int);
        subrange_join(s@, i as int, j7 as int, j8 as int);
        subrange_join(s@, i as int, j8 as int, j9 as int);
        subrange_join(s@, i as int, j9 as int, j10 as int);
        subrange_join(s@, i as int, j10 as int, j11 as int);
        assert(s@.subrange(i as int, j11 as int) =~= ser_color_or_grayscale(v));
    }
    Ok((v, j11))
}

pub open spec fn ser_color_segmenter_options(v: ColorSegmenterOptions) -> Seq<char> {
    "<color-segmenter-options blueThresholdAdjustment=\""@ + i64_dec(
        v.blue_threshold_adjustment as int,
    ) + "\" enabled=\""@ + ser_bool(v.enabled) + "\" greenThresholdAdjustment=\""@ + i64_dec(
        v.green_threshold_adjustment as int,
    ) + "\" noiseReduction=\""@ + u64_dec(v.noise_reduction as int)
        + "\" redThresholdAdjustment=\""@ + i64_dec(v.red_threshold_adjustment as int) + "\"/>"@
}

pub fn write_color_segmenter_options(out: &mut String, v: &ColorSegmenterOptions)
    ensures
        final(out)@ == old(out)@ + ser_color_segmenter_options(*v),
{
    out.append("<color-segmenter-options blueThresholdAdjustment=\"");
    write_i64(out, v.blue_threshold_adjustment as i64);
    out.append("\" enabled=\"");
    write_bool(out, v.enabled);
    out.append("\" greenThresholdAdjustment=\"");
    write_i64(out, v.green_threshold_adjustment as i64);
    out.append("\" noiseReduction=\"");
    write_u64(out, v.noise_reduction as u64);
    out.append("\" redThresholdAdjustment=\"");
    write_i64(out, v.red_threshold_adjustment as i64);
    out.append("\"/>");
    proof {
        assert(out@ =~= old(out)@ + ser_color_segmenter_options(*v));
    }
}

#[verifier::rlimit(100)]
#[verifier::spinoff_prover]
pub fn parse_color_segmenter_options(s: &str, i: usize) -> (r: Result<
    (ColorSegmenterOptions, usize),
    ParseError,
>)
    requires
        i <= s@.len(),
    ensures
        match r {
            Ok((v, j)) => {
                &&& i < j <= s@.len()
                &&& s@.subrange(i as int, j as int) == ser_color_segmenter_options(v)
            },
            Err(_) => true,
        },
        forall|w: ColorSegmenterOptions|
            #![trigger starts_with_at(s@, i as int, ser_color_segmenter_options(w))]
            true && starts_with_at(s@, i as int, ser_color_segmenter_options(w)) ==> r is Ok && (
            r->Ok_0).1 == i + ser_color_segmenter_options(w).len(),
{
    proof {
        reveal_strlit("<color-segmenter-options blueThresholdAdjustment=\"");
        reveal_strlit("\" enabled=\"");
        reveal_strlit("\" greenThresholdAdjustment=\"");
        reveal_strlit("\" noiseReduction=\"");
        reveal_strlit("\" redThresholdAdjustment=\"");
        reveal_strlit("\"/>");
        assert forall|w: ColorSegmenterOptions|
            true && #[trigger] starts_with_at(s@, i as int, ser_color_segmenter_options(w)) implies {
            let a0 = "<color-segmenter-options blueThresholdAdjustment=\""@;
            let a1 = a0 + i64_dec(w.blue_threshold_adjustment as int);
            let a2 = a1 + "\" enabled=\""@;
            let a3 = a2 + ser_bool(w.enabled);
            let a4 = a3 + "\" greenThresholdAdjustment=\""@;
            let a5 = a4 + i64_dec(w.green_threshold_adjustment as int);
            let a6 = a5 + "\" noiseReduction=\""@;
            let a7 = a6 + u64_dec(w.noise_reduction as int);
            let a8 = a7 + "\" redThresholdAdjustment=\""@;
            let a9 = a8 + i64_dec(w.red_threshold_adjustment as int);
            let a10 = a9 + "\"/>"@;
            &&& starts_with_at(s@, i as int, "<color-segmenter-options blueThresholdAdjustment=\""@)
            &&& starts_with_at(s@, i + a0.len(), i64_dec(w.blue_threshold_adjustment as int))
            &&& digit_stop(s@, i + a1.len())
            &&& starts_with_at(s@, i + a1.len(), "\" enabled=\""@)
            &&& starts_with_at(s@, i + a2.len(), ser_bool(w.enabled))
            &&& starts_with_at(s@, i + a3.len(), "\" greenThresholdAdjustment=\""@)
            &&& starts_with_at(s@, i + a4.len(), i64_dec(w.green_threshold_adjustment as int))
            &&& digit_stop(s@, i + a5.len())
            &&& starts_with_at(s@, i + a5.len(), "\" noiseReduction=\""@)
            &&& starts_with_at(s@, i + a6.len(), u64_dec(w.noise_reduction as int))
            &&& digit_stop(s@, i + a7.len())
            &&& starts_with_at(s@, i + a7.len(), "\" redThresholdAdjustment=\""@)
            &&& starts_with_at(s@, i + a8.len(), i64_dec(w.red_threshold_adjustment as int))
            &&& digit_stop(s@, i + a9.len())
            &&& starts_with_at(s@, i + a9.len(), "\"/>"@)
        } by {
            let a0 = "<color-segmenter-options blueThresholdAdjustment=\""@;
            let a1 = a0 + i64_dec(w.blue_threshold_adjustment as int);
            let a2 = a1 + "\" enabled=\""@;
            let a3 = a2 + ser_bool(w.enabled);
            let a4 = a3 + "\" greenThresholdAdjustment=\""@;
            let a5 = a4 + i64_dec(w.green_threshold_adjustment as int);
            let a6 = a5 + "\" noiseReduction=\""@;
            let a7 = a6 + u64_dec(w.noise_reduction as int);
            let a8 = a7 + "\" redThresholdAdjustment=\""@;
            let a9 = a8 + i64_dec(w.red_threshold_adjustment as int);
            let a10 = a9 + "\"/>"@;
            starts_split(s@, i as int, a9, "\"/>"@);
            starts_split(s@, i as int, a8, i64_dec(w.red_threshold_adjustment as int));
            starts_split(s@, i as int, a7, "\" redThresholdAdjustment=\""@);
            starts_split(s@, i as int, a6, u64_dec(w.noise_reduction as int));
            starts_split(s@, i as int, a5, "\" noiseReduction=\""@);
            starts_split(s@, i as int, a4, i64_dec(w.green_threshold_adjustment as int));
            starts_split(s@, i as int, a3, "\" greenThresholdAdjustment=\""@);
            starts_split(s@, i as int, a2, ser_bool(w.enabled));
            starts_split(s@, i as int, a1, "\" enabled=\""@);
            starts_split(s@, i as int, a0, i64_dec(w.blue_threshold_adjustment as int));
            assert(s@.subrange(i + a1.len(), i + a1.len() + 11)[0] == s@[i + a1.len()]);
            assert(s@.subrange(i + a5.len(), i + a5.len() + 18)[0] == s@[i + a5.len()]);
            assert(s@.subrange(i + a7.len(), i + a7.len() + 26)[0] == s@[i + a7.len()]);
            assert(s@.subrange(i + a9.len(), i + a9.len() + 3)[0] == s@[i + a9.len()]);
        }
    }
    let j1 = expect(s, i, "<color-segmenter-options blueThresholdAdjustment=\"")?;
    let (bt, j2) = parse_i64(s, j1, -128, 127)?;
    let j3 = expect(s, j2, "\" enabled=\"")?;
    let (en, j4) = parse_bool(s, j3)?;
    let j5 = expect(s, j4, "\" greenThresholdAdjustment=\"")?;
    let (gt, j6) = parse_i64(s, j5, -128, 127)?;
    let j7 = expect(s, j6, "\" noiseReduction=\"")?;
    let (nr, j8) = parse_u64(s, j7, 65535)?;
    let j9 = expect(s, j8, "\" redThresholdAdjustment=\"")?;
    let (rt, j10) = parse_i64(s, j9, -128, 127)?;
    let j11 = expect(s, j10, "\"/>")?;
    let v = ColorSegmenterOptions {
        blue_threshold_adjustment: bt as i8,
        enabled: en,
        green_threshold_adjustment: gt as i8,
        noise_reduction: nr as u16,
        red_threshold_adjustment: rt as i8,
    };
    proof {
        subrange_join(s@, i as int, j1 as int, j2 as int);
        subrange_join(s@, i as int, j2 as int, j3 as int);
        subrange_join(s@, i as int, j3 as int, j4 as int);
        subrange_join(s@, i as int, j4 as int, j5 as int);
        subrange_join(s@, i as int, j5 as int, j6 as int);
        subrange_join(s@, i as int, j6 as int, j7 as int);
        subrange_join(s@, i as int, j7 as int, j8 as int);
        subrange_join(s@, i as int, j8 as int, j9 as int);
        subrange_join(s@, i as int, j9 as int, j10 as int);
        subrange_join(s@, i as int, j10 as int, j11 as int);
        assert(s@.subrange(i as int, j11 as int) =~= ser_color_segmenter_options(v));
    }
    Ok((v, j11))
}

pub open spec fn ser_bw_head(v: BW) -> Seq<char> {
    "<bw binarizationMethod=\""@ + ser_binarization_method(v.binarization_method)
        + "\" morphologicalSmoothing=\""@ + ser_bool(v.morphological_smoothing)
        + "\" normalizeIlluminationBW=\""@ + ser_bool(v.normalize_illumination_bw)
        + "\" sauvolaCoef=\""@ + ser_decimal(v.sauvola_coeff)
        + "\" savitzkyGolaySmoothing=\""@ + ser_bool(v.savitzky_golay_smoothing)
}

pub open spec fn ser_bw_tail(v: BW) -> Seq<char> {
    "\" thresholdAdj=\""@ + i64_dec(v.threshold_adj as int) + "\" windowSize=\""@
        + u64_dec(v.window_size as int) + "\" wolfCoef=\""@ + ser_decimal(v.wolf_coeff)
        + "\" wolfLowerBound=\""@ + u64_dec(v.wolf_lower_bound as int)
        + "\" wolfUpperBound=\""@ + u64_dec(v.wolf_upper_bound as int) + "\">"@
        + ser_color_segmenter_options(v.color_segmenter_options) + "</bw>"@
}

pub open spec fn ser_bw(v: BW) -> Seq<char> {
    ser_bw_head(v) + ser_bw_tail(v)
}

#[verifier::rlimit(100)]
#[verifier::spinoff_prover]
fn write_bw_head(out: &mut String, v: &BW)
    requires
        wf_bw(*v),
    ensures
        final(out)@ == old(out)@ + ser_bw_head(*v),
{
    out.append("<bw binarizationMethod=\"");
    write_binarization_method(out, v.binarization_method);
    out.append("\" morphologicalSmoothing=\"");
    write_bool(out, v.morphological_smoothing);
    out.append("\" normalizeIlluminationBW=\"");
    write_bool(out, v.normalize_illumination_bw);
    out.append("\" sauvolaCoef=\"");
    write_decimal(out, &v.sauvola_coeff);
    out.append("\" savitzkyGolaySmoothing=\"");
    write_bool(out, v.savitzky_golay_smoothing);
    proof {
        assert(out@ =~= old(out)@ + ser_bw_head(*v));
    }
}

#[verifier::rlimit(100)]
#[verifier::spinoff_prover]
fn write_bw_tail(out: &mut String, v: &BW)
    requires
        wf_bw(*v),
    ensures
        final(out)@ == old(out)@ + ser_bw_tail(*v),
{
    out.append("\" thresholdAdj=\"");
    write_i64(out, v.threshold_adj as i64);
    out.append("\" windowSize=\"");
    write_u64(out, v.window_size as u64);
    out.append("\" wolfCoef=\"");
    write_decimal(out, &v.wolf_coeff);
    out.append("\" wolfLowerBound=\"");
    write_u64(out, v.wolf_lower_bound as u64);
    out.append("\" wolfUpperBound=\"");
    write_u64(out, v.wolf_upper_bound as u64);
    out.append("\">");
    write_color_segmenter_options(out, &v.color_segmenter_options);
    out.append("</bw>");
    proof {
        assert(out@ =~= old(out)@ + ser_bw_tail(*v));
    }
}

pub fn write_bw(out: &mut String, v: &BW)
    requires
        wf_bw(*v),
    ensures
        final(out)@ == old(out)@ + ser_bw(*v),
{
    write_bw_head(out, v);
    write_bw_tail(out, v);
    proof {
        assert(out@ =~= old(out)@ + ser_bw(*v));
    }
}

#[verifier::rlimit(100)]
#[verifier::spinoff_prover]
pub fn parse_bw(s: &str, i: usize) -> (r: Result<(BW, usize), ParseError>)
    requires
        i <= s@.len(),
    ensures
        match r {
            Ok((v, j)) => {
                &&& i < j <= s@.len()
                &&& wf_bw(v)
                &&& s@.subrange(i as int, j as int) == ser_bw(v)
            },
            Err(_) => true,
        },
{
    let j1 = expect(s, i, "<bw binarizationMethod=\"")?;
    let (bm, j2) = parse_binarization_method(s, j1)?;
    let j3 = expect(s, j2, "\" morphologicalSmoothing=\"")?;
    let (ms, j4) = parse_bool(s, j3)?;
    let j5 = expect(s, j4, "\" normalizeIlluminationBW=\"")?;
    let (ni, j6) = parse_bool(s, j5)?;
    let j7 = expect(s, j6, "\" sauvolaCoef=\"")?;
    let (sc, j8) = parse_decimal(s, j7)?;
    let j9 = expect(s, j8, "\" savitzkyGolaySmoothing=\"")?;
    let (sg, j10) = parse_bool(s, j9)?;
    let j11 = expect(s, j10, "\" thresholdAdj=\"")?;
    let (ta, j12) = parse_i64(s, j11, -128, 127)?;
    let j13 = expect(s, j12, "\" windowSize=\"")?;
    let (ws, j14) = parse_u64(s, j13, 65535)?;
    let j15 = expect(s, j14, "\" wolfCoef=\"")?;
    let (wc, j16) = parse_decimal(s, j15)?;
    let j17 = expect(s, j16, "\" wolfLowerBound=\"")?;
    let (wl, j18) = parse_u64(s, j17, 255)?;
    let j19 = expect(s, j18, "\" wolfUpperBound=\"")?;
    let (wu, j20) = parse_u64(s, j19, 255)?;
    let j21 = expect(s, j20, "\">")?;
    let (cs, j22) = parse_color_segmenter_options(s, j21)?;
    let j23 = expect(s, j22, "</bw>")?;
    let v = BW {
        binarization_method: bm,
        morphological_smoothing: ms,
        normalize_illumination_bw: ni,
        sauvola_coeff: sc,
        savitzky_golay_smoothing: sg,
        threshold_adj: ta as i8,
        window_size: ws as u16,
        wolf_coeff: wc,
        wolf_lower_bound: wl as u8,
        wolf_upper_bound: wu as u8,
        color_segmenter_options: cs,
    };
    proof {
        subrange_join(s@, i as int, j1 as int, j2 as int);
        subrange_join(s@, i as int, j2 as int, j3 as int);
        subrange_join(s@, i as int, j3 as int, j4 as int);
        subrange_join(s@, i as int, j4 as int, j5 as int);
        subrange_join(s@, i as int, j5 as int, j6 as int);
        subrange_join(s@, i as int, j6 as int, j7 as int);
        subrange_join(s@, i as int, j7 as int, j8 as int);
        subrange_join(s@, i as int, j8 as int, j9 as int);
        subrange_join(s@, i as int, j9 as int, j10 as int);
        assert(s@.subrange(i as int, j10 as int) =~= ser_bw_head(v));
        subrange_join(s@, j10 as int, j11 as int, j12 as int);
        subrange_join(s@, j10 as int, j12 as int, j13 as int);
        subrange_join(s@, j10 as int, j13 as int, j14 as int);
        subrange_join(s@, j10 as int, j14 as int, j15 as int);
        subrange_join(s@, j10 as int, j15 as int, j16 as int);
        subrange_join(s@, j10 as int, j16 as int, j17 as int);
        subrange_join(s@, j10 as int, j17 as int, j18 as int);
        subrange_join(s@, j10 as int, j18 as int, j19 as int);
        subrange_join(s@, j10 as int, j19 as int, j20 as int);
        subrange_join(s@, j10 as int, j20 as int, j21 as int);
        subrange_join(s@, j10 as int, j21 as int, j22 as int);
        subrange_join(s@, j10 as int, j22 as int, j23 as int);
        assert(s@.subrange(j10 as int, j23 as int) =~= ser_bw_tail(v));
        subrange_join(s@, i as int, j10 as int, j23 as int);
        assert(s@.subrange(i as int, j23 as int) =~= ser_bw(v));
    }
    Ok((v, j23))
}

/// `<color-params colorMode="...">` with its two optional children;
/// self-closing when both are absent.
pub open spec fn ser_color_params(v: ColorParams) -> Seq<char> {
    "<color-params colorMode=\""@ + ser_color_mode(v.color_mode) + (
    if v.color_or_grayscale is None && v.bw is None {
        "\"/>"@
    } else {
        "\">"@ + (match v.color_or_grayscale {
            Option::None => Seq::<char>::empty(),
            Option::Some(cg) => ser_color_or_grayscale(cg),
        }) + (match v.bw {
            Option::None => Seq::<char>::empty(),
            Option::Some(b) => ser_bw(b),
        }) + "</color-params>"@
    })
}

#[verifier::rlimit(100)]
#[verifier::spinoff_prover]
pub fn write_color_params(out: &mut String, v: &ColorParams)
    requires
        wf_color_params(*v),
    ensures
        final(out)@ == old(out)@ + ser_color_params(*v),
{
    out.append("<color-params colorMode=\"");
    write_color_mode(out, v.color_mode);
    match (&v.color_or_grayscale, &v.bw) {
        (Option::None, Option::None) => {
            out.append("\"/>");
        },
        (cg, b) => {
            out.append("\">");
            match cg {
                Option::None => {},
                Option::Some(c) => write_color_or_grayscale(out, c),
            }
            match b {
                Option::None => {},
                Option::Some(bb) => write_bw(out, bb),
            }
            out.append("</color-params>");
        },
    }
    proof {
        assert(out@ =~= old(out)@ + ser_color_params(*v));
    }
}

#[verifier::rlimit(100)]
#[verifier::spinoff_prover]
pub fn parse_color_params(s: &str, i: usize) -> (r: Result<(ColorParams, usize), ParseError>)
    requires
        i <= s@.len(),
    ensures
        match r {
            Ok((v, j)) => {
                &&& i < j <= s@.len()
                &&& wf_color_params(v)
                &&& s@.subrange(i as int, j as int) == ser_color_params(v)
            },
            Err(_) => true,
        },
{
    let n = s.unicode_len();
    proof {
        reveal_strlit("\"/>");
        reveal_strlit("\">");
    }
    let j1 = expect(s, i, "<color-params colorMode=\"")?;
    let (cm, j2) = parse_color_mode(s, j1)?;
    if n - j2 >= 2 && s.get_char(j2 + 1) == '/' {
        let j3 = expect(s, j2, "\"/>")?;
        let v = ColorParams { color_mode: cm, color_or_grayscale: Option::None, bw: Option::None };
        proof {
            subrange_join(s@, i as int, j1 as int, j2 as int);
            subrange_join(s@, i as int, j2 as int, j3 as int);
            assert(s@.subrange(i as int, j3 as int) =~= ser_color_params(v));
        }
        return Ok((v, j3));
    }
    let j3 = expect(s, j2, "\">")?;
    let (cg, j4): (Option<ColorOrGrayscale>, usize) = match parse_color_or_grayscale(s, j3) {
        Ok((c, j4)) => (Option::Some(c), j4),
        Err(_) => (Option::None, j3),
    };
    let (bw, j5): (Option<BW>, usize) = match parse_bw(s, j4) {
        Ok((b, j5)) => (Option::Some(b), j5),
        Err(_) => (Option::None, j4),
    };
    if cg.is_none() && bw.is_none() {
        return Err(ParseError { pos: j3, kind: ParseErrorKind::Unexpected });
    }
    let j6 = expect(s, j5, "</color-params>")?;
    let v = ColorParams { color_mode: cm, color_or_grayscale: cg, bw };
    proof {
        subrange_join(s@, i as int, j1 as int, j2 as int);
        subrange_join(s@, i as int, j2 as int, j3 as int);
        subrange_join(s@, i as int, j3 as int, j4 as int);
        subrange_join(s@, i as int, j4 as int, j5 as int);
        subrange_join(s@, i as int, j5 as int, j6 as int);
        assert(s@.subrange(i as int, j6 as int) =~= ser_color_params(v));
    }
    Ok((v, j6))
}

} // verus!
