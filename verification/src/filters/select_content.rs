//! The select-content stage: detected or entered content and page
//! rectangles per page, with detection-mode flags and their dependency
//! snapshot.

use vstd::prelude::*;

use crate::common::{parse_float_size, ser_float_size, wf_float_size, write_float_size, FloatSize};
use crate::decimal::{Decimal, decimal_stop, parse_decimal, ser_decimal, wf_decimal, write_decimal};
use crate::filters::common::{
    parse_outline, parse_pos_rect, parse_rect, ser_outline, ser_pos_rect, ser_rect, wf_outline,
    wf_pos_rect, wf_rect, write_outline, write_pos_rect, write_rect, Outline, PositiveRegionRect,
    Rect,
};
use crate::numbers::{digit_stop, parse_u64, u64_dec, write_u64};
use crate::wire::{ParseError, ParseErrorKind, expect, parse_bool, ser_bool, starts_split, starts_with_at, subrange_join, write_bool};

verus! {

#[derive(Clone, Copy, Debug, PartialEq, Eq, Structural)]
pub enum PageDetectionMode {
    Disabled,
    Auto,
    Manual,
}

#[derive(Clone, Copy, Debug, PartialEq, Eq, Structural)]
pub enum ContentDetectionMode {
    Disabled,
    Auto,
    Manual,
}

/// The detection-mode flags as they stood when the rectangles were
/// computed.
#[derive(Clone, Copy, Debug, PartialEq, Eq, Structural)]
pub struct DependenciesParams {
    pub content_detection_mode: ContentDetectionMode,
    pub fine_tune_corners: bool,
    pub page_detection_mode: PageDetectionMode,
}

#[derive(Debug, Clone)]
pub struct Dependencies {
    pub rotated_page_outline: Outline,
    pub params: DependenciesParams,
}

#[derive(Debug, Clone)]
pub struct PageParams {
    pub content_detection_mode: ContentDetectionMode,
    pub fine_tune_corners: bool,
    pub page_detection_mode: PageDetectionMode,
    pub content_rect: PositiveRegionRect,
    pub page_rect: Rect,
    pub content_size_mm: FloatSize,
    pub dependencies: Dependencies,
}

#[derive(Debug, Clone)]
pub struct Page {
    pub id: u32,
    pub params: PageParams,
}

#[derive(Debug, Clone)]
pub struct SelectContent {
    pub page_detection_tolerance: Decimal,
    pub page: Vec<Page>,
}

pub open spec fn wf_sc_dependencies(v: Dependencies) -> bool {
    wf_outline(v.rotated_page_outline)
}

pub open spec fn wf_page_params(v: PageParams) -> bool {
    &&& wf_pos_rect(v.content_rect)
    &&& wf_rect(v.page_rect)
    &&& wf_float_size(v.content_size_mm)
    &&& wf_sc_dependencies(v.dependencies)
}

pub open spec fn wf_sc_page(v: Page) -> bool {
    wf_page_params(v.params)
}

pub open spec fn wf_select_content(v: SelectContent) -> bool {
    &&& wf_decimal(v.page_detection_tolerance)
    &&& forall|k: int| 0 <= k < v.page@.len() ==> wf_sc_page(#[trigger] v.page@[k])
}

pub open spec fn ser_page_detection_mode(v: PageDetectionMode) -> Seq<char> {
    match v {
        PageDetectionMode::Disabled => "disabled"@,
        PageDetectionMode::Auto => "auto"@,
        PageDetectionMode::Manual => "manual"@,
    }
}

pub open spec fn ser_content_detection_mode(v: ContentDetectionMode) -> Seq<char> {
    match v {
        ContentDetectionMode::Disabled => "disabled"@,
        ContentDetectionMode::Auto => "auto"@,
        ContentDetectionMode::Manual => "manual"@,
    }
}

pub fn write_page_detection_mode(out: &mut String, v: PageDetectionMode)
    ensures
        final(out)@ == old(out)@ + ser_page_detection_mode(v),
{
    match v {
        PageDetectionMode::Disabled => out.append("disabled"),
        PageDetectionMode::Auto => out.append("auto"),
        PageDetectionMode::Manual => out.append("manual"),
    }
}

pub fn write_content_detection_mode(out: &mut String, v: ContentDetectionMode)
    ensures
        final(out)@ == old(out)@ + ser_content_detection_mode(v),
{
    match v {
        ContentDetectionMode::Disabled => out.append("disabled"),
        ContentDetectionMode::Auto => out.append("auto"),
        ContentDetectionMode::Manual => out.append("manual"),
    }
}

pub fn parse_page_detection_mode(s: &str, i: usize) -> (r: Result<
    (PageDetectionMode, usize),
    ParseError,
>)
    requires
        i <= s@.len(),
    ensures
        match r {
            Ok((v, j)) => {
                &&& i < j <= s@.len()
                &&& s@.subrange(i as int, j as int) == ser_page_detection_mode(v)
            },
            Err(_) => true,
        },
        forall|w: PageDetectionMode|
            #![trigger starts_with_at(s@, i as int, ser_page_detection_mode(w))]
            starts_with_at(s@, i as int, ser_page_detection_mode(w)) ==> r is Ok && (r->Ok_0).1 == i + ser_page_detection_mode(
                w,
            ).len(),
{
    proof {
        reveal_strlit("disabled");
        reveal_strlit("auto");
        reveal_strlit("manual");
        assert forall|w: PageDetectionMode| #[trigger] starts_with_at(s@, i as int, ser_page_detection_mode(w)) implies i < s@.len() && s@[i as int] == ser_page_detection_mode(w)[0] by {
            match w {
            PageDetectionMode::Disabled => {
                assert(s@.subrange(i as int, i + 8)[0] == s@[i as int]);
            },
            PageDetectionMode::Auto => {
                assert(s@.subrange(i as int, i + 4)[0] == s@[i as int]);
            },
            PageDetectionMode::Manual => {
                assert(s@.subrange(i as int, i + 6)[0] == s@[i as int]);
            },
            }
        }
    }
    let n = s.unicode_len();
    proof {
        reveal_strlit("disabled");
        reveal_strlit("auto");
        reveal_strlit("manual");
    }
    if i == n {
        return Err(ParseError { pos: i, kind: ParseErrorKind::Unexpected });
    }
    let c = s.get_char(i);
    if c == 'd' {
        let j = expect(s, i, "disabled")?;
        Ok((PageDetectionMode::Disabled, j))
    } else if c == 'a' {
        let j = expect(s, i, "auto")?;
        Ok((PageDetectionMode::Auto, j))
    } else {
        let j = expect(s, i, "manual")?;
        Ok((PageDetectionMode::Manual, j))
    }
}

pub fn parse_content_detection_mode(s: &str, i: usize) -> (r: Result<
    (ContentDetectionMode, usize),
    ParseError,
>)
    requires
        i <= s@.len(),
    ensures
        match r {
            Ok((v, j)) => {
                &&& i < j <= s@.len()
                &&& s@.subrange(i as int, j as int) == ser_content_detection_mode(v)
            },
            Err(_) => true,
        },
        forall|w: ContentDetectionMode|
            #![trigger starts_with_at(s@, i as int, ser_content_detection_mode(w))]
            starts_with_at(s@, i as int, ser_content_detection_mode(w)) ==> r is Ok && (r->Ok_0).1 == i + ser_content_detection_mode(
                w,
            ).len(),
{
    proof {
        reveal_strlit("disabled");
        reveal_strlit("auto");
        reveal_strlit("manual");
        assert forall|w: ContentDetectionMode| #[trigger] starts_with_at(s@, i as int, ser_content_detection_mode(w)) implies i < s@.len() && s@[i as int] == ser_content_detection_mode(w)[0] by {
            match w {
            ContentDetectionMode::Disabled => {
                assert(s@.subrange(i as int, i + 8)[0] == s@[i as int]);
            },
            ContentDetectionMode::Auto => {
                assert(s@.subrange(i as int, i + 4)[0] == s@[i as int]);
            },
            ContentDetectionMode::Manual => {
                assert(s@.subrange(i as int, i + 6)[0] == s@[i as int]);
            },
            }
        }
    }
    let n = s.unicode_len();
    proof {
        reveal_strlit("disabled");
        reveal_strlit("auto");
        reveal_strlit("manual");
    }
    if i == n {
        return Err(ParseError { pos: i, kind: ParseErrorKind::Unexpected });
    }
    let c = s.get_char(i);
    if c == 'd' {
        let j = expect(s, i, "disabled")?;
        Ok((ContentDetectionMode::Disabled, j))
    } else if c == 'a' {
        let j = expect(s, i, "auto")?;
        Ok((ContentDetectionMode::Auto, j))
    } else {
        let j = expect(s, i, "manual")?;
        Ok((ContentDetectionMode::Manual, j))
    }
}

/// The three detection-mode attributes, shared by the live params and the
/// snapshot copy.
pub open spec fn ser_mode_attrs(
    c: ContentDetectionMode,
    f: bool,
    p: PageDetectionMode,
) -> Seq<char> {
    "contentDetectionMode=\""@ + ser_content_detection_mode(c) + "\" fineTuneCorners=\""@
        + ser_bool(f) + "\" pageDetectionMode=\""@ + ser_page_detection_mode(p) + "\""@
}

fn write_mode_attrs(out: &mut String, c: ContentDetectionMode, f: bool, p: PageDetectionMode)
    ensures
        final(out)@ == old(out)@ + ser_mode_attrs(c, f, p),
{
    out.append("contentDetectionMode=\"");
    write_content_detection_mode(out, c);
    out.append("\" fineTuneCorners=\"");
    write_bool(out, f);
    out.append("\" pageDetectionMode=\"");
    write_page_detection_mode(out, p);
    out.append("\"");
    proof {
        assert(out@ =~= old(out)@ + ser_mode_attrs(c, f, p));
    }
}

#[verifier::rlimit(100)]
#[verifier::spinoff_prover]
fn parse_mode_attrs(s: &str, i: usize) -> (r: Result<
    ((ContentDetectionMode, bool, PageDetectionMode), usize),
    ParseError,
>)
    requires
        i <= s@.len(),
    ensures
        match r {
            Ok(((c, f, p), j)) => {
                &&& i < j <= s@.len()
                &&& s@.subrange(i as int, j as int) == ser_mode_attrs(c, f, p)
            },
            Err(_) => true,
        },
        forall|wc: ContentDetectionMode, wft: bool, wp: PageDetectionMode|
            #![trigger starts_with_at(s@, i as int, ser_mode_attrs(wc, wft, wp))]
            true && starts_with_at(s@, i as int, ser_mode_attrs(wc, wft, wp)) ==> r is Ok && (
            r->Ok_0).1 == i + ser_mode_attrs(wc, wft, wp).len(),
{
    proof {
        reveal_strlit("contentDetectionMode=\"");
        reveal_strlit("\" fineTuneCorners=\"");
        reveal_strlit("\" pageDetectionMode=\"");
        reveal_strlit("\"");
        assert forall|wc: ContentDetectionMode, wft: bool, wp: PageDetectionMode|
            true && #[trigger] starts_with_at(s@, i as int, ser_mode_attrs(wc, wft, wp)) implies {
            let a0 = "contentDetectionMode=\""@;
            let a1 = a0 + ser_content_detection_mode(wc);
            let a2 = a1 + "\" fineTuneCorners=\""@;
            let a3 = a2 + ser_bool(wft);
            let a4 = a3 + "\" pageDetectionMode=\""@;
            let a5 = a4 + ser_page_detection_mode(wp);
            let a6 = a5 + "\""@;
            &&& starts_with_at(s@, i as int, "contentDetectionMode=\""@)
            &&& starts_with_at(s@, i + a0.len(), ser_content_detection_mode(wc))
            &&& starts_with_at(s@, i + a1.len(), "\" fineTuneCorners=\""@)
            &&& starts_with_at(s@, i + a2.len(), ser_bool(wft))
            &&& starts_with_at(s@, i + a3.len(), "\" pageDetectionMode=\""@)
            &&& starts_with_at(s@, i + a4.len(), ser_page_detection_mode(wp))
            &&& starts_with_at(s@, i + a5.len(), "\""@)
        } by {
            let a0 = "contentDetectionMode=\""@;
            let a1 = a0 + ser_content_detection_mode(wc);
            let a2 = a1 + "\" fineTuneCorners=\""@;
            let a3 = a2 + ser_bool(wft);
            let a4 = a3 + "\" pageDetectionMode=\""@;
            let a5 = a4 + ser_page_detection_mode(wp);
            let a6 = a5 + "\""@;
            starts_split(s@, i as int, a5, "\""@);
            starts_split(s@, i as int, a4, ser_page_detection_mode(wp));
            starts_split(s@, i as int, a3, "\" pageDetectionMode=\""@);
            starts_split(s@, i as int, a2, ser_bool(wft));
            starts_split(s@, i as int, a1, "\" fineTuneCorners=\""@);
            starts_split(s@, i as int, a0, ser_content_detection_mode(wc));
        }
    }
    let j1 = expect(s, i, "contentDetectionMode=\"")?;
    let (c, j2) = parse_content_detection_mode(s, j1)?;
    let j3 = expect(s, j2, "\" fineTuneCorners=\"")?;
    let (f, j4) = parse_bool(s, j3)?;
    let j5 = expect(s, j4, "\" pageDetectionMode=\"")?;
    let (p, j6) = parse_page_detection_mode(s, j5)?;
    let j7 = expect(s, j6, "\"")?;
    proof {
        subrange_join(s@, i as int, j1 as int, j2 as int);
        subrange_join(s@, i as int, j2 as int, j3 as int);
        subrange_join(s@, i as int, j3 as int, j4 as int);
        subrange_join(s@, i as int, j4 as int, j5 as int);
        subrange_join(s@, i as int, j5 as int, j6 as int);
        subrange_join(s@, i as int, j6 as int, j7 as int);
        assert(s@.subrange(i as int, j7 as int) =~= ser_mode_attrs(c, f, p));
    }
    Ok(((c, f, p), j7))
}

pub open spec fn ser_deps_params(v: DependenciesParams) -> Seq<char> {
    "<params "@ + ser_mode_attrs(
        v.content_detection_mode,
        v.fine_tune_corners,
        v.page_detection_mode,
    ) + "/>"@
}

pub fn write_deps_params(out: &mut String, v: &DependenciesParams)
    ensures
        final(out)@ == old(out)@ + ser_deps_params(*v),
{
    out.append("<params ");
    write_mode_attrs(out, v.content_detection_mode, v.fine_tune_corners, v.page_detection_mode);
    out.append("/>");
    proof {
        assert(out@ =~= old(out)@ + ser_deps_params(*v));
    }
}

#[verifier::rlimit(100)]
#[verifier::spinoff_prover]
pub fn parse_deps_params(s: &str, i: usize) -> (r: Result<
    (DependenciesParams, usize),
    ParseError,
>)
    requires
        i <= s@.len(),
    ensures
        match r {
            Ok((v, j)) => {
                &&& i < j <= s@.len()
                &&& s@.subrange(i as int, j as int) == ser_deps_params(v)
            },
            Err(_) => true,
        },
        forall|w: DependenciesParams|
            #![trigger starts_with_at(s@, i as int, ser_deps_params(w))]
            true && starts_with_at(s@, i as int, ser_deps_params(w)) ==> r is Ok && (
            r->Ok_0).1 == i + ser_deps_params(w).len(),
{
    proof {
        reveal_strlit("<params ");
        reveal_strlit("/>");
        assert forall|w: DependenciesParams|
            true && #[trigger] starts_with_at(s@, i as int, ser_deps_params(w)) implies {
            let a0 = "<params "@;
            let a1 = a0 + ser_mode_attrs(w.content_detection_mode, w.fine_tune_corners, w.page_detection_mode);
            let a2 = a1 + "/>"@;
            &&& starts_with_at(s@, i as int, "<params "@)
            &&& starts_with_at(s@, i + a0.len(), ser_mode_attrs(w.content_detection_mode, w.fine_tune_corners, w.page_detection_mode))
            &&& starts_with_at(s@, i + a1.len(), "/>"@)
        } by {
            let a0 = "<params "@;
            let a1 = a0 + ser_mode_attrs(w.content_detection_mode, w.fine_tune_corners, w.page_detection_mode);
            let a2 = a1 + "/>"@;
            starts_split(s@, i as int, a1, "/>"@);
            starts_split(s@, i as int, a0, ser_mode_attrs(w.content_detection_mode, w.fine_tune_corners, w.page_detection_mode));
        }
    }
    let j1 = expect(s, i, "<params ")?;
    let ((c, f, p), j2) = parse_mode_attrs(s, j1)?;
    let j3 = expect(s, j2, "/>")?;
    let v = DependenciesParams {
        content_detection_mode: c,
        fine_tune_corners: f,
        page_detection_mode: p,
    };
    proof {
        subrange_join(s@, i as int, j1 as int, j2 as int);
        subrange_join(s@, i as int, j2 as int, j3 as int);
        assert(s@.subrange(i as int, j3 as int) =~= ser_deps_params(v));
    }
    Ok((v, j3))
}

pub open spec fn ser_sc_dependencies(v: Dependencies) -> Seq<char> {
    "<dependencies>"@ + ser_outline("rotated-page-outline"@, v.rotated_page_outline)
        + ser_deps_params(v.params) + "</dependencies>"@
}

pub fn write_sc_dependencies(out: &mut String, v: &Dependencies)
    requires
        wf_sc_dependencies(*v),
    ensures
        final(out)@ == old(out)@ + ser_sc_dependencies(*v),
{
    out.append("<dependencies>");
    write_outline(out, "rotated-page-outline", &v.rotated_page_outline);
    write_deps_params(out, &v.params);
    out.append("</dependencies>");
    proof {
        assert(out@ =~= old(out)@ + ser_sc_dependencies(*v));
    }
}

#[verifier::rlimit(100)]
#[verifier::spinoff_prover]
pub fn parse_sc_dependencies(s: &str, i: usize) -> (r: Result<(Dependencies, usize), ParseError>)
    requires
        i <= s@.len(),
    ensures
        match r {
            Ok((v, j)) => {
                &&& i < j <= s@.len()
                &&& wf_sc_dependencies(v)
                &&& s@.subrange(i as int, j as int) == ser_sc_dependencies(v)
            },
            Err(_) => true,
        },
        forall|w: Dependencies|
            #![trigger starts_with_at(s@, i as int, ser_sc_dependencies(w))]
            wf_sc_dependencies(w) && starts_with_at(s@, i as int, ser_sc_dependencies(w)) ==> r is Ok && (
            r->Ok_0).1 == i + ser_sc_dependencies(w).len(),
{
    proof {
        reveal_strlit("<dependencies>");
        reveal_strlit("</dependencies>");
        assert forall|w: Dependencies|
            wf_sc_dependencies(w) && #[trigger] starts_with_at(s@, i as int, ser_sc_dependencies(w)) implies {
            let a0 = "<dependencies>"@;
            let a1 = a0 + ser_outline("rotated-page-outline"@, w.rotated_page_outline);
            let a2 = a1 + ser_deps_params(w.params);
            let a3 = a2 + "</dependencies>"@;
            &&& starts_with_at(s@, i as int, "<dependencies>"@)
            &&& starts_with_at(s@, i + a0.len(), ser_outline("rotated-page-outline"@, w.rotated_page_outline))
            &&& starts_with_at(s@, i + a1.len(), ser_deps_params(w.params))
            &&& starts_with_at(s@, i + a2.len(), "</dependencies>"@)
        } by {
            let a0 = "<dependencies>"@;
            let a1 = a0 + ser_outline("rotated-page-outline"@, w.rotated_page_outline);
            let a2 = a1 + ser_deps_params(w.params);
            let a3 = a2 + "</dependencies>"@;
            starts_split(s@, i as int, a2, "</dependencies>"@);
            starts_split(s@, i as int, a1, ser_deps_params(w.params));
            starts_split(s@, i as int, a0, ser_outline("rotated-page-outline"@, w.rotated_page_outline));
        }
    }
    let j1 = expect(s, i, "<dependencies>")?;
    let (outline, j2) = parse_outline(s, j1, "rotated-page-outline")?;
    let (params, j3) = parse_deps_params(s, j2)?;
    let j4 = expect(s, j3, "</dependencies>")?;
    let v = Dependencies { rotated_page_outline: outline, params };
    proof {
        subrange_join(s@, i as int, j1 as int, j2 as int);
        subrange_join(s@, i as int, j2 as int, j3 as int);
        subrange_join(s@, i as int, j3 as int, j4 as int);
        assert(s@.subrange(i as int, j4 as int) =~= ser_sc_dependencies(v));
    }
    Ok((v, j4))
}

pub open spec fn ser_page_params(v: PageParams) -> Seq<char> {
    "<params "@ + ser_mode_attrs(
        v.content_detection_mode,
        v.fine_tune_corners,
        v.page_detection_mode,
    ) + ">"@ + ser_pos_rect("content-rect"@, v.content_rect) + ser_rect("page-rect"@, v.page_rect)
        + ser_float_size("content-size-mm"@, v.content_size_mm) + ser_sc_dependencies(
        v.dependencies,
    ) + "</params>"@
}

#[verifier::rlimit(100)]
#[verifier::spinoff_prover]
pub fn write_page_params(out: &mut String, v: &PageParams)
    requires
        wf_page_params(*v),
    ensures
        final(out)@ == old(out)@ + ser_page_params(*v),
{
    out.append("<params ");
    write_mode_attrs(out, v.content_detection_mode, v.fine_tune_corners, v.page_detection_mode);
    out.append(">");
    write_pos_rect(out, "content-rect", &v.content_rect);
    write_rect(out, "page-rect", &v.page_rect);
    write_float_size(out, "content-size-mm", &v.content_size_mm);
    write_sc_dependencies(out, &v.dependencies);
    out.append("</params>");
    proof {
        assert(out@ =~= old(out)@ + ser_page_params(*v));
    }
}

#[verifier::rlimit(100)]
#[verifier::spinoff_prover]
pub fn parse_page_params(s: &str, i: usize) -> (r: Result<(PageParams, usize), ParseError>)
    requires
        i <= s@.len(),
    ensures
        match r {
            Ok((v, j)) => {
                &&& i < j <= s@.len()
                &&& wf_page_params(v)
                &&& s@.subrange(i as int, j as int) == ser_page_params(v)
            },
            Err(_) => true,
        },
        forall|w: PageParams|
            #![trigger starts_with_at(s@, i as int, ser_page_params(w))]
            wf_page_params(w) && starts_with_at(s@, i as int, ser_page_params(w)) ==> r is Ok && (
            r->Ok_0).1 == i + ser_page_params(w).len(),
{
    proof {
        reveal_strlit("<params ");
        reveal_strlit(">");
        reveal_strlit("</params>");
        assert forall|w: PageParams|
            wf_page_params(w) && #[trigger] starts_with_at(s@, i as int, ser_page_params(w)) implies {
            let a0 = "<params "@;
            let a1 = a0 + ser_mode_attrs(w.content_detection_mode, w.fine_tune_corners, w.page_detection_mode);
            let a2 = a1 + ">"@;
            let a3 = a2 + ser_pos_rect("content-rect"@, w.content_rect);
            let a4 = a3 + ser_rect("page-rect"@, w.page_rect);
            let a5 = a4 + ser_float_size("content-size-mm"@, w.content_size_mm);
            let a6 = a5 + ser_sc_dependencies(w.dependencies);
            let a7 = a6 + "</params>"@;
            &&& starts_with_at(s@, i as int, "<params "@)
            &&& starts_with_at(s@, i + a0.len(), ser_mode_attrs(w.content_detection_mode, w.fine_tune_corners, w.page_detection_mode))
            &&& starts_with_at(s@, i + a1.len(), ">"@)
            &&& starts_with_at(s@, i + a2.len(), ser_pos_rect("content-rect"@, w.content_rect))
            &&& starts_with_at(s@, i + a3.len(), ser_rect("page-rect"@, w.page_rect))
            &&& starts_with_at(s@, i + a4.len(), ser_float_size("content-size-mm"@, w.content_size_mm))
            &&& starts_with_at(s@, i + a5.len(), ser_sc_dependencies(w.dependencies))
            &&& starts_with_at(s@, i + a6.len(), "</params>"@)
        } by {
            let a0 = "<params "@;
            let a1 = a0 + ser_mode_attrs(w.content_detection_mode, w.fine_tune_corners, w.page_detection_mode);
            let a2 = a1 + ">"@;
            let a3 = a2 + ser_pos_rect("content-rect"@, w.content_rect);
            let a4 = a3 + ser_rect("page-rect"@, w.page_rect);
            let a5 = a4 + ser_float_size("content-size-mm"@, w.content_size_mm);
            let a6 = a5 + ser_sc_dependencies(w.dependencies);
            let a7 = a6 + "</params>"@;
            starts_split(s@, i as int, a6, "</params>"@);
            starts_split(s@, i as int, a5, ser_sc_dependencies(w.dependencies));
            starts_split(s@, i as int, a4, ser_float_size("content-size-mm"@, w.content_size_mm));
            starts_split(s@, i as int, a3, ser_rect("page-rect"@, w.page_rect));
            starts_split(s@, i as int, a2, ser_pos_rect("content-rect"@, w.content_rect));
            starts_split(s@, i as int, a1, ">"@);
            starts_split(s@, i as int, a0, ser_mode_attrs(w.content_detection_mode, w.fine_tune_corners, w.page_detection_mode));
        }
    }
    let j1 = expect(s, i, "<params ")?;
    let ((c, f, p), j2) = parse_mode_attrs(s, j1)?;
    let j3 = expect(s, j2, ">")?;
    let (content_rect, j4) = parse_pos_rect(s, j3, "content-rect")?;
    let (page_rect, j5) = parse_rect(s, j4, "page-rect")?;
    let (content_size_mm, j6) = parse_float_size(s, j5, "content-size-mm")?;
    let (deps, j7) = parse_sc_dependencies(s, j6)?;
    let j8 = expect(s, j7, "</params>")?;
    let v = PageParams {
        content_detection_mode: c,
        fine_tune_corners: f,
        page_detection_mode: p,
        content_rect,
        page_rect,
        content_size_mm,
        dependencies: deps,
    };
    proof {
        subrange_join(s@, i as int, j1 as int, j2 as int);
        subrange_join(s@, i as int, j2 as int, j3 as int);
        subrange_join(s@, i as int, j3 as int, j4 as int);
        subrange_join(s@, i as int, j4 as int, j5 as int);
        subrange_join(s@, i as int, j5 as int, j6 as int);
        subrange_join(s@, i as int, j6 as int, j7 as int);
        subrange_join(s@, i as int, j7 as int, j8 as int);
        assert(s@.subrange(i as int, j8 as int) =~= ser_page_params(v));
    }
    Ok((v, j8))
}

pub open spec fn ser_sc_page(v: Page) -> Seq<char> {
    "<page id=\""@ + u64_dec(v.id as int) + "\">"@ + ser_page_params(v.params) + "</page>"@
}

pub fn write_sc_page(out: &mut String, v: &Page)
    requires
        wf_sc_page(*v),
    ensures
        final(out)@ == old(out)@ + ser_sc_page(*v),
{
    out.append("<page id=\"");
    write_u64(out, v.id as u64);
    out.append("\">");
    write_page_params(out, &v.params);
    out.append("</page>");
    proof {
        assert(out@ =~= old(out)@ + ser_sc_page(*v));
    }
}

#[verifier::rlimit(100)]
#[verifier::spinoff_prover]
pub fn parse_sc_page(s: &str, i: usize) -> (r: Result<(Page, usize), ParseError>)
    requires
        i <= s@.len(),
    ensures
        match r {
            Ok((v, j)) => {
                &&& i < j <= s@.len()
                &&& wf_sc_page(v)
                &&& s@.subrange(i as int, j as int) == ser_sc_page(v)
            },
            Err(_) => true,
        },
        forall|w: Page|
            #![trigger starts_with_at(s@, i as int, ser_sc_page(w))]
            wf_sc_page(w) && starts_with_at(s@, i as int, ser_sc_page(w)) ==> r is Ok && (
            r->Ok_0).1 == i + ser_sc_page(w).len(),
{
    proof {
        reveal_strlit("<page id=\"");
        reveal_strlit("\">");
        reveal_strlit("</page>");
        assert forall|w: Page|
            wf_sc_page(w) && #[trigger] starts_with_at(s@, i as int, ser_sc_page(w)) implies {
            let a0 = "<page id=\""@;
            let a1 = a0 + u64_dec(w.id as int);
            let a2 = a1 + "\">"@;
            let a3 = a2 + ser_page_params(w.params);
            let a4 = a3 + "</page>"@;
            &&& starts_with_at(s@, i as int, "<page id=\""@)
            &&& starts_with_at(s@, i + a0.len(), u64_dec(w.id as int))
            &&& digit_stop(s@, i + a1.len())
            &&& starts_with_at(s@, i + a1.len(), "\">"@)
            &&& starts_with_at(s@, i + a2.len(), ser_page_params(w.params))
            &&& starts_with_at(s@, i + a3.len(), "</page>"@)
        } by {
            let a0 = "<page id=\""@;
            let a1 = a0 + u64_dec(w.id as int);
            let a2 = a1 + "\">"@;
            let a3 = a2 + ser_page_params(w.params);
            let a4 = a3 + "</page>"@;
            starts_split(s@, i as int, a3, "</page>"@);
            starts_split(s@, i as int, a2, ser_page_params(w.params));
            starts_split(s@, i as int, a1, "\">"@);
            starts_split(s@, i as int, a0, u64_dec(w.id as int));
            assert(s@.subrange(i + a1.len(), i + a1.len() + 2)[0] == s@[i + a1.len()]);
        }
    }
    let j1 = expect(s, i, "<page id=\"")?;
    let (id, j2) = parse_u64(s, j1, 0xffffffff)?;
    let j3 = expect(s, j2, "\">")?;
    let (params, j4) = parse_page_params(s, j3)?;
    let j5 = expect(s, j4, "</page>")?;
    let v = Page { id: id as u32, params };
    proof {
        subrange_join(s@, i as int, j1 as int, j2 as int);
        subrange_join(s@, i as int, j2 as int, j3 as int);
        subrange_join(s@, i as int, j3 as int, j4 as int);
        subrange_join(s@, i as int, j4 as int, j5 as int);
        assert(s@.subrange(i as int, j5 as int) =~= ser_sc_page(v));
    }
    Ok((v, j5))
}

pub open spec fn ser_sc_page_list(xs: Seq<Page>) -> Seq<char>
    decreases xs.len(),
{
    if xs.len() == 0 {
        Seq::<char>::empty()
    } else {
        ser_sc_page(xs[0]) + ser_sc_page_list(xs.drop_first())
    }
}

pub proof fn ser_sc_page_list_snoc(xs: Seq<Page>, x: Page)
    ensures
        ser_sc_page_list(xs + seq![x]) == ser_sc_page_list(xs) + ser_sc_page(x),
    decreases xs.len(),
{
    assert(ser_sc_page_list(Seq::<Page>::empty()) =~= Seq::<char>::empty());
    if xs.len() == 0 {
        assert(xs + seq![x] =~= seq![x]);
        assert(seq![x].drop_first() =~= Seq::<Page>::empty());
        assert(ser_sc_page_list(seq![x]) =~= ser_sc_page(x));
        assert(ser_sc_page_list(xs + seq![x]) =~= ser_sc_page_list(xs) + ser_sc_page(x));
    } else {
        assert((xs + seq![x]).drop_first() =~= xs.drop_first() + seq![x]);
        ser_sc_page_list_snoc(xs.drop_first(), x);
        assert(ser_sc_page_list(xs + seq![x]) =~= ser_sc_page_list(xs) + ser_sc_page(x));
    }
}

#[verifier::rlimit(100)]
#[verifier::spinoff_prover]
pub proof fn ser_sc_page_list_cat(xs: Seq<Page>, ys: Seq<Page>)
    ensures
        ser_sc_page_list(xs + ys) == ser_sc_page_list(xs) + ser_sc_page_list(ys),
    decreases xs.len(),
{
    if xs.len() == 0 {
        assert(xs + ys =~= ys);
        assert(ser_sc_page_list(xs) + ser_sc_page_list(ys) =~= ser_sc_page_list(ys));
    } else {
        assert((xs + ys).drop_first() =~= xs.drop_first() + ys);
        ser_sc_page_list_cat(xs.drop_first(), ys);
        assert(ser_sc_page_list(xs + ys) =~= ser_sc_page_list(xs) + ser_sc_page_list(ys));
    }
}

/// `<select-content pageDetectionTolerance="...">`, self-closing with no
/// pages.
pub open spec fn ser_select_content(v: SelectContent) -> Seq<char> {
    "<select-content pageDetectionTolerance=\""@ + ser_decimal(v.page_detection_tolerance) + (
    if v.page@.len() == 0 {
        "\"/>"@
    } else {
        "\">"@ + ser_sc_page_list(v.page@) + "</select-content>"@
    })
}

#[verifier::rlimit(100)]
#[verifier::spinoff_prover]
pub fn write_select_content(out: &mut String, v: &SelectContent)
    requires
        wf_select_content(*v),
    ensures
        final(out)@ == old(out)@ + ser_select_content(*v),
{
    out.append("<select-content pageDetectionTolerance=\"");
    write_decimal(out, &v.page_detection_tolerance);
    if v.page.len() == 0 {
        out.append("\"/>");
        proof {
            assert(out@ =~= old(out)@ + ser_select_content(*v));
        }
        return ;
    }
    out.append("\">");
    let ghost head = old(out)@ + "<select-content pageDetectionTolerance=\""@ + ser_decimal(
        v.page_detection_tolerance,
    ) + "\">"@;
    let n = v.page.len();
    let mut k: usize = 0;
    proof {
        assert(v.page@.take(0) =~= Seq::<Page>::empty());
        assert(ser_sc_page_list(v.page@.take(0)) =~= Seq::<char>::empty());
        assert(out@ =~= head + ser_sc_page_list(v.page@.take(0)));
    }
    while k < n
        invariant
            0 <= k <= n == v.page@.len(),
            wf_select_content(*v),
            out@ == head + ser_sc_page_list(v.page@.take(k as int)),
        decreases n - k,
    {
        write_sc_page(out, &v.page[k]);
        k = k + 1;
        proof {
            ser_sc_page_list_snoc(v.page@.take(k - 1), v.page@[k - 1]);
            assert(v.page@.take(k - 1) + seq![v.page@[k - 1]] =~= v.page@.take(k as int));
        }
    }
    out.append("</select-content>");
    proof {
        assert(v.page@.take(n as int) =~= v.page@);
        assert(out@ =~= old(out)@ + ser_select_content(*v));
    }
}

#[verifier::rlimit(100)]
#[verifier::spinoff_prover]
#[verifier::loop_isolation(false)]
pub fn parse_select_content(s: &str, i: usize) -> (r: Result<(SelectContent, usize), ParseError>)
    requires
        i <= s@.len(),
    ensures
        match r {
            Ok((v, j)) => {
                &&& i < j <= s@.len()
                &&& wf_select_content(v)
                &&& s@.subrange(i as int, j as int) == ser_select_content(v)
            },
            Err(_) => true,
        },
        forall|w: SelectContent|
            #![trigger starts_with_at(s@, i as int, ser_select_content(w))]
            wf_select_content(w) && starts_with_at(s@, i as int, ser_select_content(w)) ==> r is Ok && (
            r->Ok_0).1 == i + ser_select_content(w).len(),
{
    let n = s.unicode_len();
    proof {
        reveal_strlit("<select-content pageDetectionTolerance=\"");
        reveal_strlit("\"/>");
        reveal_strlit("\">");
        reveal_strlit("</select-content>");
        reveal_strlit("<page id=\"");
        
        assert forall|w: SelectContent|
            wf_select_content(w) && #[trigger] starts_with_at(s@, i as int, ser_select_content(w)) implies {
            let a0 = "<select-content pageDetectionTolerance=\""@;
            let a1 = a0 + ser_decimal(w.page_detection_tolerance);
            &&& starts_with_at(s@, i as int, a0)
            &&& starts_with_at(s@, i + a0.len(), ser_decimal(w.page_detection_tolerance))
            &&& decimal_stop(s@, i + a1.len()) && wf_decimal(w.page_detection_tolerance)
            &&& (w.page@.len() == 0 ==> starts_with_at(s@, i + a1.len(), "\"/>"@) && s@[i
                + a1.len() + 1] == '/')
            &&& (w.page@.len() > 0 ==> starts_with_at(s@, i + a1.len(), "\">"@) && s@[i
                + a1.len() + 1] == '>' && starts_with_at(
                s@,
                i + a1.len() + 2,
                ser_sc_page_list(w.page@),
            ) && starts_with_at(
                s@,
                i + a1.len() + 2 + ser_sc_page_list(w.page@).len(),
                "</select-content>"@,
            ))
        } by {
            let a0 = "<select-content pageDetectionTolerance=\""@;
            let a1 = a0 + ser_decimal(w.page_detection_tolerance);
            if w.page@.len() == 0 {
                assert(ser_select_content(w) =~= a1 + "\"/>"@);
                starts_split(s@, i as int, a1, "\"/>"@);
                starts_split(s@, i as int, a0, ser_decimal(w.page_detection_tolerance));
                assert(s@.subrange(i + a1.len(), i + a1.len() + 2)[1] == s@[i + a1.len() + 1]);
                assert(s@.subrange(i + a1.len(), i + a1.len() + 2)[0] == s@[i + a1.len()]);
            } else {
                let lst = ser_sc_page_list(w.page@);
                assert(ser_select_content(w) =~= a1 + "\">"@ + lst + "</select-content>"@);
                starts_split(s@, i as int, a1 + "\">"@ + lst, "</select-content>"@);
                starts_split(s@, i as int, a1 + "\">"@, lst);
                starts_split(s@, i as int, a1, "\">"@);
                starts_split(s@, i as int, a0, ser_decimal(w.page_detection_tolerance));
                assert(s@.subrange(i + a1.len(), i + a1.len() + 2)[1] == s@[i + a1.len() + 1]);
                assert(s@.subrange(i + a1.len(), i + a1.len() + 2)[0] == s@[i + a1.len()]);
            }
        }
    }
    let j1 = expect(s, i, "<select-content pageDetectionTolerance=\"")?;
    let (tol, j2) = parse_decimal(s, j1)?;
    if n - j2 >= 2 && s.get_char(j2 + 1) == '/' {
        let j3 = expect(s, j2, "\"/>")?;
        let v = SelectContent { page_detection_tolerance: tol, page: Vec::new() };
        proof {
            subrange_join(s@, i as int, j1 as int, j2 as int);
            subrange_join(s@, i as int, j2 as int, j3 as int);
            assert(s@.subrange(i as int, j3 as int) =~= ser_select_content(v));
        }
        return Ok((v, j3));
    }
    let j3 = expect(s, j2, "\">")?;
    let mut xs: Vec<Page> = Vec::new();
    let mut j: usize = j3;
    let ghost mut k: int = 0;
    proof {
        assert(s@.subrange(j3 as int, j3 as int) =~= ser_sc_page_list(xs@));
    }
    loop
        invariant
            i <= j1 <= j2 <= j3 <= j <= s@.len(),
            k == xs@.len(),
            s@.subrange(i as int, j1 as int) == "<select-content pageDetectionTolerance=\""@,
            s@.subrange(j1 as int, j2 as int) == ser_decimal(tol),
            wf_decimal(tol),
            s@.subrange(j2 as int, j3 as int) == "\">"@,
            forall|t: int| 0 <= t < xs@.len() ==> wf_sc_page(#[trigger] xs@[t]),
            
            s@.subrange(j3 as int, j as int) == ser_sc_page_list(xs@),
            forall|w: SelectContent|
                #![trigger starts_with_at(s@, i as int, ser_select_content(w))]
                wf_select_content(w) && starts_with_at(s@, i as int, ser_select_content(w)) && w.page@.len() > 0
                    && j3 == i + ("<select-content pageDetectionTolerance=\""@ + ser_decimal(w.page_detection_tolerance) + "\">"@).len() ==> k <= w.page@.len()
                    && j == j3 + ser_sc_page_list(w.page@.take(k)).len(),
        decreases s@.len() - j,
    {
        proof {
            assert forall|w: SelectContent|
                wf_select_content(w) && #[trigger] starts_with_at(s@, i as int, ser_select_content(w))
                    && w.page@.len() > 0 && j3 == i + ("<select-content pageDetectionTolerance=\""@ + ser_decimal(w.page_detection_tolerance) + "\">"@).len()
                    && k < w.page@.len() implies wf_sc_page(w.page@[k]) && starts_with_at(
                s@,
                j as int,
                ser_sc_page(w.page@[k]),
            ) by {
                let ws = w.page@;
                assert(ws.take(k) + ws.skip(k) =~= ws);
                ser_sc_page_list_cat(ws.take(k), ws.skip(k));
                assert(starts_with_at(s@, j3 as int, ser_sc_page_list(ws)));
                starts_split(s@, j3 as int, ser_sc_page_list(ws.take(k)), ser_sc_page_list(ws.skip(k)));
                assert(ws.skip(k)[0] == ws[k]);
                assert(ws.skip(k).drop_first() =~= ws.skip(k + 1));
                assert(ser_sc_page_list(ws.skip(k)) == ser_sc_page(ws[k]) + ser_sc_page_list(ws.skip(k + 1)));
                starts_split(s@, j as int, ser_sc_page(ws[k]), ser_sc_page_list(ws.skip(k + 1)));
            }
        }
        match parse_sc_page(s, j) {
            Ok((x, j4)) => {
                proof {
                    assert forall|w: SelectContent|
                        wf_select_content(w) && #[trigger] starts_with_at(s@, i as int, ser_select_content(w))
                            && w.page@.len() > 0 && j3 == i + ("<select-content pageDetectionTolerance=\""@ + ser_decimal(w.page_detection_tolerance)
                            + "\">"@).len() implies k < w.page@.len() && j4 == j3 + ser_sc_page_list(
                        w.page@.take(k + 1),
                    ).len() by {
                        let ws = w.page@;
                        if k >= ws.len() {
                            assert(ws.take(k) =~= ws);
                            assert(starts_with_at(s@, j as int, "</select-content>"@));
                            assert(s@.subrange(j as int, j4 as int) == ser_sc_page(x));
                            reveal_strlit("\">");
                            reveal_strlit("</page>");
                            assert(ser_sc_page(x) == "<page id=\""@ + u64_dec(x.id as int)
                                + "\">"@ + ser_page_params(x.params) + "</page>"@);
                            assert(ser_sc_page(x).len() >= 2);
                            assert(j4 - j == ser_sc_page(x).len());
                            assert(s@[j + 1] == ser_sc_page(x)[1]) by {
                                assert(s@.subrange(j as int, j4 as int)[1] == s@[j + 1]);
                            }
                            assert(ser_sc_page(x)[1] == "<page id=\""@[1]);
                            assert(s@[j + 1] == "</select-content>"@[1]) by {
                                assert(s@.subrange(j as int, j + "</select-content>"@.len())[1] == s@[j
                                    + 1]);
                            }
                        } else {
                            assert(starts_with_at(s@, j as int, ser_sc_page(ws[k])));
                            ser_sc_page_list_snoc(ws.take(k), ws[k]);
                            assert(ws.take(k) + seq![ws[k]] =~= ws.take(k + 1));
                        }
                    }
                    ser_sc_page_list_snoc(xs@, x);
                    subrange_join(s@, j3 as int, j as int, j4 as int);
                }
                let ghost prev = xs@;
                xs.push(x);
                j = j4;
                proof {
                    k = k + 1;
                    assert(xs@ =~= prev + seq![x]);
                }
            },
            Err(_) => {
                proof {
                    assert forall|w: SelectContent|
                        wf_select_content(w) && #[trigger] starts_with_at(s@, i as int, ser_select_content(w))
                            && w.page@.len() > 0 && j3 == i + ("<select-content pageDetectionTolerance=\""@ + ser_decimal(w.page_detection_tolerance)
                            + "\">"@).len() implies k == w.page@.len() && j == j3 + ser_sc_page_list(
                        w.page@,
                    ).len() by {
                        if k < w.page@.len() {
                            assert(starts_with_at(
                                s@,
                                j as int,
                                ser_sc_page(w.page@[k]),
                            ));
                        } else {
                            assert(w.page@.take(k) =~= w.page@);
                        }
                    }
                }
                if xs.len() == 0 {
                    return Err(ParseError { pos: j, kind: ParseErrorKind::Unexpected });
                }
                let j5 = expect(s, j, "</select-content>")?;
                let v = SelectContent { page_detection_tolerance: tol, page: xs };
                proof {
                    subrange_join(s@, i as int, j1 as int, j2 as int);
                    subrange_join(s@, i as int, j2 as int, j3 as int);
                    subrange_join(s@, i as int, j3 as int, j as int);
                    subrange_join(s@, i as int, j as int, j5 as int);
                    assert(s@.subrange(i as int, j5 as int) =~= ser_select_content(v));
                }
                return Ok((v, j5));
            },
        }
    }
}


} // verus!
