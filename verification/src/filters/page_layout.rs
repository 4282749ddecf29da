//! The page-layout stage: hard margins, computed rectangles and alignment
//! per page.

use vstd::prelude::*;

use crate::common::{parse_float_size, ser_float_size, wf_float_size, write_float_size, FloatSize};
use crate::decimal::{Decimal, decimal_stop, parse_decimal, ser_decimal, wf_decimal, write_decimal};
use crate::filters::common::{
    parse_pos_rect, parse_rect, ser_pos_rect, ser_rect, wf_pos_rect, wf_rect, write_pos_rect,
    write_rect, PositiveRegionRect, Rect,
};
use crate::numbers::{digit_stop, parse_u64, u64_dec, write_u64};
use crate::wire::{ParseError, ParseErrorKind, expect, parse_bool, ser_bool, starts_split, starts_with_at, subrange_join, write_bool};

verus! {

#[derive(Clone, Copy, Debug, PartialEq, Eq, Structural)]
pub enum HorizontalAlignment {
    Left,
    Center,
    Right,
}

#[derive(Clone, Copy, Debug, PartialEq, Eq, Structural)]
pub enum VerticalAlignment {
    Top,
    Center,
    Bottom,
}

/// Page alignment; `null` set means alignment is disabled.
#[derive(Clone, Copy, Debug, PartialEq, Eq, Structural)]
pub struct Alignment {
    pub horizontal: HorizontalAlignment,
    pub null: bool,
    pub vertical: VerticalAlignment,
}

#[derive(Debug, Clone)]
pub struct HardMarginsMm {
    pub bottom: Decimal,
    pub left: Decimal,
    pub right: Decimal,
    pub top: Decimal,
}

#[derive(Debug, Clone)]
pub struct Params {
    pub auto_margins: bool,
    pub hard_margins_mm: HardMarginsMm,
    pub page_rect: Rect,
    pub content_rect: PositiveRegionRect,
    pub content_size: FloatSize,
    pub alignment: Alignment,
}

#[derive(Debug, Clone)]
pub struct Page {
    pub id: u32,
    pub params: Params,
}

#[derive(Debug, Clone)]
pub struct PageLayout {
    pub show_middle_rect: bool,
    pub page: Vec<Page>,
}

pub open spec fn wf_hard_margins(v: HardMarginsMm) -> bool {
    wf_decimal(v.bottom) && wf_decimal(v.left) && wf_decimal(v.right) && wf_decimal(v.top)
}

pub open spec fn wf_pl_params(v: Params) -> bool {
    &&& wf_hard_margins(v.hard_margins_mm)
    &&& wf_rect(v.page_rect)
    &&& wf_pos_rect(v.content_rect)
    &&& wf_float_size(v.content_size)
}

pub open spec fn wf_pl_page(v: Page) -> bool {
    wf_pl_params(v.params)
}

pub open spec fn wf_page_layout(v: PageLayout) -> bool {
    forall|k: int| 0 <= k < v.page@.len() ==> wf_pl_page(#[trigger] v.page@[k])
}

pub open spec fn ser_horizontal(v: HorizontalAlignment) -> Seq<char> {
    match v {
        HorizontalAlignment::Left => "left"@,
        HorizontalAlignment::Center => "center"@,
        HorizontalAlignment::Right => "right"@,
    }
}

pub open spec fn ser_vertical(v: VerticalAlignment) -> Seq<char> {
    match v {
        VerticalAlignment::Top => "top"@,
        VerticalAlignment::Center => "center"@,
        VerticalAlignment::Bottom => "bottom"@,
    }
}

pub fn write_horizontal(out: &mut String, v: HorizontalAlignment)
    ensures
        final(out)@ == old(out)@ + ser_horizontal(v),
{
    match v {
        HorizontalAlignment::Left => out.append("left"),
        HorizontalAlignment::Center => out.append("center"),
        HorizontalAlignment::Right => out.append("right"),
    }
}

pub fn write_vertical(out: &mut String, v: VerticalAlignment)
    ensures
        final(out)@ == old(out)@ + ser_vertical(v),
{
    match v {
        VerticalAlignment::Top => out.append("top"),
        VerticalAlignment::Center => out.append("center"),
        VerticalAlignment::Bottom => out.append("bottom"),
    }
}

pub fn parse_horizontal(s: &str, i: usize) -> (r: Result<(HorizontalAlignment, usize), ParseError>)
    requires
        i <= s@.len(),
    ensures
        match r {
            Ok((v, j)) => {
                &&& i < j <= s@.len()
                &&& s@.subrange(i as int, j as int) == ser_horizontal(v)
            },
            Err(_) => true,
        },
        forall|w: HorizontalAlignment|
            #![trigger starts_with_at(s@, i as int, ser_horizontal(w))]
            starts_with_at(s@, i as int, ser_horizontal(w)) ==> r is Ok && (r->Ok_0).1 == i + ser_horizontal(
                w,
            ).len(),
{
    proof {
        reveal_strlit("left");
        reveal_strlit("center");
        reveal_strlit("right");
        assert forall|w: HorizontalAlignment| #[trigger] starts_with_at(s@, i as int, ser_horizontal(w)) implies i < s@.len() && s@[i as int] == ser_horizontal(w)[0] by {
            match w {
            HorizontalAlignment::Left => {
                assert(s@.subrange(i as int, i + 4)[0] == s@[i as int]);
            },
            HorizontalAlignment::Center => {
                assert(s@.subrange(i as int, i + 6)[0] == s@[i as int]);
            },
            HorizontalAlignment::Right => {
                assert(s@.subrange(i as int, i + 5)[0] == s@[i as int]);
            },
            }
        }
    }
    let n = s.unicode_len();
    proof {
        reveal_strlit("left");
        reveal_strlit("center");
        reveal_strlit("right");
    }
    if i == n {
        return Err(ParseError { pos: i, kind: ParseErrorKind::Unexpected });
    }
    let c = s.get_char(i);
    if c == 'l' {
        let j = expect(s, i, "left")?;
        Ok((HorizontalAlignment::Left, j))
    } else if c == 'c' {
        let j = expect(s, i, "center")?;
        Ok((HorizontalAlignment::Center, j))
    } else {
        let j = expect(s, i, "right")?;
        Ok((HorizontalAlignment::Right, j))
    }
}

pub fn parse_vertical(s: &str, i: usize) -> (r: Result<(VerticalAlignment, usize), ParseError>)
    requires
        i <= s@.len(),
    ensures
        match r {
            Ok((v, j)) => {
                &&& i < j <= s@.len()
                &&& s@.subrange(i as int, j as int) == ser_vertical(v)
            },
            Err(_) => true,
        },
        forall|w: VerticalAlignment|
            #![trigger starts_with_at(s@, i as int, ser_vertical(w))]
            starts_with_at(s@, i as int, ser_vertical(w)) ==> r is Ok && (r->Ok_0).1 == i + ser_vertical(
                w,
            ).len(),
{
    proof {
        reveal_strlit("top");
        reveal_strlit("center");
        reveal_strlit("bottom");
        assert forall|w: VerticalAlignment| #[trigger] starts_with_at(s@, i as int, ser_vertical(w)) implies i < s@.len() && s@[i as int] == ser_vertical(w)[0] by {
            match w {
            VerticalAlignment::Top => {
                assert(s@.subrange(i as int, i + 3)[0] == s@[i as int]);
            },
            VerticalAlignment::Center => {
                assert(s@.subrange(i as int, i + 6)[0] == s@[i as int]);
            },
            VerticalAlignment::Bottom => {
                assert(s@.subrange(i as int, i + 6)[0] == s@[i as int]);
            },
            }
        }
    }
    let n = s.unicode_len();
    proof {
        reveal_strlit("top");
        reveal_strlit("center");
        reveal_strlit("bottom");
    }
    if i == n {
        return Err(ParseError { pos: i, kind: ParseErrorKind::Unexpected });
    }
    let c = s.get_char(i);
    if c == 't' {
        let j = expect(s, i, "top")?;
        Ok((VerticalAlignment::Top, j))
    } else if c == 'c' {
        let j = expect(s, i, "center")?;
        Ok((VerticalAlignment::Center, j))
    } else {
        let j = expect(s, i, "bottom")?;
        Ok((VerticalAlignment::Bottom, j))
    }
}

pub open spec fn ser_alignment(v: Alignment) -> Seq<char> {
    "<alignment hor=\""@ + ser_horizontal(v.horizontal) + "\" null=\""@ + ser_bool(v.null)
        + "\" vert=\""@ + ser_vertical(v.vertical) + "\"/>"@
}

pub fn write_alignment(out: &mut String, v: &Alignment)
    ensures
        final(out)@ == old(out)@ + ser_alignment(*v),
{
    out.append("<alignment hor=\"");
    write_horizontal(out, v.horizontal);
    out.append("\" null=\"");
    write_bool(out, v.null);
    out.append("\" vert=\"");
    write_vertical(out, v.vertical);
    out.append("\"/>");
    proof {
        assert(out@ =~= old(out)@ + ser_alignment(*v));
    }
}

#[verifier::rlimit(100)]
#[verifier::spinoff_prover]
pub fn parse_alignment(s: &str, i: usize) -> (r: Result<(Alignment, usize), ParseError>)
    requires
        i <= s@.len(),
    ensures
        match r {
            Ok((v, j)) => {
                &&& i < j <= s@.len()
                &&& s@.subrange(i as int, j as int) == ser_alignment(v)
            },
            Err(_) => true,
        },
        forall|w: Alignment|
            #![trigger starts_with_at(s@, i as int, ser_alignment(w))]
            true && starts_with_at(s@, i as int, ser_alignment(w)) ==> r is Ok && (
            r->Ok_0).1 == i + ser_alignment(w).len(),
{
    proof {
        reveal_strlit("<alignment hor=\"");
        reveal_strlit("\" null=\"");
        reveal_strlit("\" vert=\"");
        reveal_strlit("\"/>");
        assert forall|w: Alignment|
            true && #[trigger] starts_with_at(s@, i as int, ser_alignment(w)) implies {
            let a0 = "<alignment hor=\""@;
            let a1 = a0 + ser_horizontal(w.horizontal);
            let a2 = a1 + "\" null=\""@;
            let a3 = a2 + ser_bool(w.null);
            let a4 = a3 + "\" vert=\""@;
            let a5 = a4 + ser_vertical(w.vertical);
            let a6 = a5 + "\"/>"@;
            &&& starts_with_at(s@, i as int, "<alignment hor=\""@)
            &&& starts_with_at(s@, i + a0.len(), ser_horizontal(w.horizontal))
            &&& starts_with_at(s@, i + a1.len(), "\" null=\""@)
            &&& starts_with_at(s@, i + a2.len(), ser_bool(w.null))
            &&& starts_with_at(s@, i + a3.len(), "\" vert=\""@)
            &&& starts_with_at(s@, i + a4.len(), ser_vertical(w.vertical))
            &&& starts_with_at(s@, i + a5.len(), "\"/>"@)
        } by {
            let a0 = "<alignment hor=\""@;
            let a1 = a0 + ser_horizontal(w.horizontal);
            let a2 = a1 + "\" null=\""@;
            let a3 = a2 + ser_bool(w.null);
            let a4 = a3 + "\" vert=\""@;
            let a5 = a4 + ser_vertical(w.vertical);
            let a6 = a5 + "\"/>"@;
            starts_split(s@, i as int, a5, "\"/>"@);
            starts_split(s@, i as int, a4, ser_vertical(w.vertical));
            starts_split(s@, i as int, a3, "\" vert=\""@);
            starts_split(s@, i as int, a2, ser_bool(w.null));
            starts_split(s@, i as int, a1, "\" null=\""@);
            starts_split(s@, i as int, a0, ser_horizontal(w.horizontal));
        }
    }
    let j1 = expect(s, i, "<alignment hor=\"")?;
    let (h, j2) = parse_horizontal(s, j1)?;
    let j3 = expect(s, j2, "\" null=\"")?;
    let (nl, j4) = parse_bool(s, j3)?;
    let j5 = expect(s, j4, "\" vert=\"")?;
    let (vt, j6) = parse_vertical(s, j5)?;
    let j7 = expect(s, j6, "\"/>")?;
    let v = Alignment { horizontal: h, null: nl, vertical: vt };
    proof {
        subrange_join(s@, i as int, j1 as int, j2 as int);
        subrange_join(s@, i as int, j2 as int, j3 as int);
        subrange_join(s@, i as int, j3 as int, j4 as int);
        subrange_join(s@, i as int, j4 as int, j5 as int);
        subrange_join(s@, i as int, j5 as int, j6 as int);
        subrange_join(s@, i as int, j6 as int, j7 as int);
        assert(s@.subrange(i as int, j7 as int) =~= ser_alignment(v));
    }
    Ok((v, j7))
}

pub open spec fn ser_hard_margins(v: HardMarginsMm) -> Seq<char> {
    "<hardMarginsMM bottom=\""@ + ser_decimal(v.bottom) + "\" left=\""@ + ser_decimal(v.left)
        + "\" right=\""@ + ser_decimal(v.right) + "\" top=\""@ + ser_decimal(v.top) + "\"/>"@
}

#[verifier::rlimit(60)]
pub fn write_hard_margins(out: &mut String, v: &HardMarginsMm)
    requires
        wf_hard_margins(*v),
    ensures
        final(out)@ == old(out)@ + ser_hard_margins(*v),
{
    out.append("<hardMarginsMM bottom=\"");
    write_decimal(out, &v.bottom);
    out.append("\" left=\"");
    write_decimal(out, &v.left);
    out.append("\" right=\"");
    write_decimal(out, &v.right);
    out.append("\" top=\"");
    write_decimal(out, &v.top);
    out.append("\"/>");
    proof {
        assert(out@ =~= old(out)@ + ser_hard_margins(*v));
    }
}

#[verifier::rlimit(100)]
#[verifier::spinoff_prover]
pub fn parse_hard_margins(s: &str, i: usize) -> (r: Result<(HardMarginsMm, usize), ParseError>)
    requires
        i <= s@.len(),
    ensures
        match r {
            Ok((v, j)) => {
                &&& i < j <= s@.len()
                &&& wf_hard_margins(v)
                &&& s@.subrange(i as int, j as int) == ser_hard_margins(v)
            },
            Err(_) => true,
        },
        forall|w: HardMarginsMm|
            #![trigger starts_with_at(s@, i as int, ser_hard_margins(w))]
            wf_hard_margins(w) && starts_with_at(s@, i as int, ser_hard_margins(w)) ==> r is Ok && (
            r->Ok_0).1 == i + ser_hard_margins(w).len(),
{
    proof {
        reveal_strlit("<hardMarginsMM bottom=\"");
        reveal_strlit("\" left=\"");
        reveal_strlit("\" right=\"");
        reveal_strlit("\" top=\"");
        reveal_strlit("\"/>");
        assert forall|w: HardMarginsMm|
            wf_hard_margins(w) && #[trigger] starts_with_at(s@, i as int, ser_hard_margins(w)) implies {
            let a0 = "<hardMarginsMM bottom=\""@;
            let a1 = a0 + ser_decimal(w.bottom);
            let a2 = a1 + "\" left=\""@;
            let a3 = a2 + ser_decimal(w.left);
            let a4 = a3 + "\" right=\""@;
            let a5 = a4 + ser_decimal(w.right);
            let a6 = a5 + "\" top=\""@;
            let a7 = a6 + ser_decimal(w.top);
            let a8 = a7 + "\"/>"@;
            &&& starts_with_at(s@, i as int, "<hardMarginsMM bottom=\""@)
            &&& starts_with_at(s@, i + a0.len(), ser_decimal(w.bottom))
            &&& decimal_stop(s@, i + a1.len())
            &&& starts_with_at(s@, i + a1.len(), "\" left=\""@)
            &&& starts_with_at(s@, i + a2.len(), ser_decimal(w.left))
            &&& decimal_stop(s@, i + a3.len())
            &&& starts_with_at(s@, i + a3.len(), "\" right=\""@)
            &&& starts_with_at(s@, i + a4.len(), ser_decimal(w.right))
            &&& decimal_stop(s@, i + a5.len())
            &&& starts_with_at(s@, i + a5.len(), "\" top=\""@)
            &&& starts_with_at(s@, i + a6.len(), ser_decimal(w.top))
            &&& decimal_stop(s@, i + a7.len())
            &&& starts_with_at(s@, i + a7.len(), "\"/>"@)
        } by {
            let a0 = "<hardMarginsMM bottom=\""@;
            let a1 = a0 + ser_decimal(w.bottom);
            let a2 = a1 + "\" left=\""@;
            let a3 = a2 + ser_decimal(w.left);
            let a4 = a3 + "\" right=\""@;
            let a5 = a4 + ser_decimal(w.right);
            let a6 = a5 + "\" top=\""@;
            let a7 = a6 + ser_decimal(w.top);
            let a8 = a7 + "\"/>"@;
            starts_split(s@, i as int, a7, "\"/>"@);
            starts_split(s@, i as int, a6, ser_decimal(w.top));
            starts_split(s@, i as int, a5, "\" top=\""@);
            starts_split(s@, i as int, a4, ser_decimal(w.right));
            starts_split(s@, i as int, a3, "\" right=\""@);
            starts_split(s@, i as int, a2, ser_decimal(w.left));
            starts_split(s@, i as int, a1, "\" left=\""@);
            starts_split(s@, i as int, a0, ser_decimal(w.bottom));
            assert(s@.subrange(i + a1.len(), i + a1.len() + 8)[0] == s@[i + a1.len()]);
            assert(s@.subrange(i + a3.len(), i + a3.len() + 9)[0] == s@[i + a3.len()]);
            assert(s@.subrange(i + a5.len(), i + a5.len() + 7)[0] == s@[i + a5.len()]);
            assert(s@.subrange(i + a7.len(), i + a7.len() + 3)[0] == s@[i + a7.len()]);
        }
    }
    let j1 = expect(s, i, "<hardMarginsMM bottom=\"")?;
    let (b, j2) = parse_decimal(s, j1)?;
    let j3 = expect(s, j2, "\" left=\"")?;
    let (l, j4) = parse_decimal(s, j3)?;
    let j5 = expect(s, j4, "\" right=\"")?;
    let (rr, j6) = parse_decimal(s, j5)?;
    let j7 = expect(s, j6, "\" top=\"")?;
    let (t, j8) = parse_decimal(s, j7)?;
    let j9 = expect(s, j8, "\"/>")?;
    let v = HardMarginsMm { bottom: b, left: l, right: rr, top: t };
    proof {
        subrange_join(s@, i as int, j1 as int, j2 as int);
        subrange_join(s@, i as int, j2 as int, j3 as int);
        subrange_join(s@, i as int, j3 as int, j4 as int);
        subrange_join(s@, i as int, j4 as int, j5 as int);
        subrange_join(s@, i as int, j5 as int, j6 as int);
        subrange_join(s@, i as int, j6 as int, j7 as int);
        subrange_join(s@, i as int, j7 as int, j8 as int);
        subrange_join(s@, i as int, j8 as int, j9 as int);
        assert(s@.subrange(i as int, j9 as int) =~= ser_hard_margins(v));
    }
    Ok((v, j9))
}

pub open spec fn ser_pl_params(v: Params) -> Seq<char> {
    "<params autoMargins=\""@ + ser_bool(v.auto_margins) + "\">"@ + ser_hard_margins(
        v.hard_margins_mm,
    ) + ser_rect("pageRect"@, v.page_rect) + ser_pos_rect("contentRect"@, v.content_rect)
        + ser_float_size("contentSizeMM"@, v.content_size) + ser_alignment(v.alignment)
        + "</params>"@
}

pub fn write_pl_params(out: &mut String, v: &Params)
    requires
        wf_pl_params(*v),
    ensures
        final(out)@ == old(out)@ + ser_pl_params(*v),
{
    out.append("<params autoMargins=\"");
    write_bool(out, v.auto_margins);
    out.append("\">");
    write_hard_margins(out, &v.hard_margins_mm);
    write_rect(out, "pageRect", &v.page_rect);
    write_pos_rect(out, "contentRect", &v.content_rect);
    write_float_size(out, "contentSizeMM", &v.content_size);
    write_alignment(out, &v.alignment);
    out.append("</params>");
    proof {
        assert(out@ =~= old(out)@ + ser_pl_params(*v));
    }
}

#[verifier::rlimit(100)]
#[verifier::spinoff_prover]
pub fn parse_pl_params(s: &str, i: usize) -> (r: Result<(Params, usize), ParseError>)
    requires
        i <= s@.len(),
    ensures
        match r {
            Ok((v, j)) => {
                &&& i < j <= s@.len()
                &&& wf_pl_params(v)
                &&& s@.subrange(i as int, j as int) == ser_pl_params(v)
            },
            Err(_) => true,
        },
        forall|w: Params|
            #![trigger starts_with_at(s@, i as int, ser_pl_params(w))]
            wf_pl_params(w) && starts_with_at(s@, i as int, ser_pl_params(w)) ==> r is Ok && (
            r->Ok_0).1 == i + ser_pl_params(w).len(),
{
    proof {
        reveal_strlit("<params autoMargins=\"");
        reveal_strlit("\">");
        reveal_strlit("</params>");
        assert forall|w: Params|
            wf_pl_params(w) && #[trigger] starts_with_at(s@, i as int, ser_pl_params(w)) implies {
            let a0 = "<params autoMargins=\""@;
            let a1 = a0 + ser_bool(w.auto_margins);
            let a2 = a1 + "\">"@;
            let a3 = a2 + ser_hard_margins(w.hard_margins_mm);
            let a4 = a3 + ser_rect("pageRect"@, w.page_rect);
            let a5 = a4 + ser_pos_rect("contentRect"@, w.content_rect);
            let a6 = a5 + ser_float_size("contentSizeMM"@, w.content_size);
            let a7 = a6 + ser_alignment(w.alignment);
            let a8 = a7 + "</params>"@;
            &&& starts_with_at(s@, i as int, "<params autoMargins=\""@)
            &&& starts_with_at(s@, i + a0.len(), ser_bool(w.auto_margins))
            &&& starts_with_at(s@, i + a1.len(), "\">"@)
            &&& starts_with_at(s@, i + a2.len(), ser_hard_margins(w.hard_margins_mm))
            &&& starts_with_at(s@, i + a3.len(), ser_rect("pageRect"@, w.page_rect))
            &&& starts_with_at(s@, i + a4.len(), ser_pos_rect("contentRect"@, w.content_rect))
            &&& starts_with_at(s@, i + a5.len(), ser_float_size("contentSizeMM"@, w.content_size))
            &&& starts_with_at(s@, i + a6.len(), ser_alignment(w.alignment))
            &&& starts_with_at(s@, i + a7.len(), "</params>"@)
        } by {
            let a0 = "<params autoMargins=\""@;
            let a1 = a0 + ser_bool(w.auto_margins);
            let a2 = a1 + "\">"@;
            let a3 = a2 + ser_hard_margins(w.hard_margins_mm);
            let a4 = a3 + ser_rect("pageRect"@, w.page_rect);
            let a5 = a4 + ser_pos_rect("contentRect"@, w.content_rect);
            let a6 = a5 + ser_float_size("contentSizeMM"@, w.content_size);
            let a7 = a6 + ser_alignment(w.alignment);
            let a8 = a7 + "</params>"@;
            starts_split(s@, i as int, a7, "</params>"@);
            starts_split(s@, i as int, a6, ser_alignment(w.alignment));
            starts_split(s@, i as int, a5, ser_float_size("contentSizeMM"@, w.content_size));
            starts_split(s@, i as int, a4, ser_pos_rect("contentRect"@, w.content_rect));
            starts_split(s@, i as int, a3, ser_rect("pageRect"@, w.page_rect));
            starts_split(s@, i as int, a2, ser_hard_margins(w.hard_margins_mm));
            starts_split(s@, i as int, a1, "\">"@);
            starts_split(s@, i as int, a0, ser_bool(w.auto_margins));
        }
    }
    let j1 = expect(s, i, "<params autoMargins=\"")?;
    let (am, j2) = parse_bool(s, j1)?;
    let j3 = expect(s, j2, "\">")?;
    let (hm, j4) = parse_hard_margins(s, j3)?;
    let (pr, j5) = parse_rect(s, j4, "pageRect")?;
    let (cr, j6) = parse_pos_rect(s, j5, "contentRect")?;
    let (cs, j7) = parse_float_size(s, j6, "contentSizeMM")?;
    let (al, j8) = parse_alignment(s, j7)?;
    let j9 = expect(s, j8, "</params>")?;
    let v = Params {
        auto_margins: am,
        hard_margins_mm: hm,
        page_rect: pr,
        content_rect: cr,
        content_size: cs,
        alignment: al,
    };
    proof {
        subrange_join(s@, i as int, j1 as int, j2 as int);
        subrange_join(s@, i as int, j2 as int, j3 as int);
        subrange_join(s@, i as int, j3 as int, j4 as int);
        subrange_join(s@, i as int, j4 as int, j5 as int);
        subrange_join(s@, i as int, j5 as int, j6 as int);
        subrange_join(s@, i as int, j6 as int, j7 as int);
        subrange_join(s@, i as int, j7 as int, j8 as int);
        subrange_join(s@, i as int, j8 as int, j9 as int);
        assert(s@.subrange(i as int, j9 as int) =~= ser_pl_params(v));
    }
    Ok((v, j9))
}

pub open spec fn ser_pl_page(v: Page) -> Seq<char> {
    "<page id=\""@ + u64_dec(v.id as int) + "\">"@ + ser_pl_params(v.params) + "</page>"@
}

pub fn write_pl_page(out: &mut String, v: &Page)
    requires
        wf_pl_page(*v),
    ensures
        final(out)@ == old(out)@ + ser_pl_page(*v),
{
    out.append("<page id=\"");
    write_u64(out, v.id as u64);
    out.append("\">");
    write_pl_params(out, &v.params);
    out.append("</page>");
    proof {
        assert(out@ =~= old(out)@ + ser_pl_page(*v));
    }
}

#[verifier::rlimit(100)]
#[verifier::spinoff_prover]
pub fn parse_pl_page(s: &str, i: usize) -> (r: Result<(Page, usize), ParseError>)
    requires
        i <= s@.len(),
    ensures
        match r {
            Ok((v, j)) => {
                &&& i < j <= s@.len()
                &&& wf_pl_page(v)
                &&& s@.subrange(i as int, j as int) == ser_pl_page(v)
            },
            Err(_) => true,
        },
        forall|w: Page|
            #![trigger starts_with_at(s@, i as int, ser_pl_page(w))]
            wf_pl_page(w) && starts_with_at(s@, i as int, ser_pl_page(w)) ==> r is Ok && (
            r->Ok_0).1 == i + ser_pl_page(w).len(),
{
    proof {
        reveal_strlit("<page id=\"");
        reveal_strlit("\">");
        reveal_strlit("</page>");
        assert forall|w: Page|
            wf_pl_page(w) && #[trigger] starts_with_at(s@, i as int, ser_pl_page(w)) implies {
            let a0 = "<page id=\""@;
            let a1 = a0 + u64_dec(w.id as int);
            let a2 = a1 + "\">"@;
            let a3 = a2 + ser_pl_params(w.params);
            let a4 = a3 + "</page>"@;
            &&& starts_with_at(s@, i as int, "<page id=\""@)
            &&& starts_with_at(s@, i + a0.len(), u64_dec(w.id as int))
            &&& digit_stop(s@, i + a1.len())
            &&& starts_with_at(s@, i + a1.len(), "\">"@)
            &&& starts_with_at(s@, i + a2.len(), ser_pl_params(w.params))
            &&& starts_with_at(s@, i + a3.len(), "</page>"@)
        } by {
            let a0 = "<page id=\""@;
            let a1 = a0 + u64_dec(w.id as int);
            let a2 = a1 + "\">"@;
            let a3 = a2 + ser_pl_params(w.params);
            let a4 = a3 + "</page>"@;
            starts_split(s@, i as int, a3, "</page>"@);
            starts_split(s@, i as int, a2, ser_pl_params(w.params));
            starts_split(s@, i as int, a1, "\">"@);
            starts_split(s@, i as int, a0, u64_dec(w.id as int));
            assert(s@.subrange(i + a1.len(), i + a1.len() + 2)[0] == s@[i + a1.len()]);
        }
    }
    let j1 = expect(s, i, "<page id=\"")?;
    let (id, j2) = parse_u64(s, j1, 0xffffffff)?;
    let j3 = expect(s, j2, "\">")?;
    let (params, j4) = parse_pl_params(s, j3)?;
    let j5 = expect(s, j4, "</page>")?;
    let v = Page { id: id as u32, params };
    proof {
        subrange_join(s@, i as int, j1 as int, j2 as int);
        subrange_join(s@, i as int, j2 as int, j3 as int);
        subrange_join(s@, i as int, j3 as int, j4 as int);
        subrange_join(s@, i as int, j4 as int, j5 as int);
        assert(s@.subrange(i as int, j5 as int) =~= ser_pl_page(v));
    }
    Ok((v, j5))
}

pub open spec fn ser_pl_page_list(xs: Seq<Page>) -> Seq<char>
    decreases xs.len(),
{
    if xs.len() == 0 {
        Seq::<char>::empty()
    } else {
        ser_pl_page(xs[0]) + ser_pl_page_list(xs.drop_first())
    }
}

#[verifier::rlimit(100)]
#[verifier::spinoff_prover]
pub proof fn ser_pl_page_list_snoc(xs: Seq<Page>, x: Page)
    ensures
        ser_pl_page_list(xs + seq![x]) == ser_pl_page_list(xs) + ser_pl_page(x),
    decreases xs.len(),
{
    assert(ser_pl_page_list(Seq::<Page>::empty()) =~= Seq::<char>::empty());
    if xs.len() == 0 {
        assert(xs + seq![x] =~= seq![x]);
        assert(seq![x].drop_first() =~= Seq::<Page>::empty());
        assert(ser_pl_page_list(seq![x]) =~= ser_pl_page(x));
        assert(ser_pl_page_list(xs + seq![x]) =~= ser_pl_page_list(xs) + ser_pl_page(x));
    } else {
        assert((xs + seq![x]).drop_first() =~= xs.drop_first() + seq![x]);
        ser_pl_page_list_snoc(xs.drop_first(), x);
        assert(ser_pl_page_list(xs + seq![x]) =~= ser_pl_page_list(xs) + ser_pl_page(x));
    }
}

#[verifier::rlimit(100)]
#[verifier::spinoff_prover]
pub proof fn ser_pl_page_list_cat(xs: Seq<Page>, ys: Seq<Page>)
    ensures
        ser_pl_page_list(xs + ys) == ser_pl_page_list(xs) + ser_pl_page_list(ys),
    decreases xs.len(),
{
    if xs.len() == 0 {
        assert(xs + ys =~= ys);
        assert(ser_pl_page_list(xs) + ser_pl_page_list(ys) =~= ser_pl_page_list(ys));
    } else {
        assert((xs + ys).drop_first() =~= xs.drop_first() + ys);
        ser_pl_page_list_cat(xs.drop_first(), ys);
        assert(ser_pl_page_list(xs + ys) =~= ser_pl_page_list(xs) + ser_pl_page_list(ys));
    }
}

/// `<page-layout showMiddleRect="...">`, self-closing with no pages.
pub open spec fn ser_page_layout(v: PageLayout) -> Seq<char> {
    "<page-layout showMiddleRect=\""@ + ser_bool(v.show_middle_rect) + (
    if v.page@.len() == 0 {
        "\"/>"@
    } else {
        "\">"@ + ser_pl_page_list(v.page@) + "</page-layout>"@
    })
}

#[verifier::rlimit(60)]
pub fn write_page_layout(out: &mut String, v: &PageLayout)
    requires
        wf_page_layout(*v),
    ensures
        final(out)@ == old(out)@ + ser_page_layout(*v),
{
    out.append("<page-layout showMiddleRect=\"");
    write_bool(out, v.show_middle_rect);
    if v.page.len() == 0 {
        out.append("\"/>");
        proof {
            assert(out@ =~= old(out)@ + ser_page_layout(*v));
        }
        return ;
    }
    out.append("\">");
    let ghost head = old(out)@ + "<page-layout showMiddleRect=\""@ + ser_bool(v.show_middle_rect)
        + "\">"@;
    let n = v.page.len();
    let mut k: usize = 0;
    proof {
        assert(v.page@.take(0) =~= Seq::<Page>::empty());
        assert(ser_pl_page_list(v.page@.take(0)) =~= Seq::<char>::empty());
        assert(out@ =~= head + ser_pl_page_list(v.page@.take(0)));
    }
    while k < n
        invariant
            0 <= k <= n == v.page@.len(),
            wf_page_layout(*v),
            out@ == head + ser_pl_page_list(v.page@.take(k as int)),
        decreases n - k,
    {
        write_pl_page(out, &v.page[k]);
        k = k + 1;
        proof {
            ser_pl_page_list_snoc(v.page@.take(k - 1), v.page@[k - 1]);
            assert(v.page@.take(k - 1) + seq![v.page@[k - 1]] =~= v.page@.take(k as int));
        }
    }
    out.append("</page-layout>");
    proof {
        assert(v.page@.take(n as int) =~= v.page@);
        assert(out@ =~= old(out)@ + ser_page_layout(*v));
    }
}

pub fn parse_page_layout(s: &str, i: usize) -> (r: Result<(PageLayout, usize), ParseError>)
    requires
        i <= s@.len(),
    ensures
        match r {
            Ok((v, j)) => {
                &&& i < j <= s@.len()
                &&& wf_page_layout(v)
                &&& s@.subrange(i as int, j as int) == ser_page_layout(v)
            },
            Err(_) => true,
        },
{
    let n = s.unicode_len();
    proof {
        reveal_strlit("\"/>");
        reveal_strlit("\">");
    }
    let j1 = expect(s, i, "<page-layout showMiddleRect=\"")?;
    let (smr, j2) = parse_bool(s, j1)?;
    if n - j2 >= 2 && s.get_char(j2 + 1) == '/' {
        let j3 = expect(s, j2, "\"/>")?;
        let v = PageLayout { show_middle_rect: smr, page: Vec::new() };
        proof {
            subrange_join(s@, i as int, j1 as int, j2 as int);
            subrange_join(s@, i as int, j2 as int, j3 as int);
            assert(s@.subrange(i as int, j3 as int) =~= ser_page_layout(v));
        }
        return Ok((v, j3));
    }
    let j3 = expect(s, j2, "\">")?;
    let ghost head = "<page-layout showMiddleRect=\""@ + ser_bool(smr) + "\">"@;
    proof {
        subrange_join(s@, i as int, j1 as int, j2 as int);
        subrange_join(s@, i as int, j2 as int, j3 as int);
        assert(s@.subrange(i as int, j3 as int) =~= head);
    }
    let mut xs: Vec<Page> = Vec::new();
    let mut j: usize = j3;
    proof {
        assert(s@.subrange(j3 as int, j3 as int) =~= ser_pl_page_list(xs@));
    }
    loop
        invariant
            i <= j3 <= j <= s@.len(),
            s@.subrange(i as int, j3 as int) == head,
            head == "<page-layout showMiddleRect=\""@ + ser_bool(smr) + "\">"@,
            forall|t: int| 0 <= t < xs@.len() ==> wf_pl_page(#[trigger] xs@[t]),
            s@.subrange(j3 as int, j as int) == ser_pl_page_list(xs@),
        decreases s@.len() - j,
    {
        match parse_pl_page(s, j) {
            Ok((x, j4)) => {
                proof {
                    ser_pl_page_list_snoc(xs@, x);
                    subrange_join(s@, j3 as int, j as int, j4 as int);
                }
                let ghost prev = xs@;
                xs.push(x);
                j = j4;
                proof {
                    assert(xs@ =~= prev + seq![x]);
                }
            },
            Err(_) => {
                break ;
            },
        }
    }
    if xs.len() == 0 {
        return Err(ParseError { pos: j, kind: ParseErrorKind::Unexpected });
    }
    let j5 = expect(s, j, "</page-layout>")?;
    let v = PageLayout { show_middle_rect: smr, page: xs };
    proof {
        subrange_join(s@, i as int, j3 as int, j as int);
        subrange_join(s@, i as int, j as int, j5 as int);
        assert(s@.subrange(i as int, j5 as int) =~= ser_page_layout(v));
    }
    Ok((v, j5))
}

} // verus!
