//! The page-split stage: the chosen split geometry per image. The wire
//! shape of the `pages` element carries a `type` discriminator plus zero,
//! one or two cutters, and the two must agree; the resolver turns that
//! shape into a closed sum type.

use vstd::prelude::*;

use crate::common::{parse_int_size, parse_pointlike, ser_int_size, ser_pointlike, wf_point,
    write_int_size, write_pointlike, IntSize, Point};
use crate::common::{parse_points_exact, ser_points, wf_points};
use crate::filters::common::{
    parse_rotation, ser_rotation, wf_filled_outline, write_rotation, FilledOutline, Rotation,
};
use crate::numbers::{digit_stop, parse_u64, u64_dec, write_u64};
use crate::wire::{ParseError, ParseErrorKind, expect, starts_split, starts_with_at, subrange_join};

verus! {

/// The default layout choice of the project; only automatic detection
/// exists on the wire.
#[derive(Clone, Copy, Debug, PartialEq, Eq, Structural)]
pub enum DefaultLayoutType {
    AutoDetect,
}

/// The three split geometries.
#[derive(Clone, Copy, Debug, PartialEq, Eq, Structural)]
pub enum LayoutType {
    SingleUncut,
    SingleCut,
    TwoPages,
}

#[derive(Clone, Copy, Debug, PartialEq, Eq, Structural)]
pub enum Mode {
    Auto,
    Manual,
}

/// A cut line: two endpoints.
#[derive(Debug, Clone)]
pub struct Cutter {
    pub p1: Point,
    pub p2: Point,
}

#[derive(Debug, Clone)]
pub struct SingleUncutPages {
    pub outline: FilledOutline,
}

#[derive(Debug, Clone)]
pub struct SingleCutPages {
    pub outline: FilledOutline,
    pub cutter1: Cutter,
    pub cutter2: Cutter,
}

#[derive(Debug, Clone)]
pub struct TwoPagesPages {
    pub outline: FilledOutline,
    pub cutter1: Cutter,
}

/// The resolved split geometry.
#[derive(Debug, Clone)]
pub enum Pages {
    SingleUncut(SingleUncutPages),
    SingleCut(SingleCutPages),
    TwoPages(TwoPagesPages),
}

#[derive(Debug, Clone)]
pub struct Dependencies {
    pub rotation: Rotation,
    pub size: IntSize,
    pub layout_type: LayoutType,
}

#[derive(Debug, Clone)]
pub struct Params {
    pub mode: Mode,
    pub pages: Pages,
    pub dependencies: Dependencies,
}

#[derive(Debug, Clone)]
pub struct Image {
    pub id: u32,
    pub layout_type: LayoutType,
    pub params: Params,
}

#[derive(Debug, Clone)]
pub struct PageSplit {
    pub default_layout_type: DefaultLayoutType,
    pub image: Vec<Image>,
}

pub open spec fn wf_cutter(c: Cutter) -> bool {
    wf_point(c.p1) && wf_point(c.p2)
}

pub open spec fn wf_pages(p: Pages) -> bool {
    match p {
        Pages::SingleUncut(u) => wf_filled_outline(u.outline),
        Pages::SingleCut(u) => wf_filled_outline(u.outline) && wf_cutter(u.cutter1) && wf_cutter(
            u.cutter2,
        ),
        Pages::TwoPages(u) => wf_filled_outline(u.outline) && wf_cutter(u.cutter1),
    }
}

pub open spec fn wf_params(p: Params) -> bool {
    wf_pages(p.pages)
}

pub open spec fn wf_ps_image(v: Image) -> bool {
    wf_params(v.params)
}

pub open spec fn wf_page_split(v: PageSplit) -> bool {
    forall|k: int| 0 <= k < v.image@.len() ==> wf_ps_image(#[trigger] v.image@[k])
}

/// The declared geometry of a resolved `pages` value.
pub open spec fn pages_tag(p: Pages) -> LayoutType {
    match p {
        Pages::SingleUncut(_) => LayoutType::SingleUncut,
        Pages::SingleCut(_) => LayoutType::SingleCut,
        Pages::TwoPages(_) => LayoutType::TwoPages,
    }
}

/// Decide the variant from the declared type and the cutters that were
/// present. Exactly these combinations resolve: `single-uncut` with no
/// cutters, `single-cut` with both, `two-pages` with the first alone; any
/// other shape is the hard parse error for an unknown pages structure.
pub fn resolve_pages(
    ty: LayoutType,
    outline: FilledOutline,
    cutter1: Option<Cutter>,
    cutter2: Option<Cutter>,
    at: usize,
) -> (r: Result<Pages, ParseError>)
    ensures
        match r {
            Ok(p) => {
                &&& pages_tag(p) == ty
                &&& match p {
                    Pages::SingleUncut(u) => {
                        &&& u.outline == outline
                        &&& cutter1 is None
                        &&& cutter2 is None
                    },
                    Pages::SingleCut(u) => {
                        &&& u.outline == outline
                        &&& cutter1 == Option::Some(u.cutter1)
                        &&& cutter2 == Option::Some(u.cutter2)
                    },
                    Pages::TwoPages(u) => {
                        &&& u.outline == outline
                        &&& cutter1 == Option::Some(u.cutter1)
                        &&& cutter2 is None
                    },
                }
            },
            Err(e) => {
                &&& !(ty == LayoutType::SingleUncut && cutter1 is None && cutter2 is None)
                &&& !(ty == LayoutType::SingleCut && cutter1 is Some && cutter2 is Some)
                &&& !(ty == LayoutType::TwoPages && cutter1 is Some && cutter2 is None)
                &&& e.kind == ParseErrorKind::UnknownPagesStructure
            },
        },
{
    match (ty, cutter1, cutter2) {
        (LayoutType::SingleUncut, Option::None, Option::None) => Ok(
            Pages::SingleUncut(SingleUncutPages { outline }),
        ),
        (LayoutType::SingleCut, Option::Some(cutter1), Option::Some(cutter2)) => Ok(
            Pages::SingleCut(SingleCutPages { outline, cutter1, cutter2 }),
        ),
        (LayoutType::TwoPages, Option::Some(cutter1), Option::None) => Ok(
            Pages::TwoPages(TwoPagesPages { outline, cutter1 }),
        ),
        _ => Err(ParseError { pos: at, kind: ParseErrorKind::UnknownPagesStructure }),
    }
}

pub open spec fn ser_layout_type(v: LayoutType) -> Seq<char> {
    match v {
        LayoutType::SingleUncut => "single-uncut"@,
        LayoutType::SingleCut => "single-cut"@,
        LayoutType::TwoPages => "two-pages"@,
    }
}

pub fn write_layout_type(out: &mut String, v: LayoutType)
    ensures
        final(out)@ == old(out)@ + ser_layout_type(v),
{
    match v {
        LayoutType::SingleUncut => out.append("single-uncut"),
        LayoutType::SingleCut => out.append("single-cut"),
        LayoutType::TwoPages => out.append("two-pages"),
    }
}

pub fn parse_layout_type(s: &str, i: usize) -> (r: Result<(LayoutType, usize), ParseError>)
    requires
        i <= s@.len(),
    ensures
        match r {
            Ok((v, j)) => {
                &&& i < j <= s@.len()
                &&& s@.subrange(i as int, j as int) == ser_layout_type(v)
            },
            Err(_) => true,
        },
        forall|w: LayoutType|
            #![trigger starts_with_at(s@, i as int, ser_layout_type(w))]
            starts_with_at(s@, i as int, ser_layout_type(w)) ==> r is Ok && (r->Ok_0).1 == i + ser_layout_type(
                w,
            ).len(),
{
    proof {
        reveal_strlit("single-uncut");
        reveal_strlit("single-cut");
        reveal_strlit("two-pages");
        assert forall|w: LayoutType| #[trigger] starts_with_at(s@, i as int, ser_layout_type(w)) implies i < s@.len() && s@[i as int] == ser_layout_type(w)[0] && (w is SingleUncut ==> s@[i + 7] == 'u') && (w is SingleCut ==> s@[i + 7] == 'c') by {
            match w {
            LayoutType::SingleUncut => {
                assert(s@.subrange(i as int, i + 12)[0] == s@[i as int]);
                assert(s@.subrange(i as int, i + 12)[7] == s@[i + 7]);
            },
            LayoutType::SingleCut => {
                assert(s@.subrange(i as int, i + 10)[0] == s@[i as int]);
                assert(s@.subrange(i as int, i + 10)[7] == s@[i + 7]);
            },
            LayoutType::TwoPages => {
                assert(s@.subrange(i as int, i + 9)[0] == s@[i as int]);
            },
            }
        }
    }
    let n = s.unicode_len();
    proof {
        reveal_strlit("single-uncut");
        reveal_strlit("single-cut");
        reveal_strlit("two-pages");
    }
    if i == n {
        return Err(ParseError { pos: i, kind: ParseErrorKind::Unexpected });
    }
    let c = s.get_char(i);
    if c == 't' {
        let j = expect(s, i, "two-pages")?;
        return Ok((LayoutType::TwoPages, j));
    }
    if n - i >= 8 && s.get_char(i + 7) == 'u' {
        let j = expect(s, i, "single-uncut")?;
        Ok((LayoutType::SingleUncut, j))
    } else {
        let j = expect(s, i, "single-cut")?;
        Ok((LayoutType::SingleCut, j))
    }
}

/// Distinct layout types have distinct wire literals.
pub proof fn layout_type_ser_injective(a: LayoutType, b: LayoutType)
    requires
        ser_layout_type(a) == ser_layout_type(b),
    ensures
        a == b,
{
    reveal_strlit("single-uncut");
    reveal_strlit("single-cut");
    reveal_strlit("two-pages");
    match (a, b) {
        (LayoutType::SingleUncut, LayoutType::SingleCut) => {
            assert("single-uncut"@.len() == 12 && "single-cut"@.len() == 10);
        },
        (LayoutType::SingleCut, LayoutType::SingleUncut) => {
            assert("single-uncut"@.len() == 12 && "single-cut"@.len() == 10);
        },
        (LayoutType::SingleUncut, LayoutType::TwoPages) => {
            assert("single-uncut"@[0] == 's' && "two-pages"@[0] == 't');
        },
        (LayoutType::TwoPages, LayoutType::SingleUncut) => {
            assert("single-uncut"@[0] == 's' && "two-pages"@[0] == 't');
        },
        (LayoutType::SingleCut, LayoutType::TwoPages) => {
            assert("single-cut"@[0] == 's' && "two-pages"@[0] == 't');
        },
        (LayoutType::TwoPages, LayoutType::SingleCut) => {
            assert("single-cut"@[0] == 's' && "two-pages"@[0] == 't');
        },
        _ => {},
    }
}

pub open spec fn ser_mode(v: Mode) -> Seq<char> {
    match v {
        Mode::Auto => "auto"@,
        Mode::Manual => "manual"@,
    }
}

pub fn write_mode(out: &mut String, v: Mode)
    ensures
        final(out)@ == old(out)@ + ser_mode(v),
{
    match v {
        Mode::Auto => out.append("auto"),
        Mode::Manual => out.append("manual"),
    }
}

pub fn parse_mode(s: &str, i: usize) -> (r: Result<(Mode, usize), ParseError>)
    requires
        i <= s@.len(),
    ensures
        match r {
            Ok((v, j)) => {
                &&& i < j <= s@.len()
                &&& s@.subrange(i as int, j as int) == ser_mode(v)
            },
            Err(_) => true,
        },
        forall|w: Mode|
            #![trigger starts_with_at(s@, i as int, ser_mode(w))]
            starts_with_at(s@, i as int, ser_mode(w)) ==> r is Ok && (r->Ok_0).1 == i + ser_mode(
                w,
            ).len(),
{
    proof {
        reveal_strlit("auto");
        reveal_strlit("manual");
        assert forall|w: Mode| #[trigger] starts_with_at(s@, i as int, ser_mode(w)) implies i < s@.len() && s@[i as int] == ser_mode(w)[0] by {
            match w {
            Mode::Auto => {
                assert(s@.subrange(i as int, i + 4)[0] == s@[i as int]);
            },
            Mode::Manual => {
                assert(s@.subrange(i as int, i + 6)[0] == s@[i as int]);
            },
            }
        }
    }
    let n = s.unicode_len();
    proof {
        reveal_strlit("auto");
        reveal_strlit("manual");
    }
    if i == n {
        return Err(ParseError { pos: i, kind: ParseErrorKind::Unexpected });
    }
    if s.get_char(i) == 'a' {
        let j = expect(s, i, "auto")?;
        Ok((Mode::Auto, j))
    } else {
        let j = expect(s, i, "manual")?;
        Ok((Mode::Manual, j))
    }
}

/// `<outline>` holding exactly five points.
pub open spec fn ser_split_outline(v: FilledOutline) -> Seq<char> {
    "<outline>"@ + ser_points(v.point@) + "</outline>"@
}

pub fn write_split_outline(out: &mut String, v: &FilledOutline)
    requires
        wf_filled_outline(*v),
    ensures
        final(out)@ == old(out)@ + ser_split_outline(*v),
{
    out.append("<outline>");
    crate::common::write_points(out, &v.point);
    out.append("</outline>");
    proof {
        assert(out@ =~= old(out)@ + ser_split_outline(*v));
    }
}

#[verifier::rlimit(100)]
#[verifier::spinoff_prover]
pub fn parse_split_outline(s: &str, i: usize) -> (r: Result<(FilledOutline, usize), ParseError>)
    requires
        i <= s@.len(),
    ensures
        match r {
            Ok((v, j)) => {
                &&& i < j <= s@.len()
                &&& wf_filled_outline(v)
                &&& s@.subrange(i as int, j as int) == ser_split_outline(v)
            },
            Err(_) => true,
        },
        forall|w: FilledOutline|
            #![trigger starts_with_at(s@, i as int, ser_split_outline(w))]
            wf_filled_outline(w) && starts_with_at(s@, i as int, ser_split_outline(w)) ==> r is Ok && (
            r->Ok_0).1 == i + ser_split_outline(w).len(),
{
    proof {
        reveal_strlit("<outline>");
        reveal_strlit("</outline>");
        assert forall|w: FilledOutline|
            wf_filled_outline(w) && #[trigger] starts_with_at(s@, i as int, ser_split_outline(w)) implies {
            let a0 = "<outline>"@;
            let a1 = a0 + ser_points(w.point@);
            let a2 = a1 + "</outline>"@;
            &&& starts_with_at(s@, i as int, "<outline>"@)
            &&& starts_with_at(s@, i + a0.len(), ser_points(w.point@))
            &&& starts_with_at(s@, i + a1.len(), "</outline>"@)
        } by {
            let a0 = "<outline>"@;
            let a1 = a0 + ser_points(w.point@);
            let a2 = a1 + "</outline>"@;
            starts_split(s@, i as int, a1, "</outline>"@);
            starts_split(s@, i as int, a0, ser_points(w.point@));
        }
    }
    let j1 = expect(s, i, "<outline>")?;
    let (pts, j2) = parse_points_exact(s, j1, 5)?;
    let j3 = expect(s, j2, "</outline>")?;
    let v = FilledOutline { point: pts };
    proof {
        subrange_join(s@, i as int, j1 as int, j2 as int);
        subrange_join(s@, i as int, j2 as int, j3 as int);
        assert(s@.subrange(i as int, j3 as int) =~= ser_split_outline(v));
    }
    Ok((v, j3))
}

/// `<cutter1>`/`<cutter2>`: two endpoints.
pub open spec fn ser_cutter(name: Seq<char>, v: Cutter) -> Seq<char> {
    seq!['<'] + name + ">"@ + ser_pointlike("p1"@, v.p1) + ser_pointlike("p2"@, v.p2) + "</"@
        + name + ">"@
}

pub fn write_cutter(out: &mut String, name: &str, v: &Cutter)
    requires
        wf_cutter(*v),
    ensures
        final(out)@ == old(out)@ + ser_cutter(name@, *v),
{
    out.append("<");
    out.append(name);
    out.append(">");
    write_pointlike(out, "p1", &v.p1);
    write_pointlike(out, "p2", &v.p2);
    out.append("</");
    out.append(name);
    out.append(">");
    proof {
        reveal_strlit("<");
        reveal_strlit("</");
        assert(out@ =~= old(out)@ + ser_cutter(name@, *v));
    }
}

#[verifier::rlimit(100)]
#[verifier::spinoff_prover]
pub fn parse_cutter(s: &str, i: usize, name: &str) -> (r: Result<(Cutter, usize), ParseError>)
    requires
        i <= s@.len(),
    ensures
        match r {
            Ok((v, j)) => {
                &&& i < j <= s@.len()
                &&& wf_cutter(v)
                &&& s@.subrange(i as int, j as int) == ser_cutter(name@, v)
            },
            Err(_) => true,
        },
        forall|w: Cutter|
            #![trigger starts_with_at(s@, i as int, ser_cutter(name@, w))]
            wf_cutter(w) && starts_with_at(s@, i as int, ser_cutter(name@, w)) ==> r is Ok && (
            r->Ok_0).1 == i + ser_cutter(name@, w).len(),
{
    proof {
        reveal_strlit(">");
        reveal_strlit("</");
        reveal_strlit("<");
        assert("<"@ =~= seq!['<']);
        assert forall|w: Cutter|
            wf_cutter(w) && #[trigger] starts_with_at(s@, i as int, ser_cutter(name@, w)) implies {
            let a0 = seq!['<'];
            let a1 = a0 + name@;
            let a2 = a1 + ">"@;
            let a3 = a2 + ser_pointlike("p1"@, w.p1);
            let a4 = a3 + ser_pointlike("p2"@, w.p2);
            let a5 = a4 + "</"@;
            let a6 = a5 + name@;
            let a7 = a6 + ">"@;
            &&& starts_with_at(s@, i as int, seq!['<'])
            &&& starts_with_at(s@, i + a0.len(), name@)
            &&& starts_with_at(s@, i + a1.len(), ">"@)
            &&& starts_with_at(s@, i + a2.len(), ser_pointlike("p1"@, w.p1))
            &&& starts_with_at(s@, i + a3.len(), ser_pointlike("p2"@, w.p2))
            &&& starts_with_at(s@, i + a4.len(), "</"@)
            &&& starts_with_at(s@, i + a5.len(), name@)
            &&& starts_with_at(s@, i + a6.len(), ">"@)
        } by {
            let a0 = seq!['<'];
            let a1 = a0 + name@;
            let a2 = a1 + ">"@;
            let a3 = a2 + ser_pointlike("p1"@, w.p1);
            let a4 = a3 + ser_pointlike("p2"@, w.p2);
            let a5 = a4 + "</"@;
            let a6 = a5 + name@;
            let a7 = a6 + ">"@;
            starts_split(s@, i as int, a6, ">"@);
            starts_split(s@, i as int, a5, name@);
            starts_split(s@, i as int, a4, "</"@);
            starts_split(s@, i as int, a3, ser_pointlike("p2"@, w.p2));
            starts_split(s@, i as int, a2, ser_pointlike("p1"@, w.p1));
            starts_split(s@, i as int, a1, ">"@);
            starts_split(s@, i as int, a0, name@);
        }
    }
    let j1 = expect(s, i, "<")?;
    let j2 = expect(s, j1, name)?;
    let j3 = expect(s, j2, ">")?;
    let (p1, j4) = parse_pointlike(s, j3, "p1")?;
    let (p2, j5) = parse_pointlike(s, j4, "p2")?;
    let j6 = expect(s, j5, "</")?;
    let j7 = expect(s, j6, name)?;
    let j8 = expect(s, j7, ">")?;
    let v = Cutter { p1, p2 };
    proof {
        reveal_strlit("<");
        reveal_strlit("</");
        subrange_join(s@, i as int, j1 as int, j2 as int);
        subrange_join(s@, i as int, j2 as int, j3 as int);
        subrange_join(s@, i as int, j3 as int, j4 as int);
        subrange_join(s@, i as int, j4 as int, j5 as int);
        subrange_join(s@, i as int, j5 as int, j6 as int);
        subrange_join(s@, i as int, j6 as int, j7 as int);
        subrange_join(s@, i as int, j7 as int, j8 as int);
        assert(s@.subrange(i as int, j8 as int) =~= ser_cutter(name@, v));
    }
    Ok((v, j8))
}

/// The cutter children a variant carries.
pub open spec fn ser_pages_cutters(p: Pages) -> Seq<char> {
    match p {
        Pages::SingleUncut(_) => Seq::<char>::empty(),
        Pages::SingleCut(u) => ser_cutter("cutter1"@, u.cutter1) + ser_cutter("cutter2"@, u.cutter2),
        Pages::TwoPages(u) => ser_cutter("cutter1"@, u.cutter1),
    }
}

pub open spec fn pages_outline(p: Pages) -> FilledOutline {
    match p {
        Pages::SingleUncut(u) => u.outline,
        Pages::SingleCut(u) => u.outline,
        Pages::TwoPages(u) => u.outline,
    }
}

/// `<pages type="...">outline cutters</pages>`.
pub open spec fn ser_pages(p: Pages) -> Seq<char> {
    "<pages type=\""@ + ser_layout_type(pages_tag(p)) + "\">"@ + ser_split_outline(
        pages_outline(p),
    ) + ser_pages_cutters(p) + "</pages>"@
}

#[verifier::rlimit(100)]
#[verifier::spinoff_prover]
pub fn write_pages(out: &mut String, p: &Pages)
    requires
        wf_pages(*p),
    ensures
        final(out)@ == old(out)@ + ser_pages(*p),
{
    out.append("<pages type=\"");
    match p {
        Pages::SingleUncut(u) => {
            write_layout_type(out, LayoutType::SingleUncut);
            out.append("\">");
            write_split_outline(out, &u.outline);
        },
        Pages::SingleCut(u) => {
            write_layout_type(out, LayoutType::SingleCut);
            out.append("\">");
            write_split_outline(out, &u.outline);
            write_cutter(out, "cutter1", &u.cutter1);
            write_cutter(out, "cutter2", &u.cutter2);
        },
        Pages::TwoPages(u) => {
            write_layout_type(out, LayoutType::TwoPages);
            out.append("\">");
            write_split_outline(out, &u.outline);
            write_cutter(out, "cutter1", &u.cutter1);
        },
    }
    out.append("</pages>");
    proof {
        assert(out@ =~= old(out)@ + ser_pages(*p));
    }
}

/// Parse a `pages` element and resolve its variant. The declared type and
/// the cutters present must agree, or the element is rejected.
#[verifier::rlimit(100)]
#[verifier::spinoff_prover]
#[verifier::rlimit(100)]
#[verifier::spinoff_prover]
pub fn parse_pages(s: &str, i: usize) -> (r: Result<(Pages, usize), ParseError>)
    requires
        i <= s@.len(),
    ensures
        match r {
            Ok((p, j)) => {
                &&& i < j <= s@.len()
                &&& wf_pages(p)
                &&& s@.subrange(i as int, j as int) == ser_pages(p)
            },
            Err(_) => true,
        },
        forall|w: Pages|
            #![trigger starts_with_at(s@, i as int, ser_pages(w))]
            wf_pages(w) && starts_with_at(s@, i as int, ser_pages(w)) ==> r is Ok && (
            r->Ok_0).1 == i + ser_pages(w).len(),
{
    proof {
        reveal_strlit("<pages type=\"");
        reveal_strlit("\">");
        reveal_strlit("</pages>");
        assert forall|w: Pages|
            wf_pages(w) && #[trigger] starts_with_at(s@, i as int, ser_pages(w)) implies {
            let a0 = "<pages type=\""@;
            let a1 = a0 + ser_layout_type(pages_tag(w));
            let a2 = a1 + "\">"@;
            let a3 = a2 + ser_split_outline(pages_outline(w));
            let a4 = a3 + ser_pages_cutters(w);
            &&& starts_with_at(s@, i as int, a0)
            &&& starts_with_at(s@, i + a0.len(), ser_layout_type(pages_tag(w)))
            &&& starts_with_at(s@, i + a1.len(), "\">"@)
            &&& starts_with_at(s@, i + a2.len(), ser_split_outline(pages_outline(w)))
            &&& (match w {
                Pages::SingleUncut(_) => starts_with_at(s@, i + a3.len(), "</pages>"@),
                Pages::SingleCut(u) => starts_with_at(
                    s@,
                    i + a3.len(),
                    ser_cutter("cutter1"@, u.cutter1),
                ) && starts_with_at(
                    s@,
                    i + a3.len() + ser_cutter("cutter1"@, u.cutter1).len(),
                    ser_cutter("cutter2"@, u.cutter2),
                ),
                Pages::TwoPages(u) => starts_with_at(
                    s@,
                    i + a3.len(),
                    ser_cutter("cutter1"@, u.cutter1),
                ) && starts_with_at(
                    s@,
                    i + a3.len() + ser_cutter("cutter1"@, u.cutter1).len(),
                    "</pages>"@,
                ),
            })
            &&& starts_with_at(s@, i + a4.len(), "</pages>"@)
        } by {
            let a0 = "<pages type=\""@;
            let a1 = a0 + ser_layout_type(pages_tag(w));
            let a2 = a1 + "\">"@;
            let a3 = a2 + ser_split_outline(pages_outline(w));
            let a4 = a3 + ser_pages_cutters(w);
            starts_split(s@, i as int, a4, "</pages>"@);
            starts_split(s@, i as int, a3, ser_pages_cutters(w));
            starts_split(s@, i as int, a2, ser_split_outline(pages_outline(w)));
            starts_split(s@, i as int, a1, "\">"@);
            starts_split(s@, i as int, a0, ser_layout_type(pages_tag(w)));
            match w {
                Pages::SingleUncut(_) => {
                    assert(ser_pages_cutters(w) =~= Seq::<char>::empty());
                    assert(a4 =~= a3);
                },
                Pages::SingleCut(u) => {
                    assert(ser_pages_cutters(w) == ser_cutter("cutter1"@, u.cutter1)
                        + ser_cutter("cutter2"@, u.cutter2));
                    starts_split(
                        s@,
                        i + a3.len(),
                        ser_cutter("cutter1"@, u.cutter1),
                        ser_cutter("cutter2"@, u.cutter2),
                    );
                },
                Pages::TwoPages(u) => {
                    assert(ser_pages_cutters(w) == ser_cutter("cutter1"@, u.cutter1));
                },
            }
        }
    }
    let j1 = expect(s, i, "<pages type=\"")?;
    let (ty, j2) = parse_layout_type(s, j1)?;
    let j3 = expect(s, j2, "\">")?;
    let (outline, j4) = parse_split_outline(s, j3)?;
    let (cutter1, j5): (Option<Cutter>, usize) = match parse_cutter(s, j4, "cutter1") {
        Ok((c, j5)) => (Option::Some(c), j5),
        Err(_) => (Option::None, j4),
    };
    let (cutter2, j6): (Option<Cutter>, usize) = match parse_cutter(s, j5, "cutter2") {
        Ok((c, j6)) => (Option::Some(c), j6),
        Err(_) => (Option::None, j5),
    };
    proof {
        reveal_strlit("<");
        reveal_strlit("cutter1");
        reveal_strlit("cutter2");
        reveal_strlit("</pages>");
        assert forall|w: Pages|
            wf_pages(w) && #[trigger] starts_with_at(s@, i as int, ser_pages(w)) implies ty
            == pages_tag(w) && j4 == i + ("<pages type=\""@ + ser_layout_type(pages_tag(w))
            + "\">"@ + ser_split_outline(pages_outline(w))).len() && (match w {
            Pages::SingleUncut(_) => cutter1 is None && cutter2 is None,
            Pages::SingleCut(_) => cutter1 is Some && cutter2 is Some,
            Pages::TwoPages(_) => cutter1 is Some && cutter2 is None,
        }) && j6 == i + ("<pages type=\""@ + ser_layout_type(pages_tag(w)) + "\">"@
            + ser_split_outline(pages_outline(w)) + ser_pages_cutters(w)).len() by {
            assert(s@.subrange(j1 as int, j2 as int) == ser_layout_type(ty));
            assert(s@.subrange(j1 as int, j1 + ser_layout_type(pages_tag(w)).len())
                == ser_layout_type(pages_tag(w)));
            assert(ser_layout_type(ty) =~= ser_layout_type(pages_tag(w)));
            layout_type_ser_injective(ty, pages_tag(w));
            let pos4 = i + ("<pages type=\""@ + ser_layout_type(pages_tag(w)) + "\">"@
                + ser_split_outline(pages_outline(w))).len();
            match w {
                Pages::SingleUncut(_) => {
                    if cutter1 is Some {
                        assert(s@.subrange(j4 as int, j5 as int) == ser_cutter(
                            "cutter1"@,
                            cutter1->0,
                        ));
                        assert(ser_cutter("cutter1"@, cutter1->0).len() >= 2);
                        assert(s@[j4 + 1] == ser_cutter("cutter1"@, cutter1->0)[1]) by {
                            assert(s@.subrange(j4 as int, j5 as int)[1] == s@[j4 + 1]);
                        }
                        assert(ser_cutter("cutter1"@, cutter1->0)[1] == 'c');
                        assert(s@[pos4 + 1] == "</pages>"@[1]) by {
                            assert(s@.subrange(pos4, pos4 + 8)[1] == s@[pos4 + 1]);
                        }
                    }
                    if cutter2 is Some {
                        assert(s@.subrange(j5 as int, j6 as int) == ser_cutter(
                            "cutter2"@,
                            cutter2->0,
                        ));
                        assert(ser_cutter("cutter2"@, cutter2->0).len() >= 2);
                        assert(s@[j5 + 1] == ser_cutter("cutter2"@, cutter2->0)[1]) by {
                            assert(s@.subrange(j5 as int, j6 as int)[1] == s@[j5 + 1]);
                        }
                        assert(ser_cutter("cutter2"@, cutter2->0)[1] == 'c');
                        assert(s@[pos4 + 1] == "</pages>"@[1]) by {
                            assert(s@.subrange(pos4, pos4 + 8)[1] == s@[pos4 + 1]);
                        }
                    }
                },
                Pages::SingleCut(u) => {
                    assert(starts_with_at(s@, j4 as int, ser_cutter("cutter1"@, u.cutter1)));
                    assert(cutter1 is Some && j5 == j4 + ser_cutter("cutter1"@, u.cutter1).len());
                    assert(starts_with_at(s@, j5 as int, ser_cutter("cutter2"@, u.cutter2)));
                },
                Pages::TwoPages(u) => {
                    assert(starts_with_at(s@, j4 as int, ser_cutter("cutter1"@, u.cutter1)));
                    assert(cutter1 is Some && j5 == j4 + ser_cutter("cutter1"@, u.cutter1).len());
                    let pos5 = pos4 + ser_cutter("cutter1"@, u.cutter1).len();
                    if cutter2 is Some {
                        assert(s@.subrange(j5 as int, j6 as int) == ser_cutter(
                            "cutter2"@,
                            cutter2->0,
                        ));
                        assert(ser_cutter("cutter2"@, cutter2->0).len() >= 2);
                        assert(s@[j5 + 1] == ser_cutter("cutter2"@, cutter2->0)[1]) by {
                            assert(s@.subrange(j5 as int, j6 as int)[1] == s@[j5 + 1]);
                        }
                        assert(ser_cutter("cutter2"@, cutter2->0)[1] == 'c');
                        assert(s@[pos5 + 1] == "</pages>"@[1]) by {
                            assert(s@.subrange(pos5, pos5 + 8)[1] == s@[pos5 + 1]);
                        }
                    }
                },
            }
        }
    }
    let j7 = expect(s, j6, "</pages>")?;
    let p = resolve_pages(ty, outline, cutter1, cutter2, i)?;
    proof {
        subrange_join(s@, i as int, j1 as int, j2 as int);
        subrange_join(s@, i as int, j2 as int, j3 as int);
        subrange_join(s@, i as int, j3 as int, j4 as int);
        subrange_join(s@, i as int, j4 as int, j5 as int);
        subrange_join(s@, i as int, j5 as int, j6 as int);
        subrange_join(s@, i as int, j6 as int, j7 as int);
        assert(s@.subrange(i as int, j7 as int) =~= ser_pages(p));
        assert forall|w: Pages|
            wf_pages(w) && #[trigger] starts_with_at(s@, i as int, ser_pages(w)) implies j7 == i
            + ser_pages(w).len() by {}
    }
    Ok((p, j7))
}

/// `<dependencies>` of a split: the rotation, size and layout type the
/// geometry was computed against.
pub open spec fn ser_ps_dependencies(v: Dependencies) -> Seq<char> {
    "<dependencies>"@ + ser_rotation(v.rotation) + ser_int_size("size"@, v.size) + "<layoutType>"@
        + ser_layout_type(v.layout_type) + "</layoutType></dependencies>"@
}

pub fn write_ps_dependencies(out: &mut String, v: &Dependencies)
    ensures
        final(out)@ == old(out)@ + ser_ps_dependencies(*v),
{
    out.append("<dependencies>");
    write_rotation(out, &v.rotation);
    write_int_size(out, "size", &v.size);
    out.append("<layoutType>");
    write_layout_type(out, v.layout_type);
    out.append("</layoutType></dependencies>");
    proof {
        assert(out@ =~= old(out)@ + ser_ps_dependencies(*v));
    }
}

#[verifier::rlimit(100)]
#[verifier::spinoff_prover]
pub fn parse_ps_dependencies(s: &str, i: usize) -> (r: Result<(Dependencies, usize), ParseError>)
    requires
        i <= s@.len(),
    ensures
        match r {
            Ok((v, j)) => {
                &&& i < j <= s@.len()
                &&& s@.subrange(i as int, j as int) == ser_ps_dependencies(v)
            },
            Err(_) => true,
        },
        forall|w: Dependencies|
            #![trigger starts_with_at(s@, i as int, ser_ps_dependencies(w))]
            true && starts_with_at(s@, i as int, ser_ps_dependencies(w)) ==> r is Ok && (
            r->Ok_0).1 == i + ser_ps_dependencies(w).len(),
{
    proof {
        reveal_strlit("<dependencies>");
        reveal_strlit("<layoutType>");
        reveal_strlit("</layoutType></dependencies>");
        assert forall|w: Dependencies|
            true && #[trigger] starts_with_at(s@, i as int, ser_ps_dependencies(w)) implies {
            let a0 = "<dependencies>"@;
            let a1 = a0 + ser_rotation(w.rotation);
            let a2 = a1 + ser_int_size("size"@, w.size);
            let a3 = a2 + "<layoutType>"@;
            let a4 = a3 + ser_layout_type(w.layout_type);
            let a5 = a4 + "</layoutType></dependencies>"@;
            &&& starts_with_at(s@, i as int, "<dependencies>"@)
            &&& starts_with_at(s@, i + a0.len(), ser_rotation(w.rotation))
            &&& starts_with_at(s@, i + a1.len(), ser_int_size("size"@, w.size))
            &&& starts_with_at(s@, i + a2.len(), "<layoutType>"@)
            &&& starts_with_at(s@, i + a3.len(), ser_layout_type(w.layout_type))
            &&& starts_with_at(s@, i + a4.len(), "</layoutType></dependencies>"@)
        } by {
            let a0 = "<dependencies>"@;
            let a1 = a0 + ser_rotation(w.rotation);
            let a2 = a1 + ser_int_size("size"@, w.size);
            let a3 = a2 + "<layoutType>"@;
            let a4 = a3 + ser_layout_type(w.layout_type);
            let a5 = a4 + "</layoutType></dependencies>"@;
            starts_split(s@, i as int, a4, "</layoutType></dependencies>"@);
            starts_split(s@, i as int, a3, ser_layout_type(w.layout_type));
            starts_split(s@, i as int, a2, "<layoutType>"@);
            starts_split(s@, i as int, a1, ser_int_size("size"@, w.size));
            starts_split(s@, i as int, a0, ser_rotation(w.rotation));
        }
    }
    let j1 = expect(s, i, "<dependencies>")?;
    let (rot, j2) = parse_rotation(s, j1)?;
    let (size, j3) = parse_int_size(s, j2, "size")?;
    let j4 = expect(s, j3, "<layoutType>")?;
    let (lt, j5) = parse_layout_type(s, j4)?;
    let j6 = expect(s, j5, "</layoutType></dependencies>")?;
    let v = Dependencies { rotation: rot, size, layout_type: lt };
    proof {
        subrange_join(s@, i as int, j1 as int, j2 as int);
        subrange_join(s@, i as int, j2 as int, j3 as int);
        subrange_join(s@, i as int, j3 as int, j4 as int);
        subrange_join(s@, i as int, j4 as int, j5 as int);
        subrange_join(s@, i as int, j5 as int, j6 as int);
        assert(s@.subrange(i as int, j6 as int) =~= ser_ps_dependencies(v));
    }
    Ok((v, j6))
}

pub open spec fn ser_ps_params(v: Params) -> Seq<char> {
    "<params mode=\""@ + ser_mode(v.mode) + "\">"@ + ser_pages(v.pages) + ser_ps_dependencies(
        v.dependencies,
    ) + "</params>"@
}

#[verifier::rlimit(100)]
#[verifier::spinoff_prover]
pub fn write_ps_params(out: &mut String, v: &Params)
    requires
        wf_params(*v),
    ensures
        final(out)@ == old(out)@ + ser_ps_params(*v),
{
    out.append("<params mode=\"");
    write_mode(out, v.mode);
    out.append("\">");
    write_pages(out, &v.pages);
    write_ps_dependencies(out, &v.dependencies);
    out.append("</params>");
    proof {
        assert(out@ =~= old(out)@ + ser_ps_params(*v));
    }
}

#[verifier::rlimit(100)]
#[verifier::spinoff_prover]
pub fn parse_ps_params(s: &str, i: usize) -> (r: Result<(Params, usize), ParseError>)
    requires
        i <= s@.len(),
    ensures
        match r {
            Ok((v, j)) => {
                &&& i < j <= s@.len()
                &&& wf_params(v)
                &&& s@.subrange(i as int, j as int) == ser_ps_params(v)
            },
            Err(_) => true,
        },
        forall|w: Params|
            #![trigger starts_with_at(s@, i as int, ser_ps_params(w))]
            wf_params(w) && starts_with_at(s@, i as int, ser_ps_params(w)) ==> r is Ok && (
            r->Ok_0).1 == i + ser_ps_params(w).len(),
{
    proof {
        reveal_strlit("<params mode=\"");
        reveal_strlit("\">");
        reveal_strlit("</params>");
        assert forall|w: Params|
            wf_params(w) && #[trigger] starts_with_at(s@, i as int, ser_ps_params(w)) implies {
            let a0 = "<params mode=\""@;
            let a1 = a0 + ser_mode(w.mode);
            let a2 = a1 + "\">"@;
            let a3 = a2 + ser_pages(w.pages);
            let a4 = a3 + ser_ps_dependencies(w.dependencies);
            let a5 = a4 + "</params>"@;
            &&& starts_with_at(s@, i as int, "<params mode=\""@)
            &&& starts_with_at(s@, i + a0.len(), ser_mode(w.mode))
            &&& starts_with_at(s@, i + a1.len(), "\">"@)
            &&& starts_with_at(s@, i + a2.len(), ser_pages(w.pages))
            &&& starts_with_at(s@, i + a3.len(), ser_ps_dependencies(w.dependencies))
            &&& starts_with_at(s@, i + a4.len(), "</params>"@)
        } by {
            let a0 = "<params mode=\""@;
            let a1 = a0 + ser_mode(w.mode);
            let a2 = a1 + "\">"@;
            let a3 = a2 + ser_pages(w.pages);
            let a4 = a3 + ser_ps_dependencies(w.dependencies);
            let a5 = a4 + "</params>"@;
            starts_split(s@, i as int, a4, "</params>"@);
            starts_split(s@, i as int, a3, ser_ps_dependencies(w.dependencies));
            starts_split(s@, i as int, a2, ser_pages(w.pages));
            starts_split(s@, i as int, a1, "\">"@);
            starts_split(s@, i as int, a0, ser_mode(w.mode));
        }
    }
    let j1 = expect(s, i, "<params mode=\"")?;
    let (mode, j2) = parse_mode(s, j1)?;
    let j3 = expect(s, j2, "\">")?;
    let (pages, j4) = parse_pages(s, j3)?;
    let (deps, j5) = parse_ps_dependencies(s, j4)?;
    let j6 = expect(s, j5, "</params>")?;
    let v = Params { mode, pages, dependencies: deps };
    proof {
        subrange_join(s@, i as int, j1 as int, j2 as int);
        subrange_join(s@, i as int, j2 as int, j3 as int);
        subrange_join(s@, i as int, j3 as int, j4 as int);
        subrange_join(s@, i as int, j4 as int, j5 as int);
        subrange_join(s@, i as int, j5 as int, j6 as int);
        assert(s@.subrange(i as int, j6 as int) =~= ser_ps_params(v));
    }
    Ok((v, j6))
}

pub open spec fn ser_ps_image(v: Image) -> Seq<char> {
    "<image id=\""@ + u64_dec(v.id as int) + "\" layoutType=\""@ + ser_layout_type(
        v.layout_type,
    ) + "\">"@ + ser_ps_params(v.params) + "</image>"@
}

#[verifier::rlimit(100)]
#[verifier::spinoff_prover]
pub fn write_ps_image(out: &mut String, v: &Image)
    requires
        wf_ps_image(*v),
    ensures
        final(out)@ == old(out)@ + ser_ps_image(*v),
{
    out.append("<image id=\"");
    write_u64(out, v.id as u64);
    out.append("\" layoutType=\"");
    write_layout_type(out, v.layout_type);
    out.append("\">");
    write_ps_params(out, &v.params);
    out.append("</image>");
    proof {
        assert(out@ =~= old(out)@ + ser_ps_image(*v));
    }
}

#[verifier::rlimit(100)]
#[verifier::spinoff_prover]
pub fn parse_ps_image(s: &str, i: usize) -> (r: Result<(Image, usize), ParseError>)
    requires
        i <= s@.len(),
    ensures
        match r {
            Ok((v, j)) => {
                &&& i < j <= s@.len()
                &&& wf_ps_image(v)
                &&& s@.subrange(i as int, j as int) == ser_ps_image(v)
            },
            Err(_) => true,
        },
        forall|w: Image|
            #![trigger starts_with_at(s@, i as int, ser_ps_image(w))]
            wf_ps_image(w) && starts_with_at(s@, i as int, ser_ps_image(w)) ==> r is Ok && (
            r->Ok_0).1 == i + ser_ps_image(w).len(),
{
    proof {
        reveal_strlit("<image id=\"");
        reveal_strlit("\" layoutType=\"");
        reveal_strlit("\">");
        reveal_strlit("</image>");
        assert forall|w: Image|
            wf_ps_image(w) && #[trigger] starts_with_at(s@, i as int, ser_ps_image(w)) implies {
            let a0 = "<image id=\""@;
            let a1 = a0 + u64_dec(w.id as int);
            let a2 = a1 + "\" layoutType=\""@;
            let a3 = a2 + ser_layout_type(w.layout_type);
            let a4 = a3 + "\">"@;
            let a5 = a4 + ser_ps_params(w.params);
            let a6 = a5 + "</image>"@;
            &&& starts_with_at(s@, i as int, "<image id=\""@)
            &&& starts_with_at(s@, i + a0.len(), u64_dec(w.id as int))
            &&& digit_stop(s@, i + a1.len())
            &&& starts_with_at(s@, i + a1.len(), "\" layoutType=\""@)
            &&& starts_with_at(s@, i + a2.len(), ser_layout_type(w.layout_type))
            &&& starts_with_at(s@, i + a3.len(), "\">"@)
            &&& starts_with_at(s@, i + a4.len(), ser_ps_params(w.params))
            &&& starts_with_at(s@, i + a5.len(), "</image>"@)
        } by {
            let a0 = "<image id=\""@;
            let a1 = a0 + u64_dec(w.id as int);
            let a2 = a1 + "\" layoutType=\""@;
            let a3 = a2 + ser_layout_type(w.layout_type);
            let a4 = a3 + "\">"@;
            let a5 = a4 + ser_ps_params(w.params);
            let a6 = a5 + "</image>"@;
            starts_split(s@, i as int, a5, "</image>"@);
            starts_split(s@, i as int, a4, ser_ps_params(w.params));
            starts_split(s@, i as int, a3, "\">"@);
            starts_split(s@, i as int, a2, ser_layout_type(w.layout_type));
            starts_split(s@, i as int, a1, "\" layoutType=\""@);
            starts_split(s@, i as int, a0, u64_dec(w.id as int));
            assert(s@.subrange(i + a1.len(), i + a1.len() + 14)[0] == s@[i + a1.len()]);
        }
    }
    let j1 = expect(s, i, "<image id=\"")?;
    let (id, j2) = parse_u64(s, j1, 0xffffffff)?;
    let j3 = expect(s, j2, "\" layoutType=\"")?;
    let (lt, j4) = parse_layout_type(s, j3)?;
    let j5 = expect(s, j4, "\">")?;
    let (params, j6) = parse_ps_params(s, j5)?;
    let j7 = expect(s, j6, "</image>")?;
    let v = Image { id: id as u32, layout_type: lt, params };
    proof {
        subrange_join(s@, i as int, j1 as int, j2 as int);
        subrange_join(s@, i as int, j2 as int, j3 as int);
        subrange_join(s@, i as int, j3 as int, j4 as int);
        subrange_join(s@, i as int, j4 as int, j5 as int);
        subrange_join(s@, i as int, j5 as int, j6 as int);
        subrange_join(s@, i as int, j6 as int, j7 as int);
        assert(s@.subrange(i as int, j7 as int) =~= ser_ps_image(v));
    }
    Ok((v, j7))
}

pub open spec fn ser_ps_image_list(xs: Seq<Image>) -> Seq<char>
    decreases xs.len(),
{
    if xs.len() == 0 {
        Seq::<char>::empty()
    } else {
        ser_ps_image(xs[0]) + ser_ps_image_list(xs.drop_first())
    }
}

pub proof fn ser_ps_image_list_snoc(xs: Seq<Image>, x: Image)
    ensures
        ser_ps_image_list(xs + seq![x]) == ser_ps_image_list(xs) + ser_ps_image(x),
    decreases xs.len(),
{
    assert(ser_ps_image_list(Seq::<Image>::empty()) =~= Seq::<char>::empty());
    if xs.len() == 0 {
        assert(xs + seq![x] =~= seq![x]);
        assert(seq![x].drop_first() =~= Seq::<Image>::empty());
        assert(ser_ps_image_list(seq![x]) =~= ser_ps_image(x));
        assert(ser_ps_image_list(xs + seq![x]) =~= ser_ps_image_list(xs) + ser_ps_image(x));
    } else {
        assert((xs + seq![x]).drop_first() =~= xs.drop_first() + seq![x]);
        ser_ps_image_list_snoc(xs.drop_first(), x);
        assert(ser_ps_image_list(xs + seq![x]) =~= ser_ps_image_list(xs) + ser_ps_image(x));
    }
}

pub proof fn ser_ps_image_list_cat(xs: Seq<Image>, ys: Seq<Image>)
    ensures
        ser_ps_image_list(xs + ys) == ser_ps_image_list(xs) + ser_ps_image_list(ys),
    decreases xs.len(),
{
    if xs.len() == 0 {
        assert(xs + ys =~= ys);
        assert(ser_ps_image_list(xs) + ser_ps_image_list(ys) =~= ser_ps_image_list(ys));
    } else {
        assert((xs + ys).drop_first() =~= xs.drop_first() + ys);
        ser_ps_image_list_cat(xs.drop_first(), ys);
        assert(ser_ps_image_list(xs + ys) =~= ser_ps_image_list(xs) + ser_ps_image_list(ys));
    }
}

pub open spec fn ser_default_layout_type(v: DefaultLayoutType) -> Seq<char> {
    "auto-detect"@
}

/// `<page-split defaultLayoutType="...">` with the per-image geometries;
/// self-closing when no image has one yet.
pub open spec fn ser_page_split(v: PageSplit) -> Seq<char> {
    "<page-split defaultLayoutType=\""@ + ser_default_layout_type(v.default_layout_type) + (
    if v.image@.len() == 0 {
        "\"/>"@
    } else {
        "\">"@ + ser_ps_image_list(v.image@) + "</page-split>"@
    })
}

pub fn write_page_split(out: &mut String, v: &PageSplit)
    requires
        wf_page_split(*v),
    ensures
        final(out)@ == old(out)@ + ser_page_split(*v),
{
    out.append("<page-split defaultLayoutType=\"");
    out.append("auto-detect");
    if v.image.len() == 0 {
        out.append("\"/>");
        proof {
            assert(out@ =~= old(out)@ + ser_page_split(*v));
        }
        return ;
    }
    out.append("\">");
    let ghost head = old(out)@ + "<page-split defaultLayoutType=\""@ + "auto-detect"@ + "\">"@;
    let n = v.image.len();
    let mut k: usize = 0;
    proof {
        assert(v.image@.take(0) =~= Seq::<Image>::empty());
        assert(ser_ps_image_list(v.image@.take(0)) =~= Seq::<char>::empty());
        assert(out@ =~= head + ser_ps_image_list(v.image@.take(0)));
    }
    while k < n
        invariant
            0 <= k <= n == v.image@.len(),
            wf_page_split(*v),
            out@ == head + ser_ps_image_list(v.image@.take(k as int)),
        decreases n - k,
    {
        write_ps_image(out, &v.image[k]);
        k = k + 1;
        proof {
            ser_ps_image_list_snoc(v.image@.take(k - 1), v.image@[k - 1]);
            assert(v.image@.take(k - 1) + seq![v.image@[k - 1]] =~= v.image@.take(k as int));
        }
    }
    out.append("</page-split>");
    proof {
        assert(v.image@.take(n as int) =~= v.image@);
        assert(out@ =~= old(out)@ + ser_page_split(*v));
    }
}

#[verifier::rlimit(100)]
#[verifier::spinoff_prover]
#[verifier::loop_isolation(false)]
pub fn parse_page_split(s: &str, i: usize) -> (r: Result<(PageSplit, usize), ParseError>)
    requires
        i <= s@.len(),
    ensures
        match r {
            Ok((v, j)) => {
                &&& i < j <= s@.len()
                &&& wf_page_split(v)
                &&& s@.subrange(i as int, j as int) == ser_page_split(v)
            },
            Err(_) => true,
        },
        forall|w: PageSplit|
            #![trigger starts_with_at(s@, i as int, ser_page_split(w))]
            wf_page_split(w) && starts_with_at(s@, i as int, ser_page_split(w)) ==> r is Ok && (
            r->Ok_0).1 == i + ser_page_split(w).len(),
{
    let n = s.unicode_len();
    proof {
        reveal_strlit("<page-split defaultLayoutType=\"");
        reveal_strlit("\"/>");
        reveal_strlit("\">");
        reveal_strlit("</page-split>");
        reveal_strlit("<image id=\"");
        reveal_strlit("auto-detect");
        assert forall|w: PageSplit|
            wf_page_split(w) && #[trigger] starts_with_at(s@, i as int, ser_page_split(w)) implies {
            let a0 = "<page-split defaultLayoutType=\""@;
            let a1 = a0 + ser_default_layout_type(w.default_layout_type);
            &&& starts_with_at(s@, i as int, a0)
            &&& starts_with_at(s@, i + a0.len(), ser_default_layout_type(w.default_layout_type))
            &&& true
            &&& (w.image@.len() == 0 ==> starts_with_at(s@, i + a1.len(), "\"/>"@) && s@[i
                + a1.len() + 1] == '/')
            &&& (w.image@.len() > 0 ==> starts_with_at(s@, i + a1.len(), "\">"@) && s@[i
                + a1.len() + 1] == '>' && starts_with_at(
                s@,
                i + a1.len() + 2,
                ser_ps_image_list(w.image@),
            ) && starts_with_at(
                s@,
                i + a1.len() + 2 + ser_ps_image_list(w.image@).len(),
                "</page-split>"@,
            ))
        } by {
            let a0 = "<page-split defaultLayoutType=\""@;
            let a1 = a0 + ser_default_layout_type(w.default_layout_type);
            if w.image@.len() == 0 {
                assert(ser_page_split(w) =~= a1 + "\"/>"@);
                starts_split(s@, i as int, a1, "\"/>"@);
                starts_split(s@, i as int, a0, ser_default_layout_type(w.default_layout_type));
                assert(s@.subrange(i + a1.len(), i + a1.len() + 2)[1] == s@[i + a1.len() + 1]);
                assert(s@.subrange(i + a1.len(), i + a1.len() + 2)[0] == s@[i + a1.len()]);
            } else {
                let lst = ser_ps_image_list(w.image@);
                assert(ser_page_split(w) =~= a1 + "\">"@ + lst + "</page-split>"@);
                starts_split(s@, i as int, a1 + "\">"@ + lst, "</page-split>"@);
                starts_split(s@, i as int, a1 + "\">"@, lst);
                starts_split(s@, i as int, a1, "\">"@);
                starts_split(s@, i as int, a0, ser_default_layout_type(w.default_layout_type));
                assert(s@.subrange(i + a1.len(), i + a1.len() + 2)[1] == s@[i + a1.len() + 1]);
                assert(s@.subrange(i + a1.len(), i + a1.len() + 2)[0] == s@[i + a1.len()]);
            }
        }
    }
    let j1 = expect(s, i, "<page-split defaultLayoutType=\"")?;
    let j2 = expect(s, j1, "auto-detect")?;
    proof {
        reveal_strlit("auto-detect");
        assert forall|w: PageSplit|
            wf_page_split(w) && #[trigger] starts_with_at(s@, i as int, ser_page_split(w)) implies
            ser_default_layout_type(w.default_layout_type) == "auto-detect"@ by {}
    }
    if n - j2 >= 2 && s.get_char(j2 + 1) == '/' {
        let j3 = expect(s, j2, "\"/>")?;
        let v = PageSplit { default_layout_type: DefaultLayoutType::AutoDetect, image: Vec::new() };
        proof {
            subrange_join(s@, i as int, j1 as int, j2 as int);
            subrange_join(s@, i as int, j2 as int, j3 as int);
            assert(s@.subrange(i as int, j3 as int) =~= ser_page_split(v));
        }
        return Ok((v, j3));
    }
    let j3 = expect(s, j2, "\">")?;
    let mut xs: Vec<Image> = Vec::new();
    let mut j: usize = j3;
    let ghost mut k: int = 0;
    proof {
        assert(s@.subrange(j3 as int, j3 as int) =~= ser_ps_image_list(xs@));
    }
    loop
        invariant
            i <= j1 <= j2 <= j3 <= j <= s@.len(),
            k == xs@.len(),
            s@.subrange(i as int, j1 as int) == "<page-split defaultLayoutType=\""@,
            s@.subrange(j1 as int, j2 as int) == "auto-detect"@,
            s@.subrange(j2 as int, j3 as int) == "\">"@,
            forall|t: int| 0 <= t < xs@.len() ==> wf_ps_image(#[trigger] xs@[t]),
            
            s@.subrange(j3 as int, j as int) == ser_ps_image_list(xs@),
            forall|w: PageSplit|
                #![trigger starts_with_at(s@, i as int, ser_page_split(w))]
                wf_page_split(w) && starts_with_at(s@, i as int, ser_page_split(w)) && w.image@.len() > 0
                    && j3 == i + ("<page-split defaultLayoutType=\""@ + ser_default_layout_type(w.default_layout_type) + "\">"@).len() ==> k <= w.image@.len()
                    && j == j3 + ser_ps_image_list(w.image@.take(k)).len(),
        decreases s@.len() - j,
    {
        proof {
            assert forall|w: PageSplit|
                wf_page_split(w) && #[trigger] starts_with_at(s@, i as int, ser_page_split(w))
                    && w.image@.len() > 0 && j3 == i + ("<page-split defaultLayoutType=\""@ + ser_default_layout_type(w.default_layout_type) + "\">"@).len()
                    && k < w.image@.len() implies wf_ps_image(w.image@[k]) && starts_with_at(
                s@,
                j as int,
                ser_ps_image(w.image@[k]),
            ) by {
                let ws = w.image@;
                assert(ws.take(k) + ws.skip(k) =~= ws);
                ser_ps_image_list_cat(ws.take(k), ws.skip(k));
                assert(starts_with_at(s@, j3 as int, ser_ps_image_list(ws)));
                starts_split(s@, j3 as int, ser_ps_image_list(ws.take(k)), ser_ps_image_list(ws.skip(k)));
                assert(ws.skip(k)[0] == ws[k]);
                assert(ws.skip(k).drop_first() =~= ws.skip(k + 1));
                assert(ser_ps_image_list(ws.skip(k)) == ser_ps_image(ws[k]) + ser_ps_image_list(ws.skip(k + 1)));
                starts_split(s@, j as int, ser_ps_image(ws[k]), ser_ps_image_list(ws.skip(k + 1)));
            }
        }
        match parse_ps_image(s, j) {
            Ok((x, j4)) => {
                proof {
                    assert forall|w: PageSplit|
                        wf_page_split(w) && #[trigger] starts_with_at(s@, i as int, ser_page_split(w))
                            && w.image@.len() > 0 && j3 == i + ("<page-split defaultLayoutType=\""@ + ser_default_layout_type(w.default_layout_type)
                            + "\">"@).len() implies k < w.image@.len() && j4 == j3 + ser_ps_image_list(
                        w.image@.take(k + 1),
                    ).len() by {
                        let ws = w.image@;
                        if k >= ws.len() {
                            assert(ws.take(k) =~= ws);
                            assert(starts_with_at(s@, j as int, "</page-split>"@));
                            assert(s@.subrange(j as int, j4 as int) == ser_ps_image(x));
                            reveal_strlit("\" layoutType=\"");
                            reveal_strlit("\">");
                            reveal_strlit("</image>");
                            assert(ser_ps_image(x) == "<image id=\""@ + u64_dec(x.id as int)
                                + "\" layoutType=\""@ + ser_layout_type(x.layout_type) + "\">"@
                                + ser_ps_params(x.params) + "</image>"@);
                            assert(ser_ps_image(x).len() >= 2);
                            assert(j4 - j == ser_ps_image(x).len());
                            assert(s@[j + 1] == ser_ps_image(x)[1]) by {
                                assert(s@.subrange(j as int, j4 as int)[1] == s@[j + 1]);
                            }
                            assert(ser_ps_image(x)[1] == "<image id=\""@[1]);
                            assert(s@[j + 1] == "</page-split>"@[1]) by {
                                assert(s@.subrange(j as int, j + "</page-split>"@.len())[1] == s@[j
                                    + 1]);
                            }
                        } else {
                            assert(starts_with_at(s@, j as int, ser_ps_image(ws[k])));
                            ser_ps_image_list_snoc(ws.take(k), ws[k]);
                            assert(ws.take(k) + seq![ws[k]] =~= ws.take(k + 1));
                        }
                    }
                    ser_ps_image_list_snoc(xs@, x);
                    subrange_join(s@, j3 as int, j as int, j4 as int);
                }
                let ghost prev = xs@;
                xs.push(x);
                j = j4;
                proof {
                    k = k + 1;
                    assert(xs@ =~= prev + seq![x]);
                }
            },
            Err(_) => {
                proof {
                    assert forall|w: PageSplit|
                        wf_page_split(w) && #[trigger] starts_with_at(s@, i as int, ser_page_split(w))
                            && w.image@.len() > 0 && j3 == i + ("<page-split defaultLayoutType=\""@ + ser_default_layout_type(w.default_layout_type)
                            + "\">"@).len() implies k == w.image@.len() && j == j3 + ser_ps_image_list(
                        w.image@,
                    ).len() by {
                        if k < w.image@.len() {
                            assert(starts_with_at(
                                s@,
                                j as int,
                                ser_ps_image(w.image@[k]),
                            ));
                        } else {
                            assert(w.image@.take(k) =~= w.image@);
                        }
                    }
                }
                if xs.len() == 0 {
                    return Err(ParseError { pos: j, kind: ParseErrorKind::Unexpected });
                }
                let j5 = expect(s, j, "</page-split>")?;
                let v = PageSplit { default_layout_type: DefaultLayoutType::AutoDetect, image: xs };
                proof {
                    subrange_join(s@, i as int, j1 as int, j2 as int);
                    subrange_join(s@, i as int, j2 as int, j3 as int);
                    subrange_join(s@, i as int, j3 as int, j as int);
                    subrange_join(s@, i as int, j as int, j5 as int);
                    assert(s@.subrange(i as int, j5 as int) =~= ser_page_split(v));
                }
                return Ok((v, j5));
            },
        }
    }
}


} // verus!
