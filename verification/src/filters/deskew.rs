//! The deskew stage: a skew angle per page with its dependency snapshot.

use vstd::prelude::*;

use crate::decimal::{Decimal, decimal_stop, parse_decimal, ser_decimal, wf_decimal, write_decimal};
use crate::filters::common::{ImageSettings, Outline, Rotation, parse_image_settings, parse_outline, parse_rotation, ser_image_settings, ser_outline, ser_rotation, ser_settings_pages, wf_outline, write_image_settings, write_outline, write_rotation};
use crate::numbers::{digit_stop, parse_u64, u64_dec, write_u64};
use crate::wire::{ParseError, ParseErrorKind, expect, starts_split, starts_with_at, subrange_join};

verus! {

#[derive(Clone, Copy, Debug, PartialEq, Eq, Structural)]
pub enum Mode {
    Auto,
    Manual,
}

#[derive(Debug, Clone)]
pub struct Dependencies {
    pub rotation: Rotation,
    pub page_outline: Outline,
}

#[derive(Debug, Clone)]
pub struct Params {
    pub angle: Decimal,
    pub mode: Mode,
    pub dependencies: Dependencies,
}

#[derive(Debug, Clone)]
pub struct Page {
    pub id: u32,
    pub params: Params,
}

#[derive(Debug, Clone)]
pub struct Deskew {
    pub page: Vec<Page>,
    pub image_settings: ImageSettings,
}

pub open spec fn wf_dependencies(v: Dependencies) -> bool {
    wf_outline(v.page_outline)
}

pub open spec fn wf_params(v: Params) -> bool {
    wf_decimal(v.angle) && wf_dependencies(v.dependencies)
}

pub open spec fn wf_ds_page(v: Page) -> bool {
    wf_params(v.params)
}

pub open spec fn wf_deskew(v: Deskew) -> bool {
    forall|k: int| 0 <= k < v.page@.len() ==> wf_ds_page(#[trigger] v.page@[k])
}

pub open spec fn ser_mode(v: Mode) -> Seq<char> {
    match v {
        Mode::Auto => "auto"@,
        Mode::Manual => "manual"@,
    }
}

pub fn write_mode(out: &mut String, v: Mode)
    ensures
        final(out)@ == old(out)@ + ser_mode(v),
{
    match v {
        Mode::Auto => out.append("auto"),
        Mode::Manual => out.append("manual"),
    }
}

pub fn parse_mode(s: &str, i: usize) -> (r: Result<(Mode, usize), ParseError>)
    requires
        i <= s@.len(),
    ensures
        match r {
            Ok((v, j)) => {
                &&& i < j <= s@.len()
                &&& s@.subrange(i as int, j as int) == ser_mode(v)
            },
            Err(_) => true,
        },
        forall|w: Mode|
            #![trigger starts_with_at(s@, i as int, ser_mode(w))]
            starts_with_at(s@, i as int, ser_mode(w)) ==> r is Ok && (r->Ok_0).1 == i + ser_mode(
                w,
            ).len(),
{
    proof {
        reveal_strlit("auto");
        reveal_strlit("manual");
        assert forall|w: Mode| #[trigger] starts_with_at(s@, i as int, ser_mode(w)) implies i < s@.len() && s@[i as int] == ser_mode(w)[0] by {
            match w {
            Mode::Auto => {
                assert(s@.subrange(i as int, i + 4)[0] == s@[i as int]);
            },
            Mode::Manual => {
                assert(s@.subrange(i as int, i + 6)[0] == s@[i as int]);
            },
            }
        }
    }
    let n = s.unicode_len();
    proof {
        reveal_strlit("auto");
        reveal_strlit("manual");
    }
    if i == n {
        return Err(ParseError { pos: i, kind: ParseErrorKind::Unexpected });
    }
    if s.get_char(i) == 'a' {
        let j = expect(s, i, "auto")?;
        Ok((Mode::Auto, j))
    } else {
        let j = expect(s, i, "manual")?;
        Ok((Mode::Manual, j))
    }
}

pub open spec fn ser_ds_dependencies(v: Dependencies) -> Seq<char> {
    "<dependencies>"@ + ser_rotation(v.rotation) + ser_outline("page-outline"@, v.page_outline)
        + "</dependencies>"@
}

pub fn write_ds_dependencies(out: &mut String, v: &Dependencies)
    requires
        wf_dependencies(*v),
    ensures
        final(out)@ == old(out)@ + ser_ds_dependencies(*v),
{
    out.append("<dependencies>");
    write_rotation(out, &v.rotation);
    write_outline(out, "page-outline", &v.page_outline);
    out.append("</dependencies>");
    proof {
        assert(out@ =~= old(out)@ + ser_ds_dependencies(*v));
    }
}

#[verifier::rlimit(100)]
#[verifier::spinoff_prover]
pub fn parse_ds_dependencies(s: &str, i: usize) -> (r: Result<(Dependencies, usize), ParseError>)
    requires
        i <= s@.len(),
    ensures
        match r {
            Ok((v, j)) => {
                &&& i < j <= s@.len()
                &&& wf_dependencies(v)
                &&& s@.subrange(i as int, j as int) == ser_ds_dependencies(v)
            },
            Err(_) => true,
        },
        forall|w: Dependencies|
            #![trigger starts_with_at(s@, i as int, ser_ds_dependencies(w))]
            wf_dependencies(w) && starts_with_at(s@, i as int, ser_ds_dependencies(w)) ==> r is Ok && (
            r->Ok_0).1 == i + ser_ds_dependencies(w).len(),
{
    proof {
        reveal_strlit("<dependencies>");
        reveal_strlit("</dependencies>");
        assert forall|w: Dependencies|
            wf_dependencies(w) && #[trigger] starts_with_at(s@, i as int, ser_ds_dependencies(w)) implies {
            let a0 = "<dependencies>"@;
            let a1 = a0 + ser_rotation(w.rotation);
            let a2 = a1 + ser_outline("page-outline"@, w.page_outline);
            let a3 = a2 + "</dependencies>"@;
            &&& starts_with_at(s@, i as int, "<dependencies>"@)
            &&& starts_with_at(s@, i + a0.len(), ser_rotation(w.rotation))
            &&& starts_with_at(s@, i + a1.len(), ser_outline("page-outline"@, w.page_outline))
            &&& starts_with_at(s@, i + a2.len(), "</dependencies>"@)
        } by {
            let a0 = "<dependencies>"@;
            let a1 = a0 + ser_rotation(w.rotation);
            let a2 = a1 + ser_outline("page-outline"@, w.page_outline);
            let a3 = a2 + "</dependencies>"@;
            starts_split(s@, i as int, a2, "</dependencies>"@);
            starts_split(s@, i as int, a1, ser_outline("page-outline"@, w.page_outline));
            starts_split(s@, i as int, a0, ser_rotation(w.rotation));
        }
    }
    let j1 = expect(s, i, "<dependencies>")?;
    let (rot, j2) = parse_rotation(s, j1)?;
    let (outline, j3) = parse_outline(s, j2, "page-outline")?;
    let j4 = expect(s, j3, "</dependencies>")?;
    let v = Dependencies { rotation: rot, page_outline: outline };
    proof {
        subrange_join(s@, i as int, j1 as int, j2 as int);
        subrange_join(s@, i as int, j2 as int, j3 as int);
        subrange_join(s@, i as int, j3 as int, j4 as int);
        assert(s@.subrange(i as int, j4 as int) =~= ser_ds_dependencies(v));
    }
    Ok((v, j4))
}

pub open spec fn ser_ds_params(v: Params) -> Seq<char> {
    "<params angle=\""@ + ser_decimal(v.angle) + "\" mode=\""@ + ser_mode(v.mode) + "\">"@
        + ser_ds_dependencies(v.dependencies) + "</params>"@
}

pub fn write_ds_params(out: &mut String, v: &Params)
    requires
        wf_params(*v),
    ensures
        final(out)@ == old(out)@ + ser_ds_params(*v),
{
    out.append("<params angle=\"");
    write_decimal(out, &v.angle);
    out.append("\" mode=\"");
    write_mode(out, v.mode);
    out.append("\">");
    write_ds_dependencies(out, &v.dependencies);
    out.append("</params>");
    proof {
        assert(out@ =~= old(out)@ + ser_ds_params(*v));
    }
}

#[verifier::rlimit(100)]
#[verifier::spinoff_prover]
pub fn parse_ds_params(s: &str, i: usize) -> (r: Result<(Params, usize), ParseError>)
    requires
        i <= s@.len(),
    ensures
        match r {
            Ok((v, j)) => {
                &&& i < j <= s@.len()
                &&& wf_params(v)
                &&& s@.subrange(i as int, j as int) == ser_ds_params(v)
            },
            Err(_) => true,
        },
        forall|w: Params|
            #![trigger starts_with_at(s@, i as int, ser_ds_params(w))]
            wf_params(w) && starts_with_at(s@, i as int, ser_ds_params(w)) ==> r is Ok && (
            r->Ok_0).1 == i + ser_ds_params(w).len(),
{
    proof {
        reveal_strlit("<params angle=\"");
        reveal_strlit("\" mode=\"");
        reveal_strlit("\">");
        reveal_strlit("</params>");
        assert forall|w: Params|
            wf_params(w) && #[trigger] starts_with_at(s@, i as int, ser_ds_params(w)) implies {
            let a0 = "<params angle=\""@;
            let a1 = a0 + ser_decimal(w.angle);
            let a2 = a1 + "\" mode=\""@;
            let a3 = a2 + ser_mode(w.mode);
            let a4 = a3 + "\">"@;
            let a5 = a4 + ser_ds_dependencies(w.dependencies);
            let a6 = a5 + "</params>"@;
            &&& starts_with_at(s@, i as int, "<params angle=\""@)
            &&& starts_with_at(s@, i + a0.len(), ser_decimal(w.angle))
            &&& decimal_stop(s@, i + a1.len())
            &&& starts_with_at(s@, i + a1.len(), "\" mode=\""@)
            &&& starts_with_at(s@, i + a2.len(), ser_mode(w.mode))
            &&& starts_with_at(s@, i + a3.len(), "\">"@)
            &&& starts_with_at(s@, i + a4.len(), ser_ds_dependencies(w.dependencies))
            &&& starts_with_at(s@, i + a5.len(), "</params>"@)
        } by {
            let a0 = "<params angle=\""@;
            let a1 = a0 + ser_decimal(w.angle);
            let a2 = a1 + "\" mode=\""@;
            let a3 = a2 + ser_mode(w.mode);
            let a4 = a3 + "\">"@;
            let a5 = a4 + ser_ds_dependencies(w.dependencies);
            let a6 = a5 + "</params>"@;
            starts_split(s@, i as int, a5, "</params>"@);
            starts_split(s@, i as int, a4, ser_ds_dependencies(w.dependencies));
            starts_split(s@, i as int, a3, "\">"@);
            starts_split(s@, i as int, a2, ser_mode(w.mode));
            starts_split(s@, i as int, a1, "\" mode=\""@);
            starts_split(s@, i as int, a0, ser_decimal(w.angle));
            assert(s@.subrange(i + a1.len(), i + a1.len() + 8)[0] == s@[i + a1.len()]);
        }
    }
    let j1 = expect(s, i, "<params angle=\"")?;
    let (angle, j2) = parse_decimal(s, j1)?;
    let j3 = expect(s, j2, "\" mode=\"")?;
    let (mode, j4) = parse_mode(s, j3)?;
    let j5 = expect(s, j4, "\">")?;
    let (deps, j6) = parse_ds_dependencies(s, j5)?;
    let j7 = expect(s, j6, "</params>")?;
    let v = Params { angle, mode, dependencies: deps };
    proof {
        subrange_join(s@, i as int, j1 as int, j2 as int);
        subrange_join(s@, i as int, j2 as int, j3 as int);
        subrange_join(s@, i as int, j3 as int, j4 as int);
        subrange_join(s@, i as int, j4 as int, j5 as int);
        subrange_join(s@, i as int, j5 as int, j6 as int);
        subrange_join(s@, i as int, j6 as int, j7 as int);
        assert(s@.subrange(i as int, j7 as int) =~= ser_ds_params(v));
    }
    Ok((v, j7))
}

pub open spec fn ser_ds_page(v: Page) -> Seq<char> {
    "<page id=\""@ + u64_dec(v.id as int) + "\">"@ + ser_ds_params(v.params) + "</page>"@
}

pub fn write_ds_page(out: &mut String, v: &Page)
    requires
        wf_ds_page(*v),
    ensures
        final(out)@ == old(out)@ + ser_ds_page(*v),
{
    out.append("<page id=\"");
    write_u64(out, v.id as u64);
    out.append("\">");
    write_ds_params(out, &v.params);
    out.append("</page>");
    proof {
        assert(out@ =~= old(out)@ + ser_ds_page(*v));
    }
}

#[verifier::rlimit(100)]
#[verifier::spinoff_prover]
pub fn parse_ds_page(s: &str, i: usize) -> (r: Result<(Page, usize), ParseError>)
    requires
        i <= s@.len(),
    ensures
        match r {
            Ok((v, j)) => {
                &&& i < j <= s@.len()
                &&& wf_ds_page(v)
                &&& s@.subrange(i as int, j as int) == ser_ds_page(v)
            },
            Err(_) => true,
        },
        forall|w: Page|
            #![trigger starts_with_at(s@, i as int, ser_ds_page(w))]
            wf_ds_page(w) && starts_with_at(s@, i as int, ser_ds_page(w)) ==> r is Ok && (
            r->Ok_0).1 == i + ser_ds_page(w).len(),
{
    proof {
        reveal_strlit("<page id=\"");
        reveal_strlit("\">");
        reveal_strlit("</page>");
        assert forall|w: Page|
            wf_ds_page(w) && #[trigger] starts_with_at(s@, i as int, ser_ds_page(w)) implies {
            let a0 = "<page id=\""@;
            let a1 = a0 + u64_dec(w.id as int);
            let a2 = a1 + "\">"@;
            let a3 = a2 + ser_ds_params(w.params);
            let a4 = a3 + "</page>"@;
            &&& starts_with_at(s@, i as int, "<page id=\""@)
            &&& starts_with_at(s@, i + a0.len(), u64_dec(w.id as int))
            &&& digit_stop(s@, i + a1.len())
            &&& starts_with_at(s@, i + a1.len(), "\">"@)
            &&& starts_with_at(s@, i + a2.len(), ser_ds_params(w.params))
            &&& starts_with_at(s@, i + a3.len(), "</page>"@)
        } by {
            let a0 = "<page id=\""@;
            let a1 = a0 + u64_dec(w.id as int);
            let a2 = a1 + "\">"@;
            let a3 = a2 + ser_ds_params(w.params);
            let a4 = a3 + "</page>"@;
            starts_split(s@, i as int, a3, "</page>"@);
            starts_split(s@, i as int, a2, ser_ds_params(w.params));
            starts_split(s@, i as int, a1, "\">"@);
            starts_split(s@, i as int, a0, u64_dec(w.id as int));
            assert(s@.subrange(i + a1.len(), i + a1.len() + 2)[0] == s@[i + a1.len()]);
        }
    }
    let j1 = expect(s, i, "<page id=\"")?;
    let (id, j2) = parse_u64(s, j1, 0xffffffff)?;
    let j3 = expect(s, j2, "\">")?;
    let (params, j4) = parse_ds_params(s, j3)?;
    let j5 = expect(s, j4, "</page>")?;
    let v = Page { id: id as u32, params };
    proof {
        subrange_join(s@, i as int, j1 as int, j2 as int);
        subrange_join(s@, i as int, j2 as int, j3 as int);
        subrange_join(s@, i as int, j3 as int, j4 as int);
        subrange_join(s@, i as int, j4 as int, j5 as int);
        assert(s@.subrange(i as int, j5 as int) =~= ser_ds_page(v));
    }
    Ok((v, j5))
}

pub open spec fn ser_ds_page_list(xs: Seq<Page>) -> Seq<char>
    decreases xs.len(),
{
    if xs.len() == 0 {
        Seq::<char>::empty()
    } else {
        ser_ds_page(xs[0]) + ser_ds_page_list(xs.drop_first())
    }
}

pub proof fn ser_ds_page_list_snoc(xs: Seq<Page>, x: Page)
    ensures
        ser_ds_page_list(xs + seq![x]) == ser_ds_page_list(xs) + ser_ds_page(x),
    decreases xs.len(),
{
    assert(ser_ds_page_list(Seq::<Page>::empty()) =~= Seq::<char>::empty());
    if xs.len() == 0 {
        assert(xs + seq![x] =~= seq![x]);
        assert(seq![x].drop_first() =~= Seq::<Page>::empty());
        assert(ser_ds_page_list(seq![x]) =~= ser_ds_page(x));
        assert(ser_ds_page_list(xs + seq![x]) =~= ser_ds_page_list(xs) + ser_ds_page(x));
    } else {
        assert((xs + seq![x]).drop_first() =~= xs.drop_first() + seq![x]);
        ser_ds_page_list_snoc(xs.drop_first(), x);
        assert(ser_ds_page_list(xs + seq![x]) =~= ser_ds_page_list(xs) + ser_ds_page(x));
    }
}

pub proof fn ser_ds_page_list_cat(xs: Seq<Page>, ys: Seq<Page>)
    ensures
        ser_ds_page_list(xs + ys) == ser_ds_page_list(xs) + ser_ds_page_list(ys),
    decreases xs.len(),
{
    if xs.len() == 0 {
        assert(xs + ys =~= ys);
        assert(ser_ds_page_list(xs) + ser_ds_page_list(ys) =~= ser_ds_page_list(ys));
    } else {
        assert((xs + ys).drop_first() =~= xs.drop_first() + ys);
        ser_ds_page_list_cat(xs.drop_first(), ys);
        assert(ser_ds_page_list(xs + ys) =~= ser_ds_page_list(xs) + ser_ds_page_list(ys));
    }
}

/// `<deskew>` always closes with the image-settings child.
pub open spec fn ser_deskew(v: Deskew) -> Seq<char> {
    "<deskew>"@ + ser_ds_page_list(v.page@) + ser_image_settings(v.image_settings) + "</deskew>"@
}

pub fn write_deskew(out: &mut String, v: &Deskew)
    requires
        wf_deskew(*v),
    ensures
        final(out)@ == old(out)@ + ser_deskew(*v),
{
    out.append("<deskew>");
    let n = v.page.len();
    let mut k: usize = 0;
    proof {
        assert(v.page@.take(0) =~= Seq::<Page>::empty());
        assert(ser_ds_page_list(v.page@.take(0)) =~= Seq::<char>::empty());
        assert(out@ =~= old(out)@ + "<deskew>"@ + ser_ds_page_list(v.page@.take(0)));
    }
    while k < n
        invariant
            0 <= k <= n == v.page@.len(),
            wf_deskew(*v),
            out@ == old(out)@ + "<deskew>"@ + ser_ds_page_list(v.page@.take(k as int)),
        decreases n - k,
    {
        write_ds_page(out, &v.page[k]);
        k = k + 1;
        proof {
            ser_ds_page_list_snoc(v.page@.take(k - 1), v.page@[k - 1]);
            assert(v.page@.take(k - 1) + seq![v.page@[k - 1]] =~= v.page@.take(k as int));
        }
    }
    proof {
        assert(v.page@.take(n as int) =~= v.page@);
    }
    write_image_settings(out, &v.image_settings);
    out.append("</deskew>");
    proof {
        assert(out@ =~= old(out)@ + ser_deskew(*v));
    }
}

#[verifier::rlimit(100)]
#[verifier::spinoff_prover]
#[verifier::loop_isolation(false)]
pub fn parse_deskew(s: &str, i: usize) -> (r: Result<(Deskew, usize), ParseError>)
    requires
        i <= s@.len(),
    ensures
        match r {
            Ok((v, j)) => {
                &&& i < j <= s@.len()
                &&& wf_deskew(v)
                &&& s@.subrange(i as int, j as int) == ser_deskew(v)
            },
            Err(_) => true,
        },
        forall|w: Deskew|
            #![trigger starts_with_at(s@, i as int, ser_deskew(w))]
            wf_deskew(w) && starts_with_at(s@, i as int, ser_deskew(w)) ==> r is Ok && (
            r->Ok_0).1 == i + ser_deskew(w).len(),
{
    proof {
        reveal_strlit("<deskew>");
        reveal_strlit("</deskew>");
        reveal_strlit("<page id=\"");
        reveal_strlit("<image-settings");
        reveal_strlit("<image-settings/>");
        reveal_strlit("<image-settings>");
        assert forall|w: Deskew|
            wf_deskew(w) && #[trigger] starts_with_at(s@, i as int, ser_deskew(w)) implies {
            let a0 = "<deskew>"@;
            let a1 = a0 + ser_ds_page_list(w.page@);
            let a2 = a1 + ser_image_settings(w.image_settings);
            &&& starts_with_at(s@, i as int, a0)
            &&& starts_with_at(s@, i + a0.len(), ser_ds_page_list(w.page@))
            &&& starts_with_at(s@, i + a1.len(), ser_image_settings(w.image_settings))
            &&& s@[i + a1.len() + 6] == '-'
            &&& starts_with_at(s@, i + a2.len(), "</deskew>"@)
        } by {
            let a0 = "<deskew>"@;
            let a1 = a0 + ser_ds_page_list(w.page@);
            let a2 = a1 + ser_image_settings(w.image_settings);
            starts_split(s@, i as int, a2, "</deskew>"@);
            starts_split(s@, i as int, a1, ser_image_settings(w.image_settings));
            starts_split(s@, i as int, a0, ser_ds_page_list(w.page@));
            if w.image_settings.page@.len() == 0 {
                assert(ser_image_settings(w.image_settings) == "<image-settings/>"@);
                assert(s@.subrange(i + a1.len(), i + a1.len() + 17)[6] == s@[i + a1.len() + 6]);
            } else {
                assert(ser_image_settings(w.image_settings) == "<image-settings>"@
                    + ser_settings_pages(w.image_settings.page@) + "</image-settings>"@);
                assert(ser_image_settings(w.image_settings)[6] == "<image-settings>"@[6]);
                assert(s@.subrange(
                    i + a1.len(),
                    i + a1.len() + ser_image_settings(w.image_settings).len(),
                )[6] == s@[i + a1.len() + 6]);
            }
        }
    }
    let j1 = expect(s, i, "<deskew>")?;
    let mut xs: Vec<Page> = Vec::new();
    let mut j: usize = j1;
    let ghost mut k: int = 0;
    proof {
        assert(s@.subrange(j1 as int, j1 as int) =~= ser_ds_page_list(xs@));
    }
    loop
        invariant
            i <= j1 <= j <= s@.len(),
            k == xs@.len(),
            s@.subrange(i as int, j1 as int) == "<deskew>"@,
            forall|t: int| 0 <= t < xs@.len() ==> wf_ds_page(#[trigger] xs@[t]),

            s@.subrange(j1 as int, j as int) == ser_ds_page_list(xs@),
            forall|w: Deskew|
                #![trigger starts_with_at(s@, i as int, ser_deskew(w))]
                wf_deskew(w) && starts_with_at(s@, i as int, ser_deskew(w)) && j1 == i
                    + "<deskew>"@.len() ==> k <= w.page@.len() && j == j1 + ser_ds_page_list(
                    w.page@.take(k),
                ).len(),
        decreases s@.len() - j,
    {
        proof {
            assert forall|w: Deskew|
                wf_deskew(w) && #[trigger] starts_with_at(s@, i as int, ser_deskew(w)) && j1 == i
                    + "<deskew>"@.len() && k < w.page@.len() implies wf_ds_page(w.page@[k]) && starts_with_at(
                s@,
                j as int,
                ser_ds_page(w.page@[k]),
            ) by {
                let ws = w.page@;
                assert(ws.take(k) + ws.skip(k) =~= ws);
                ser_ds_page_list_cat(ws.take(k), ws.skip(k));
                assert(starts_with_at(s@, j1 as int, ser_ds_page_list(ws)));
                starts_split(s@, j1 as int, ser_ds_page_list(ws.take(k)), ser_ds_page_list(ws.skip(k)));
                assert(ws.skip(k)[0] == ws[k]);
                assert(ws.skip(k).drop_first() =~= ws.skip(k + 1));
                assert(ser_ds_page_list(ws.skip(k)) == ser_ds_page(ws[k]) + ser_ds_page_list(ws.skip(k + 1)));
                starts_split(s@, j as int, ser_ds_page(ws[k]), ser_ds_page_list(ws.skip(k + 1)));
            }
        }
        match parse_ds_page(s, j) {
            Ok((x, j3)) => {
                proof {
                    assert forall|w: Deskew|
                        wf_deskew(w) && #[trigger] starts_with_at(s@, i as int, ser_deskew(w)) && j1
                            == i + "<deskew>"@.len() implies k < w.page@.len() && j3 == j1 + ser_ds_page_list(
                        w.page@.take(k + 1),
                    ).len() by {
                        let ws = w.page@;
                        if k >= ws.len() {
                            assert(ws.take(k) =~= ws);
                            assert(s@.subrange(j as int, j3 as int) == ser_ds_page(x));
                            reveal_strlit("\">");
                            reveal_strlit("</page>");
                            assert(ser_ds_page(x) == "<page id=\""@ + u64_dec(x.id as int)
                                + "\">"@ + ser_ds_params(x.params) + "</page>"@);
                            assert(ser_ds_page(x).len() >= 7);
                            assert(j3 - j == ser_ds_page(x).len());
                            assert(s@[j + 6] == ser_ds_page(x)[6]) by {
                                assert(s@.subrange(j as int, j3 as int)[6] == s@[j + 6]);
                            }
                            assert(ser_ds_page(x)[6] == "<page id=\""@[6]);
                        } else {
                            assert(starts_with_at(s@, j as int, ser_ds_page(ws[k])));
                            ser_ds_page_list_snoc(ws.take(k), ws[k]);
                            assert(ws.take(k) + seq![ws[k]] =~= ws.take(k + 1));
                        }
                    }
                    ser_ds_page_list_snoc(xs@, x);
                    subrange_join(s@, j1 as int, j as int, j3 as int);
                }
                let ghost prev = xs@;
                xs.push(x);
                j = j3;
                proof {
                    k = k + 1;
                    assert(xs@ =~= prev + seq![x]);
                }
            },
            Err(_) => {
                proof {
                    assert forall|w: Deskew|
                        wf_deskew(w) && #[trigger] starts_with_at(s@, i as int, ser_deskew(w)) && j1
                            == i + "<deskew>"@.len() implies k == w.page@.len() && j == j1 + ser_ds_page_list(
                        w.page@,
                    ).len() by {
                        if k < w.page@.len() {
                            assert(starts_with_at(
                                s@,
                                j as int,
                                ser_ds_page(w.page@[k]),
                            ));
                        } else {
                            assert(w.page@.take(k) =~= w.page@);
                        }
                    }
                }
                let (settings, j4) = parse_image_settings(s, j)?;
                let j5 = expect(s, j4, "</deskew>")?;
                let v = Deskew { page: xs, image_settings: settings };
                proof {
                    subrange_join(s@, i as int, j1 as int, j as int);
                    subrange_join(s@, i as int, j as int, j4 as int);
                    subrange_join(s@, i as int, j4 as int, j5 as int);
                    assert(s@.subrange(i as int, j5 as int) =~= ser_deskew(v));
                }
                return Ok((v, j5));
            },
        }
    }
}


} // verus!
