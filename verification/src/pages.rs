//! The page table: each page points at its source image and sub-page role.

use vstd::prelude::*;

use crate::numbers::{digit_stop, parse_u64, u64_dec, write_u64};
use crate::wire::{starts_split, starts_with_at, expect, subrange_join, ParseError, ParseErrorKind};


verus! {

#[derive(Debug, Clone)]
pub struct Pages {
    pub page: Vec<Page>,
}

#[derive(Debug, Clone)]
pub struct Page {
    pub id: u32,
    pub image_id: u32,
    pub selected: Option<Selected>,
    pub sub_page: SubPage,
}

/// The role of a page within a split source image.
#[derive(Clone, Copy, Debug, PartialEq, Eq, Structural)]
pub enum SubPage {
    Single,
    Left,
    Right,
}

/// The marker value of the optional `selected` attribute.
#[derive(Clone, Copy, Debug, PartialEq, Eq, Structural)]
pub enum Selected {
    Selected,
}

pub open spec fn ser_sub_page(v: SubPage) -> Seq<char> {
    match v {
        SubPage::Single => "single"@,
        SubPage::Left => "left"@,
        SubPage::Right => "right"@,
    }
}

pub fn write_sub_page(out: &mut String, v: SubPage)
    ensures
        final(out)@ == old(out)@ + ser_sub_page(v),
{
    match v {
        SubPage::Single => out.append("single"),
        SubPage::Left => out.append("left"),
        SubPage::Right => out.append("right"),
    }
}

pub fn parse_sub_page(s: &str, i: usize) -> (r: Result<(SubPage, usize), ParseError>)
    requires
        i <= s@.len(),
    ensures
        match r {
            Ok((v, j)) => {
                &&& i < j <= s@.len()
                &&& s@.subrange(i as int, j as int) == ser_sub_page(v)
            },
            Err(_) => true,
        },
        forall|w: SubPage|
            #![trigger starts_with_at(s@, i as int, ser_sub_page(w))]
            starts_with_at(s@, i as int, ser_sub_page(w)) ==> r is Ok && (r->Ok_0).1 == i + ser_sub_page(
                w,
            ).len(),
{
    proof {
        reveal_strlit("single");
        reveal_strlit("left");
        reveal_strlit("right");
        assert forall|w: SubPage| #[trigger] starts_with_at(s@, i as int, ser_sub_page(w)) implies i < s@.len() && s@[i as int] == ser_sub_page(w)[0] by {
            match w {
            SubPage::Single => {
                assert(s@.subrange(i as int, i + 6)[0] == s@[i as int]);
            },
            SubPage::Left => {
                assert(s@.subrange(i as int, i + 4)[0] == s@[i as int]);
            },
            SubPage::Right => {
                assert(s@.subrange(i as int, i + 5)[0] == s@[i as int]);
            },
            }
        }
    }
    let n = s.unicode_len();
    if i == n {
        return Err(ParseError { pos: i, kind: ParseErrorKind::Unexpected });
    }
    proof {
        reveal_strlit("single");
        reveal_strlit("left");
        reveal_strlit("right");
    }
    let c = s.get_char(i);
    if c == 's' {
        let j = expect(s, i, "single")?;
        Ok((SubPage::Single, j))
    } else if c == 'l' {
        let j = expect(s, i, "left")?;
        Ok((SubPage::Left, j))
    } else if c == 'r' {
        let j = expect(s, i, "right")?;
        Ok((SubPage::Right, j))
    } else {
        Err(ParseError { pos: i, kind: ParseErrorKind::Unexpected })
    }
}

/// The optional `selected` marker between the `imageId` and `subPage`
/// attributes.
pub open spec fn ser_selected_opt(v: Option<Selected>) -> Seq<char> {
    match v {
        Option::None => Seq::<char>::empty(),
        Option::Some(_) => "\" selected=\"selected"@,
    }
}

pub open spec fn ser_page(v: Page) -> Seq<char> {
    "<page id=\""@ + u64_dec(v.id as int) + "\" imageId=\""@ + u64_dec(v.image_id as int)
        + ser_selected_opt(v.selected) + "\" subPage=\""@ + ser_sub_page(v.sub_page) + "\"/>"@
}

pub fn write_page(out: &mut String, v: &Page)
    ensures
        final(out)@ == old(out)@ + ser_page(*v),
{
    out.append("<page id=\"");
    write_u64(out, v.id as u64);
    out.append("\" imageId=\"");
    write_u64(out, v.image_id as u64);
    match v.selected {
        Option::None => {},
        Option::Some(_) => out.append("\" selected=\"selected"),
    }
    out.append("\" subPage=\"");
    write_sub_page(out, v.sub_page);
    out.append("\"/>");
    proof {
        assert(out@ =~= old(out)@ + ser_page(*v));
    }
}

pub fn parse_page(s: &str, i: usize) -> (r: Result<(Page, usize), ParseError>)
    requires
        i <= s@.len(),
    ensures
        match r {
            Ok((v, j)) => {
                &&& i < j <= s@.len()
                &&& s@.subrange(i as int, j as int) == ser_page(v)
            },
            Err(_) => true,
        },
        forall|w: Page|
            #![trigger starts_with_at(s@, i as int, ser_page(w))]
            starts_with_at(s@, i as int, ser_page(w)) ==> r is Ok && (r->Ok_0).1 == i + ser_page(
                w,
            ).len(),
{
    proof {
        reveal_strlit("<page id=\"");
        reveal_strlit("\" imageId=\"");
        reveal_strlit("\" selected=\"selected");
        reveal_strlit("\" subPage=\"");
        reveal_strlit("\"/>");
        assert forall|w: Page| #[trigger] starts_with_at(s@, i as int, ser_page(w)) implies {
            let a0 = "<page id=\""@;
            let a1 = a0 + u64_dec(w.id as int);
            let a2 = a1 + "\" imageId=\""@;
            let a3 = a2 + u64_dec(w.image_id as int);
            let a4 = a3 + ser_selected_opt(w.selected);
            let a5 = a4 + "\" subPage=\""@;
            let a6 = a5 + ser_sub_page(w.sub_page);
            &&& starts_with_at(s@, i as int, a0)
            &&& starts_with_at(s@, i + a0.len(), u64_dec(w.id as int))
            &&& digit_stop(s@, i + a1.len())
            &&& starts_with_at(s@, i + a1.len(), "\" imageId=\""@)
            &&& starts_with_at(s@, i + a2.len(), u64_dec(w.image_id as int))
            &&& digit_stop(s@, i + a3.len())
            &&& (w.selected is Some ==> starts_with_at(s@, i + a3.len(), "\" selected=\"selected"@))
            &&& (w.selected is None ==> !starts_with_at(s@, i + a3.len(), "\" selected=\"selected"@))
            &&& starts_with_at(s@, i + a4.len(), "\" subPage=\""@)
            &&& starts_with_at(s@, i + a5.len(), ser_sub_page(w.sub_page))
            &&& starts_with_at(s@, i + a6.len(), "\"/>"@)
        } by {
            let a0 = "<page id=\""@;
            let a1 = a0 + u64_dec(w.id as int);
            let a2 = a1 + "\" imageId=\""@;
            let a3 = a2 + u64_dec(w.image_id as int);
            let a4 = a3 + ser_selected_opt(w.selected);
            let a5 = a4 + "\" subPage=\""@;
            let a6 = a5 + ser_sub_page(w.sub_page);
            starts_split(s@, i as int, a6, "\"/>"@);
            starts_split(s@, i as int, a5, ser_sub_page(w.sub_page));
            starts_split(s@, i as int, a4, "\" subPage=\""@);
            starts_split(s@, i as int, a3, ser_selected_opt(w.selected));
            starts_split(s@, i as int, a2, u64_dec(w.image_id as int));
            starts_split(s@, i as int, a1, "\" imageId=\""@);
            starts_split(s@, i as int, a0, u64_dec(w.id as int));
            assert(s@.subrange(i + a1.len(), i + a1.len() + 11)[0] == s@[i
                + a1.len()]);
            match w.selected {
                Option::Some(_) => {
                    assert(s@.subrange(i + a3.len(), i + a3.len() + 20)[0]
                        == s@[i + a3.len()]);
                },
                Option::None => {
                    assert(a4 =~= a3);
                    assert(s@.subrange(i + a3.len(), i + a3.len() + 11)[0]
                        == s@[i + a3.len()]);
                    if starts_with_at(s@, i + a3.len(), "\" selected=\"selected"@) {
                        assert(s@.subrange(
                            i + a3.len(),
                            i + a3.len() + 20,
                        )[3] == s@[i + a3.len() + 3]);
                        assert(s@.subrange(
                            i + a4.len(),
                            i + a4.len() + 11,
                        )[3] == s@[i + a4.len() + 3]);
                    }
                },
            }
        }
    }
    let j1 = expect(s, i, "<page id=\"")?;
    let (id, j2) = parse_u64(s, j1, 0xffffffff)?;
    let j3 = expect(s, j2, "\" imageId=\"")?;
    let (image_id, j4) = parse_u64(s, j3, 0xffffffff)?;
    let (selected, j5): (Option<Selected>, usize) = match expect(s, j4, "\" selected=\"selected") {
        Ok(j5) => (Option::Some(Selected::Selected), j5),
        Err(_) => (Option::None, j4),
    };
    let j6 = expect(s, j5, "\" subPage=\"")?;
    let (sub_page, j7) = parse_sub_page(s, j6)?;
    let j8 = expect(s, j7, "\"/>")?;
    let v = Page { id: id as u32, image_id: image_id as u32, selected, sub_page };
    proof {
        subrange_join(s@, i as int, j1 as int, j2 as int);
        subrange_join(s@, i as int, j2 as int, j3 as int);
        subrange_join(s@, i as int, j3 as int, j4 as int);
        subrange_join(s@, i as int, j4 as int, j5 as int);
        subrange_join(s@, i as int, j5 as int, j6 as int);
        subrange_join(s@, i as int, j6 as int, j7 as int);
        subrange_join(s@, i as int, j7 as int, j8 as int);
        assert(s@.subrange(i as int, j8 as int) =~= ser_page(v));
    }
    Ok((v, j8))
}

pub open spec fn ser_page_list(xs: Seq<Page>) -> Seq<char>
    decreases xs.len(),
{
    if xs.len() == 0 {
        Seq::<char>::empty()
    } else {
        ser_page(xs[0]) + ser_page_list(xs.drop_first())
    }
}

pub proof fn ser_page_list_snoc(xs: Seq<Page>, x: Page)
    ensures
        ser_page_list(xs + seq![x]) == ser_page_list(xs) + ser_page(x),
    decreases xs.len(),
{
    assert(ser_page_list(Seq::<Page>::empty()) =~= Seq::<char>::empty());
    if xs.len() == 0 {
        assert(xs + seq![x] =~= seq![x]);
        assert(seq![x].drop_first() =~= Seq::<Page>::empty());
        assert(ser_page_list(seq![x]) =~= ser_page(x));
        assert(ser_page_list(xs + seq![x]) =~= ser_page_list(xs) + ser_page(x));
    } else {
        assert((xs + seq![x]).drop_first() =~= xs.drop_first() + seq![x]);
        ser_page_list_snoc(xs.drop_first(), x);
        assert(ser_page_list(xs + seq![x]) =~= ser_page_list(xs) + ser_page(x));
    }
}

pub proof fn ser_page_list_cat(xs: Seq<Page>, ys: Seq<Page>)
    ensures
        ser_page_list(xs + ys) == ser_page_list(xs) + ser_page_list(ys),
    decreases xs.len(),
{
    if xs.len() == 0 {
        assert(xs + ys =~= ys);
        assert(ser_page_list(xs) + ser_page_list(ys) =~= ser_page_list(ys));
    } else {
        assert((xs + ys).drop_first() =~= xs.drop_first() + ys);
        ser_page_list_cat(xs.drop_first(), ys);
        assert(ser_page_list(xs + ys) =~= ser_page_list(xs) + ser_page_list(ys));
    }
}

/// `<pages/>` when the table is empty, else the entries between open and
/// close tags.
pub open spec fn ser_pages(v: Pages) -> Seq<char> {
    if v.page@.len() == 0 {
        "<pages/>"@
    } else {
        "<pages>"@ + ser_page_list(v.page@) + "</pages>"@
    }
}

pub fn write_pages(out: &mut String, v: &Pages)
    
    ensures
        final(out)@ == old(out)@ + ser_pages(*v),
{
    if v.page.len() == 0 {
        out.append("<pages/>");
        return ;
    }
    out.append("<pages>");
    let n = v.page.len();
    let mut k: usize = 0;
    proof {
        assert(v.page@.take(0) =~= Seq::<Page>::empty());
        assert(ser_page_list(v.page@.take(0)) =~= Seq::<char>::empty());
        assert(out@ =~= old(out)@ + "<pages>"@ + ser_page_list(v.page@.take(0)));
    }
    while k < n
        invariant
            0 < n == v.page@.len(),
            0 <= k <= n,
            
            out@ == old(out)@ + "<pages>"@ + ser_page_list(v.page@.take(k as int)),
        decreases n - k,
    {
        write_page(out, &v.page[k]);
        k = k + 1;
        proof {
            ser_page_list_snoc(v.page@.take(k - 1), v.page@[k - 1]);
            assert(v.page@.take(k - 1) + seq![v.page@[k - 1]] =~= v.page@.take(k as int));
        }
    }
    out.append("</pages>");
    proof {
        assert(v.page@.take(n as int) =~= v.page@);
        assert(out@ =~= old(out)@ + ser_pages(*v));
    }
}

#[verifier::rlimit(100)]
#[verifier::spinoff_prover]
#[verifier::loop_isolation(false)]
pub fn parse_pages(s: &str, i: usize) -> (r: Result<(Pages, usize), ParseError>)
    requires
        i <= s@.len(),
    ensures
        match r {
            Ok((v, j)) => {
                &&& i < j <= s@.len()
                &&& true
                &&& s@.subrange(i as int, j as int) == ser_pages(v)
            },
            Err(_) => true,
        },
        forall|w: Pages|
            #![trigger starts_with_at(s@, i as int, ser_pages(w))]
            true && starts_with_at(s@, i as int, ser_pages(w)) ==> r is Ok && (
            r->Ok_0).1 == i + ser_pages(w).len(),
{
    let n = s.unicode_len();
    proof {
        reveal_strlit("<pages");
        reveal_strlit("/>");
        reveal_strlit(">");
        reveal_strlit("<pages/>");
        reveal_strlit("<pages>");
        reveal_strlit("</pages>");
        reveal_strlit("<page id=\"");
        assert forall|w: Pages|
            true && #[trigger] starts_with_at(s@, i as int, ser_pages(w)) implies {
            let a0 = "<pages"@;
            &&& starts_with_at(s@, i as int, a0)
            &&& i + a0.len() < s@.len()
            &&& (w.page@.len() == 0 ==> s@[i + a0.len()] == '/' && starts_with_at(
                s@,
                i + a0.len(),
                "/>"@,
            ))
            &&& (w.page@.len() > 0 ==> s@[i + a0.len()] == '>' && starts_with_at(
                s@,
                i + a0.len(),
                ">"@,
            ) && starts_with_at(
                s@,
                i + a0.len() + 1,
                ser_page_list(w.page@),
            ) && starts_with_at(
                s@,
                i + a0.len() + 1 + ser_page_list(w.page@).len(),
                "</pages>"@,
            ))
        } by {
            let a0 = "<pages"@;
            if w.page@.len() == 0 {
                assert(ser_pages(w) == "<pages/>"@);
                assert(starts_with_at(s@, i as int, a0 + "/>"@)) by {
                    assert(a0 + "/>"@ =~= "<pages/>"@);
                }
                starts_split(s@, i as int, a0, "/>"@);
                assert(s@.subrange(i + a0.len(), i + a0.len() + 2)[0] == s@[i + a0.len()]);
            } else {
                let lst = ser_page_list(w.page@);
                assert(starts_with_at(s@, i as int, a0 + ">"@ + lst + "</pages>"@)) by {
                    assert(a0 + ">"@ =~= "<pages>"@);
                    assert(a0 + ">"@ + lst + "</pages>"@ =~= ser_pages(w));
                }
                starts_split(s@, i as int, a0 + ">"@ + lst, "</pages>"@);
                starts_split(s@, i as int, a0 + ">"@, lst);
                starts_split(s@, i as int, a0, ">"@);
                assert(s@.subrange(i + a0.len(), i + a0.len() + 1)[0] == s@[i + a0.len()]);
            }
        }
    }
    let j1 = expect(s, i, "<pages")?;
    if j1 < n && s.get_char(j1) == '/' {
        let j2 = expect(s, j1, "/>")?;
        let v = Pages { page: Vec::new() };
        proof {
            subrange_join(s@, i as int, j1 as int, j2 as int);
            assert(s@.subrange(i as int, j2 as int) =~= ser_pages(v));
        }
        return Ok((v, j2));
    }
    let j2 = expect(s, j1, ">")?;
    let mut xs: Vec<Page> = Vec::new();
    let mut j: usize = j2;
    let ghost mut k: int = 0;
    proof {
        assert(s@.subrange(j2 as int, j2 as int) =~= ser_page_list(xs@));
    }
    loop
        invariant
            i <= j1 <= j2 <= j <= s@.len(),
            k == xs@.len(),
            s@.subrange(i as int, j1 as int) == "<pages"@,
            s@.subrange(j1 as int, j2 as int) == ">"@,
            
            s@.subrange(j2 as int, j as int) == ser_page_list(xs@),
            forall|w: Pages|
                #![trigger starts_with_at(s@, i as int, ser_pages(w))]
                true && starts_with_at(s@, i as int, ser_pages(w)) && w.page@.len() > 0
                    && j2 == i + "<pages>"@.len() ==> k <= w.page@.len() && j == j2
                    + ser_page_list(w.page@.take(k)).len(),
        decreases s@.len() - j,
    {
        proof {
            reveal_strlit("<pages>");
            reveal_strlit("</pages>");
            reveal_strlit("<page id=\"");
            assert forall|w: Pages|
                true && #[trigger] starts_with_at(s@, i as int, ser_pages(w))
                    && w.page@.len() > 0 && j2 == i + "<pages>"@.len() && k
                    < w.page@.len() implies true && starts_with_at(
                s@,
                j as int,
                ser_page(w.page@[k]),
            ) by {
                let ws = w.page@;
                assert(ws.take(k) + ws.skip(k) =~= ws);
                ser_page_list_cat(ws.take(k), ws.skip(k));
                assert(starts_with_at(s@, j2 as int, ser_page_list(ws)));
                starts_split(s@, j2 as int, ser_page_list(ws.take(k)), ser_page_list(
                    ws.skip(k),
                ));
                assert(ws.skip(k)[0] == ws[k]);
                assert(ws.skip(k).drop_first() =~= ws.skip(k + 1));
                assert(ser_page_list(ws.skip(k)) == ser_page(ws[k])
                    + ser_page_list(ws.skip(k + 1)));
                starts_split(s@, j as int, ser_page(ws[k]), ser_page_list(
                    ws.skip(k + 1),
                ));
            }
        }
        match parse_page(s, j) {
            Ok((x, j3)) => {
                proof {
                    reveal_strlit("<pages>");
                    reveal_strlit("</pages>");
                    reveal_strlit("<page id=\"");
                    assert forall|w: Pages|
                        true && #[trigger] starts_with_at(s@, i as int, ser_pages(w))
                            && w.page@.len() > 0 && j2 == i + "<pages>"@.len() implies k
                        < w.page@.len() && j3 == j2 + ser_page_list(
                        w.page@.take(k + 1),
                    ).len() by {
                        let ws = w.page@;
                        if k >= ws.len() {
                            assert(ws.take(k) =~= ws);
                            assert(starts_with_at(
                                s@,
                                j as int,
                                "</pages>"@,
                            ));
                            assert(s@.subrange(j as int, j3 as int) == ser_page(x));
                            reveal_strlit("<page id=\"");
                            assert(ser_page(x) == "<page id=\""@ + u64_dec(x.id as int) + "\" imageId=\""@ + u64_dec(x.image_id as int) + ser_selected_opt(x.selected) + "\" subPage=\""@ + ser_sub_page(x.sub_page) + "\"/>"@);
                            assert(ser_page(x).len() >= 2);
                            assert(j3 - j == ser_page(x).len());
                            assert(s@[j + 1] == ser_page(x)[1]) by {
                                assert(s@.subrange(j as int, j3 as int)[1] == s@[j + 1]);
                            }
                            assert(ser_page(x)[1] == "<page id=\""@[1]);
                            assert(s@[j + 1] == "</pages>"@[1]) by {
                                assert(s@.subrange(j as int, j + "</pages>"@.len())[1] == s@[j
                                    + 1]);
                            }
                        } else {
                            assert(starts_with_at(s@, j as int, ser_page(ws[k])));
                            ser_page_list_snoc(ws.take(k), ws[k]);
                            assert(ws.take(k) + seq![ws[k]] =~= ws.take(k + 1));
                        }
                    }
                    ser_page_list_snoc(xs@, x);
                    subrange_join(s@, j2 as int, j as int, j3 as int);
                }
                let ghost prev = xs@;
                xs.push(x);
                j = j3;
                proof {
                    k = k + 1;
                    assert(xs@ =~= prev + seq![x]);
                }
            },
            Err(_) => {
                proof {
                    reveal_strlit("<pages>");
                    reveal_strlit("</pages>");
                    assert forall|w: Pages|
                        true && #[trigger] starts_with_at(s@, i as int, ser_pages(w))
                            && w.page@.len() > 0 && j2 == i + "<pages>"@.len() implies k
                        == w.page@.len() && j == j2 + ser_page_list(w.page@).len() by {
                        if k < w.page@.len() {
                            assert(starts_with_at(
                                s@,
                                j as int,
                                ser_page(w.page@[k]),
                            ));
                        } else {
                            assert(w.page@.take(k) =~= w.page@);
                        }
                    }
                }
                if xs.len() == 0 {
                    return Err(ParseError { pos: j, kind: ParseErrorKind::Unexpected });
                }
                let j4 = expect(s, j, "</pages>")?;
                let v = Pages { page: xs };
                proof {
                    subrange_join(s@, i as int, j1 as int, j2 as int);
                    subrange_join(s@, i as int, j2 as int, j as int);
                    subrange_join(s@, i as int, j as int, j4 as int);
                    assert(s@.subrange(i as int, j4 as int) =~= ser_pages(v));
                }
                return Ok((v, j4));
            },
        }
    }
}

} // verus!
