//! The image table: source file, sub-image index, pixel size and DPI.

use vstd::prelude::*;

use crate::common::{parse_dpi, parse_int_size, ser_dpi, ser_int_size, wf_dpi, write_dpi,
    write_int_size, IntSize, DPI};
use crate::numbers::{digit_stop, parse_u64, u64_dec, write_u64};
use crate::wire::{starts_split, starts_with_at, expect, subrange_join, ParseError, ParseErrorKind};


verus! {

#[derive(Debug, Clone)]
pub struct Images {
    pub image: Vec<Image>,
}

#[derive(Debug, Clone)]
pub struct Image {
    pub file_id: u32,
    pub file_image: u32,
    pub id: u32,
    pub sub_pages: u32,
    pub size: IntSize,
    pub dpi: DPI,
}

pub open spec fn wf_image(v: Image) -> bool {
    wf_dpi(v.dpi)
}

pub open spec fn wf_images(v: Images) -> bool {
    forall|k: int| 0 <= k < v.image@.len() ==> wf_image(#[trigger] v.image@[k])
}

pub open spec fn ser_image(v: Image) -> Seq<char> {
    "<image fileId=\""@ + u64_dec(v.file_id as int) + "\" fileImage=\""@ + u64_dec(
        v.file_image as int,
    ) + "\" id=\""@ + u64_dec(v.id as int) + "\" subPages=\""@ + u64_dec(v.sub_pages as int)
        + "\">"@ + ser_int_size("size"@, v.size) + ser_dpi(v.dpi) + "</image>"@
}

pub fn write_image(out: &mut String, v: &Image)
    requires
        wf_image(*v),
    ensures
        final(out)@ == old(out)@ + ser_image(*v),
{
    out.append("<image fileId=\"");
    write_u64(out, v.file_id as u64);
    out.append("\" fileImage=\"");
    write_u64(out, v.file_image as u64);
    out.append("\" id=\"");
    write_u64(out, v.id as u64);
    out.append("\" subPages=\"");
    write_u64(out, v.sub_pages as u64);
    out.append("\">");
    write_int_size(out, "size", &v.size);
    write_dpi(out, &v.dpi);
    out.append("</image>");
    proof {
        assert(out@ =~= old(out)@ + ser_image(*v));
    }
}

pub fn parse_image(s: &str, i: usize) -> (r: Result<(Image, usize), ParseError>)
    requires
        i <= s@.len(),
    ensures
        match r {
            Ok((v, j)) => {
                &&& i < j <= s@.len()
                &&& wf_image(v)
                &&& s@.subrange(i as int, j as int) == ser_image(v)
            },
            Err(_) => true,
        },
        forall|w: Image|
            #![trigger starts_with_at(s@, i as int, ser_image(w))]
            wf_image(w) && starts_with_at(s@, i as int, ser_image(w)) ==> r is Ok && (
            r->Ok_0).1 == i + ser_image(w).len(),
{
    proof {
        reveal_strlit("<image fileId=\"");
        reveal_strlit("\" fileImage=\"");
        reveal_strlit("\" id=\"");
        reveal_strlit("\" subPages=\"");
        reveal_strlit("\">");
        reveal_strlit("</image>");
        assert forall|w: Image|
            wf_image(w) && #[trigger] starts_with_at(s@, i as int, ser_image(w)) implies {
            let a0 = "<image fileId=\""@;
            let a1 = a0 + u64_dec(w.file_id as int);
            let a2 = a1 + "\" fileImage=\""@;
            let a3 = a2 + u64_dec(w.file_image as int);
            let a4 = a3 + "\" id=\""@;
            let a5 = a4 + u64_dec(w.id as int);
            let a6 = a5 + "\" subPages=\""@;
            let a7 = a6 + u64_dec(w.sub_pages as int);
            let a8 = a7 + "\">"@;
            let a9 = a8 + ser_int_size("size"@, w.size);
            let a10 = a9 + ser_dpi(w.dpi);
            let a11 = a10 + "</image>"@;
            &&& starts_with_at(s@, i as int, "<image fileId=\""@)
            &&& starts_with_at(s@, i + a0.len(), u64_dec(w.file_id as int))
            &&& digit_stop(s@, i + a1.len())
            &&& starts_with_at(s@, i + a1.len(), "\" fileImage=\""@)
            &&& starts_with_at(s@, i + a2.len(), u64_dec(w.file_image as int))
            &&& digit_stop(s@, i + a3.len())
            &&& starts_with_at(s@, i + a3.len(), "\" id=\""@)
            &&& starts_with_at(s@, i + a4.len(), u64_dec(w.id as int))
            &&& digit_stop(s@, i + a5.len())
            &&& starts_with_at(s@, i + a5.len(), "\" subPages=\""@)
            &&& starts_with_at(s@, i + a6.len(), u64_dec(w.sub_pages as int))
            &&& digit_stop(s@, i + a7.len())
            &&& starts_with_at(s@, i + a7.len(), "\">"@)
            &&& starts_with_at(s@, i + a8.len(), ser_int_size("size"@, w.size))
            &&& starts_with_at(s@, i + a9.len(), ser_dpi(w.dpi))
            &&& starts_with_at(s@, i + a10.len(), "</image>"@)
        } by {
            let a0 = "<image fileId=\""@;
            let a1 = a0 + u64_dec(w.file_id as int);
            let a2 = a1 + "\" fileImage=\""@;
            let a3 = a2 + u64_dec(w.file_image as int);
            let a4 = a3 + "\" id=\""@;
            let a5 = a4 + u64_dec(w.id as int);
            let a6 = a5 + "\" subPages=\""@;
            let a7 = a6 + u64_dec(w.sub_pages as int);
            let a8 = a7 + "\">"@;
            let a9 = a8 + ser_int_size("size"@, w.size);
            let a10 = a9 + ser_dpi(w.dpi);
            let a11 = a10 + "</image>"@;
            starts_split(s@, i as int, a10, "</image>"@);
            starts_split(s@, i as int, a9, ser_dpi(w.dpi));
            starts_split(s@, i as int, a8, ser_int_size("size"@, w.size));
            starts_split(s@, i as int, a7, "\">"@);
            starts_split(s@, i as int, a6, u64_dec(w.sub_pages as int));
            starts_split(s@, i as int, a5, "\" subPages=\""@);
            starts_split(s@, i as int, a4, u64_dec(w.id as int));
            starts_split(s@, i as int, a3, "\" id=\""@);
            starts_split(s@, i as int, a2, u64_dec(w.file_image as int));
            starts_split(s@, i as int, a1, "\" fileImage=\""@);
            starts_split(s@, i as int, a0, u64_dec(w.file_id as int));
            assert(s@.subrange(i + a1.len(), i + a1.len() + 13)[0] == s@[i + a1.len()]);
            assert(s@.subrange(i + a3.len(), i + a3.len() + 6)[0] == s@[i + a3.len()]);
            assert(s@.subrange(i + a5.len(), i + a5.len() + 12)[0] == s@[i + a5.len()]);
            assert(s@.subrange(i + a7.len(), i + a7.len() + 2)[0] == s@[i + a7.len()]);
        }
    }
    let j1 = expect(s, i, "<image fileId=\"")?;
    let (file_id, j2) = parse_u64(s, j1, 0xffffffff)?;
    let j3 = expect(s, j2, "\" fileImage=\"")?;
    let (file_image, j4) = parse_u64(s, j3, 0xffffffff)?;
    let j5 = expect(s, j4, "\" id=\"")?;
    let (id, j6) = parse_u64(s, j5, 0xffffffff)?;
    let j7 = expect(s, j6, "\" subPages=\"")?;
    let (sub_pages, j8) = parse_u64(s, j7, 0xffffffff)?;
    let j9 = expect(s, j8, "\">")?;
    let (size, j10) = parse_int_size(s, j9, "size")?;
    let (dpi, j11) = parse_dpi(s, j10)?;
    let j12 = expect(s, j11, "</image>")?;
    let v = Image {
        file_id: file_id as u32,
        file_image: file_image as u32,
        id: id as u32,
        sub_pages: sub_pages as u32,
        size,
        dpi,
    };
    proof {
        subrange_join(s@, i as int, j1 as int, j2 as int);
        subrange_join(s@, i as int, j2 as int, j3 as int);
        subrange_join(s@, i as int, j3 as int, j4 as int);
        subrange_join(s@, i as int, j4 as int, j5 as int);
        subrange_join(s@, i as int, j5 as int, j6 as int);
        subrange_join(s@, i as int, j6 as int, j7 as int);
        subrange_join(s@, i as int, j7 as int, j8 as int);
        subrange_join(s@, i as int, j8 as int, j9 as int);
        subrange_join(s@, i as int, j9 as int, j10 as int);
        subrange_join(s@, i as int, j10 as int, j11 as int);
        subrange_join(s@, i as int, j11 as int, j12 as int);
        assert(s@.subrange(i as int, j12 as int) =~= ser_image(v));
    }
    Ok((v, j12))
}

pub open spec fn ser_image_list(xs: Seq<Image>) -> Seq<char>
    decreases xs.len(),
{
    if xs.len() == 0 {
        Seq::<char>::empty()
    } else {
        ser_image(xs[0]) + ser_image_list(xs.drop_first())
    }
}

pub proof fn ser_image_list_snoc(xs: Seq<Image>, x: Image)
    ensures
        ser_image_list(xs + seq![x]) == ser_image_list(xs) + ser_image(x),
    decreases xs.len(),
{
    assert(ser_image_list(Seq::<Image>::empty()) =~= Seq::<char>::empty());
    if xs.len() == 0 {
        assert(xs + seq![x] =~= seq![x]);
        assert(seq![x].drop_first() =~= Seq::<Image>::empty());
        assert(ser_image_list(seq![x]) =~= ser_image(x));
        assert(ser_image_list(xs + seq![x]) =~= ser_image_list(xs) + ser_image(x));
    } else {
        assert((xs + seq![x]).drop_first() =~= xs.drop_first() + seq![x]);
        ser_image_list_snoc(xs.drop_first(), x);
        assert(ser_image_list(xs + seq![x]) =~= ser_image_list(xs) + ser_image(x));
    }
}

pub proof fn ser_image_list_cat(xs: Seq<Image>, ys: Seq<Image>)
    ensures
        ser_image_list(xs + ys) == ser_image_list(xs) + ser_image_list(ys),
    decreases xs.len(),
{
    if xs.len() == 0 {
        assert(xs + ys =~= ys);
        assert(ser_image_list(xs) + ser_image_list(ys) =~= ser_image_list(ys));
    } else {
        assert((xs + ys).drop_first() =~= xs.drop_first() + ys);
        ser_image_list_cat(xs.drop_first(), ys);
        assert(ser_image_list(xs + ys) =~= ser_image_list(xs) + ser_image_list(ys));
    }
}

/// `<images/>` when the table is empty, else the entries between open and
/// close tags.
pub open spec fn ser_images(v: Images) -> Seq<char> {
    if v.image@.len() == 0 {
        "<images/>"@
    } else {
        "<images>"@ + ser_image_list(v.image@) + "</images>"@
    }
}

pub fn write_images(out: &mut String, v: &Images)
    requires
        wf_images(*v),
    ensures
        final(out)@ == old(out)@ + ser_images(*v),
{
    if v.image.len() == 0 {
        out.append("<images/>");
        return ;
    }
    out.append("<images>");
    let n = v.image.len();
    let mut k: usize = 0;
    proof {
        assert(v.image@.take(0) =~= Seq::<Image>::empty());
        assert(ser_image_list(v.image@.take(0)) =~= Seq::<char>::empty());
        assert(out@ =~= old(out)@ + "<images>"@ + ser_image_list(v.image@.take(0)));
    }
    while k < n
        invariant
            0 < n == v.image@.len(),
            0 <= k <= n,
            wf_images(*v),

            out@ == old(out)@ + "<images>"@ + ser_image_list(v.image@.take(k as int)),
        decreases n - k,
    {
        write_image(out, &v.image[k]);
        k = k + 1;
        proof {
            ser_image_list_snoc(v.image@.take(k - 1), v.image@[k - 1]);
            assert(v.image@.take(k - 1) + seq![v.image@[k - 1]] =~= v.image@.take(k as int));
        }
    }
    out.append("</images>");
    proof {
        assert(v.image@.take(n as int) =~= v.image@);
        assert(out@ =~= old(out)@ + ser_images(*v));
    }
}

#[verifier::rlimit(100)]
#[verifier::spinoff_prover]
#[verifier::loop_isolation(false)]
pub fn parse_images(s: &str, i: usize) -> (r: Result<(Images, usize), ParseError>)
    requires
        i <= s@.len(),
    ensures
        match r {
            Ok((v, j)) => {
                &&& i < j <= s@.len()
                &&& wf_images(v)
                &&& s@.subrange(i as int, j as int) == ser_images(v)
            },
            Err(_) => true,
        },
        forall|w: Images|
            #![trigger starts_with_at(s@, i as int, ser_images(w))]
            wf_images(w) && starts_with_at(s@, i as int, ser_images(w)) ==> r is Ok && (
            r->Ok_0).1 == i + ser_images(w).len(),
{
    let n = s.unicode_len();
    proof {
        reveal_strlit("<images");
        reveal_strlit("/>");
        reveal_strlit(">");
        reveal_strlit("<images/>");
        reveal_strlit("<images>");
        reveal_strlit("</images>");
        reveal_strlit("<image fileId=\"");
        assert forall|w: Images|
            wf_images(w) && #[trigger] starts_with_at(s@, i as int, ser_images(w)) implies {
            let a0 = "<images"@;
            &&& starts_with_at(s@, i as int, a0)
            &&& i + a0.len() < s@.len()
            &&& (w.image@.len() == 0 ==> s@[i + a0.len()] == '/' && starts_with_at(
                s@,
                i + a0.len(),
                "/>"@,
            ))
            &&& (w.image@.len() > 0 ==> s@[i + a0.len()] == '>' && starts_with_at(
                s@,
                i + a0.len(),
                ">"@,
            ) && starts_with_at(
                s@,
                i + a0.len() + 1,
                ser_image_list(w.image@),
            ) && starts_with_at(
                s@,
                i + a0.len() + 1 + ser_image_list(w.image@).len(),
                "</images>"@,
            ))
        } by {
            let a0 = "<images"@;
            if w.image@.len() == 0 {
                assert(ser_images(w) == "<images/>"@);
                assert(starts_with_at(s@, i as int, a0 + "/>"@)) by {
                    assert(a0 + "/>"@ =~= "<images/>"@);
                }
                starts_split(s@, i as int, a0, "/>"@);
                assert(s@.subrange(i + a0.len(), i + a0.len() + 2)[0] == s@[i + a0.len()]);
            } else {
                let lst = ser_image_list(w.image@);
                assert(starts_with_at(s@, i as int, a0 + ">"@ + lst + "</images>"@)) by {
                    assert(a0 + ">"@ =~= "<images>"@);
                    assert(a0 + ">"@ + lst + "</images>"@ =~= ser_images(w));
                }
                starts_split(s@, i as int, a0 + ">"@ + lst, "</images>"@);
                starts_split(s@, i as int, a0 + ">"@, lst);
                starts_split(s@, i as int, a0, ">"@);
                assert(s@.subrange(i + a0.len(), i + a0.len() + 1)[0] == s@[i + a0.len()]);
            }
        }
    }
    let j1 = expect(s, i, "<images")?;
    if j1 < n && s.get_char(j1) == '/' {
        let j2 = expect(s, j1, "/>")?;
        let v = Images { image: Vec::new() };
        proof {
            subrange_join(s@, i as int, j1 as int, j2 as int);
            assert(s@.subrange(i as int, j2 as int) =~= ser_images(v));
        }
        return Ok((v, j2));
    }
    let j2 = expect(s, j1, ">")?;
    let mut xs: Vec<Image> = Vec::new();
    let mut j: usize = j2;
    let ghost mut k: int = 0;
    proof {
        assert(s@.subrange(j2 as int, j2 as int) =~= ser_image_list(xs@));
    }
    loop
        invariant
            i <= j1 <= j2 <= j <= s@.len(),
            k == xs@.len(),
            s@.subrange(i as int, j1 as int) == "<images"@,
            s@.subrange(j1 as int, j2 as int) == ">"@,
            forall|t: int| 0 <= t < xs@.len() ==> wf_image(#[trigger] xs@[t]),

            s@.subrange(j2 as int, j as int) == ser_image_list(xs@),
            forall|w: Images|
                #![trigger starts_with_at(s@, i as int, ser_images(w))]
                wf_images(w) && starts_with_at(s@, i as int, ser_images(w)) && w.image@.len() > 0
                    && j2 == i + "<images>"@.len() ==> k <= w.image@.len() && j == j2
                    + ser_image_list(w.image@.take(k)).len(),
        decreases s@.len() - j,
    {
        proof {
            reveal_strlit("<images>");
            reveal_strlit("</images>");
            reveal_strlit("<image fileId=\"");
            assert forall|w: Images|
                wf_images(w) && #[trigger] starts_with_at(s@, i as int, ser_images(w))
                    && w.image@.len() > 0 && j2 == i + "<images>"@.len() && k
                    < w.image@.len() implies wf_image(w.image@[k]) && starts_with_at(
                s@,
                j as int,
                ser_image(w.image@[k]),
            ) by {
                let ws = w.image@;
                assert(ws.take(k) + ws.skip(k) =~= ws);
                ser_image_list_cat(ws.take(k), ws.skip(k));
                assert(starts_with_at(s@, j2 as int, ser_image_list(ws)));
                starts_split(s@, j2 as int, ser_image_list(ws.take(k)), ser_image_list(
                    ws.skip(k),
                ));
                assert(ws.skip(k)[0] == ws[k]);
                assert(ws.skip(k).drop_first() =~= ws.skip(k + 1));
                assert(ser_image_list(ws.skip(k)) == ser_image(ws[k])
                    + ser_image_list(ws.skip(k + 1)));
                starts_split(s@, j as int, ser_image(ws[k]), ser_image_list(
                    ws.skip(k + 1),
                ));
            }
        }
        match parse_image(s, j) {
            Ok((x, j3)) => {
                proof {
                    reveal_strlit("<images>");
                    reveal_strlit("</images>");
                    reveal_strlit("<image fileId=\"");
                    assert forall|w: Images|
                        wf_images(w) && #[trigger] starts_with_at(s@, i as int, ser_images(w))
                            && w.image@.len() > 0 && j2 == i + "<images>"@.len() implies k
                        < w.image@.len() && j3 == j2 + ser_image_list(
                        w.image@.take(k + 1),
                    ).len() by {
                        let ws = w.image@;
                        if k >= ws.len() {
                            assert(ws.take(k) =~= ws);
                            assert(starts_with_at(
                                s@,
                                j as int,
                                "</images>"@,
                            ));
                            assert(s@.subrange(j as int, j3 as int) == ser_image(x));
                            reveal_strlit("<image fileId=\"");
                            assert(ser_image(x) == "<image fileId=\""@ + u64_dec(x.file_id as int) + "\" fileImage=\""@ + u64_dec(x.file_image as int) + "\" id=\""@ + u64_dec(x.id as int) + "\" subPages=\""@ + u64_dec(x.sub_pages as int) + "\">"@ + ser_int_size("size"@, x.size) + ser_dpi(x.dpi) + "</image>"@);
                            assert(ser_image(x).len() >= 2);
                            assert(j3 - j == ser_image(x).len());
                            assert(s@[j + 1] == ser_image(x)[1]) by {
                                assert(s@.subrange(j as int, j3 as int)[1] == s@[j + 1]);
                            }
                            assert(ser_image(x)[1] == "<image fileId=\""@[1]);
                            assert(s@[j + 1] == "</images>"@[1]) by {
                                assert(s@.subrange(j as int, j + "</images>"@.len())[1] == s@[j
                                    + 1]);
                            }
                        } else {
                            assert(starts_with_at(s@, j as int, ser_image(ws[k])));
                            ser_image_list_snoc(ws.take(k), ws[k]);
                            assert(ws.take(k) + seq![ws[k]] =~= ws.take(k + 1));
                        }
                    }
                    ser_image_list_snoc(xs@, x);
                    subrange_join(s@, j2 as int, j as int, j3 as int);
                }
                let ghost prev = xs@;
                xs.push(x);
                j = j3;
                proof {
                    k = k + 1;
                    assert(xs@ =~= prev + seq![x]);
                }
            },
            Err(_) => {
                proof {
                    reveal_strlit("<images>");
                    reveal_strlit("</images>");
                    assert forall|w: Images|
                        wf_images(w) && #[trigger] starts_with_at(s@, i as int, ser_images(w))
                            && w.image@.len() > 0 && j2 == i + "<images>"@.len() implies k
                        == w.image@.len() && j == j2 + ser_image_list(w.image@).len() by {
                        if k < w.image@.len() {
                            assert(starts_with_at(
                                s@,
                                j as int,
                                ser_image(w.image@[k]),
                            ));
                        } else {
                            assert(w.image@.take(k) =~= w.image@);
                        }
                    }
                }
                if xs.len() == 0 {
                    return Err(ParseError { pos: j, kind: ParseErrorKind::Unexpected });
                }
                let j4 = expect(s, j, "</images>")?;
                let v = Images { image: xs };
                proof {
                    subrange_join(s@, i as int, j1 as int, j2 as int);
                    subrange_join(s@, i as int, j2 as int, j as int);
                    subrange_join(s@, i as int, j as int, j4 as int);
                    assert(s@.subrange(i as int, j4 as int) =~= ser_images(v));
                }
                return Ok((v, j4));
            },
        }
    }
}

} // verus!
