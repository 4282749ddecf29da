//! The file table: each file names its directory.

use vstd::prelude::*;

use crate::numbers::{digit_stop, parse_u64, u64_dec, write_u64};
use crate::wire::{starts_split, starts_with_at, 
    all_value_chars, expect, scan_value, subrange_join, ParseError, ParseErrorKind,
};


verus! {

#[derive(Debug, Clone)]
pub struct Files {
    pub file: Vec<File>,
}

#[derive(Debug, Clone)]
pub struct File {
    pub dir_id: u32,
    pub id: u32,
    pub name: String,
}

pub open spec fn wf_file(v: File) -> bool {
    all_value_chars(v.name@)
}

pub open spec fn wf_files(v: Files) -> bool {
    forall|k: int| 0 <= k < v.file@.len() ==> wf_file(#[trigger] v.file@[k])
}

pub open spec fn ser_file(v: File) -> Seq<char> {
    "<file dirId=\""@ + u64_dec(v.dir_id as int) + "\" id=\""@ + u64_dec(v.id as int)
        + "\" name=\""@ + v.name@ + "\"/>"@
}

pub fn write_file(out: &mut String, v: &File)
    requires
        wf_file(*v),
    ensures
        final(out)@ == old(out)@ + ser_file(*v),
{
    out.append("<file dirId=\"");
    write_u64(out, v.dir_id as u64);
    out.append("\" id=\"");
    write_u64(out, v.id as u64);
    out.append("\" name=\"");
    out.append(v.name.as_str());
    out.append("\"/>");
    proof {
        assert(out@ =~= old(out)@ + ser_file(*v));
    }
}

pub fn parse_file(s: &str, i: usize) -> (r: Result<(File, usize), ParseError>)
    requires
        i <= s@.len(),
    ensures
        match r {
            Ok((v, j)) => {
                &&& i < j <= s@.len()
                &&& wf_file(v)
                &&& s@.subrange(i as int, j as int) == ser_file(v)
            },
            Err(_) => true,
        },
        forall|w: File|
            #![trigger starts_with_at(s@, i as int, ser_file(w))]
            wf_file(w) && starts_with_at(s@, i as int, ser_file(w)) ==> r is Ok && (
            r->Ok_0).1 == i + ser_file(w).len(),
{
    proof {
        reveal_strlit("<file dirId=\"");
        reveal_strlit("\" id=\"");
        reveal_strlit("\" name=\"");
        reveal_strlit("\"/>");
        assert forall|w: File|
            wf_file(w) && #[trigger] starts_with_at(s@, i as int, ser_file(w)) implies {
            let a0 = "<file dirId=\""@;
            let a1 = a0 + u64_dec(w.dir_id as int);
            let a2 = a1 + "\" id=\""@;
            let a3 = a2 + u64_dec(w.id as int);
            let a4 = a3 + "\" name=\""@;
            let a5 = a4 + w.name@;
            let a6 = a5 + "\"/>"@;
            &&& starts_with_at(s@, i as int, "<file dirId=\""@)
            &&& starts_with_at(s@, i + a0.len(), u64_dec(w.dir_id as int))
            &&& digit_stop(s@, i + a1.len())
            &&& starts_with_at(s@, i + a1.len(), "\" id=\""@)
            &&& starts_with_at(s@, i + a2.len(), u64_dec(w.id as int))
            &&& digit_stop(s@, i + a3.len())
            &&& starts_with_at(s@, i + a3.len(), "\" name=\""@)
            &&& starts_with_at(s@, i + a4.len(), w.name@)
            &&& i + a5.len() < s@.len()
            &&& s@[i + a5.len()] == '"'
            &&& starts_with_at(s@, i + a5.len(), "\"/>"@)
        } by {
            let a0 = "<file dirId=\""@;
            let a1 = a0 + u64_dec(w.dir_id as int);
            let a2 = a1 + "\" id=\""@;
            let a3 = a2 + u64_dec(w.id as int);
            let a4 = a3 + "\" name=\""@;
            let a5 = a4 + w.name@;
            let a6 = a5 + "\"/>"@;
            starts_split(s@, i as int, a5, "\"/>"@);
            starts_split(s@, i as int, a4, w.name@);
            starts_split(s@, i as int, a3, "\" name=\""@);
            starts_split(s@, i as int, a2, u64_dec(w.id as int));
            starts_split(s@, i as int, a1, "\" id=\""@);
            starts_split(s@, i as int, a0, u64_dec(w.dir_id as int));
            assert(s@.subrange(i + a1.len(), i + a1.len() + 6)[0] == s@[i + a1.len()]);
            assert(s@.subrange(i + a3.len(), i + a3.len() + 8)[0] == s@[i + a3.len()]);
            assert(s@.subrange(i + a5.len(), i + a5.len() + 3)[0] == s@[i + a5.len()]);
        }
    }
    let j1 = expect(s, i, "<file dirId=\"")?;
    let (dir_id, j2) = parse_u64(s, j1, 0xffffffff)?;
    let j3 = expect(s, j2, "\" id=\"")?;
    let (id, j4) = parse_u64(s, j3, 0xffffffff)?;
    let j5 = expect(s, j4, "\" name=\"")?;
    let (name, j6) = scan_value(s, j5)?;
    let j7 = expect(s, j6, "\"/>")?;
    let v = File { dir_id: dir_id as u32, id: id as u32, name };
    proof {
        subrange_join(s@, i as int, j1 as int, j2 as int);
        subrange_join(s@, i as int, j2 as int, j3 as int);
        subrange_join(s@, i as int, j3 as int, j4 as int);
        subrange_join(s@, i as int, j4 as int, j5 as int);
        subrange_join(s@, i as int, j5 as int, j6 as int);
        subrange_join(s@, i as int, j6 as int, j7 as int);
        assert(s@.subrange(i as int, j7 as int) =~= ser_file(v));
    }
    Ok((v, j7))
}

pub open spec fn ser_file_list(xs: Seq<File>) -> Seq<char>
    decreases xs.len(),
{
    if xs.len() == 0 {
        Seq::<char>::empty()
    } else {
        ser_file(xs[0]) + ser_file_list(xs.drop_first())
    }
}

pub proof fn ser_file_list_snoc(xs: Seq<File>, x: File)
    ensures
        ser_file_list(xs + seq![x]) == ser_file_list(xs) + ser_file(x),
    decreases xs.len(),
{
    assert(ser_file_list(Seq::<File>::empty()) =~= Seq::<char>::empty());
    if xs.len() == 0 {
        assert(xs + seq![x] =~= seq![x]);
        assert(seq![x].drop_first() =~= Seq::<File>::empty());
        assert(ser_file_list(seq![x]) =~= ser_file(x));
        assert(ser_file_list(xs + seq![x]) =~= ser_file_list(xs) + ser_file(x));
    } else {
        assert((xs + seq![x]).drop_first() =~= xs.drop_first() + seq![x]);
        ser_file_list_snoc(xs.drop_first(), x);
        assert(ser_file_list(xs + seq![x]) =~= ser_file_list(xs) + ser_file(x));
    }
}

pub proof fn ser_file_list_cat(xs: Seq<File>, ys: Seq<File>)
    ensures
        ser_file_list(xs + ys) == ser_file_list(xs) + ser_file_list(ys),
    decreases xs.len(),
{
    if xs.len() == 0 {
        assert(xs + ys =~= ys);
        assert(ser_file_list(xs) + ser_file_list(ys) =~= ser_file_list(ys));
    } else {
        assert((xs + ys).drop_first() =~= xs.drop_first() + ys);
        ser_file_list_cat(xs.drop_first(), ys);
        assert(ser_file_list(xs + ys) =~= ser_file_list(xs) + ser_file_list(ys));
    }
}

/// `<files/>` when the table is empty, else the entries between open and
/// close tags.
pub open spec fn ser_files(v: Files) -> Seq<char> {
    if v.file@.len() == 0 {
        "<files/>"@
    } else {
        "<files>"@ + ser_file_list(v.file@) + "</files>"@
    }
}

pub fn write_files(out: &mut String, v: &Files)
    requires
        wf_files(*v),
    ensures
        final(out)@ == old(out)@ + ser_files(*v),
{
    if v.file.len() == 0 {
        out.append("<files/>");
        return ;
    }
    out.append("<files>");
    let n = v.file.len();
    let mut k: usize = 0;
    proof {
        assert(v.file@.take(0) =~= Seq::<File>::empty());
        assert(ser_file_list(v.file@.take(0)) =~= Seq::<char>::empty());
        assert(out@ =~= old(out)@ + "<files>"@ + ser_file_list(v.file@.take(0)));
    }
    while k < n
        invariant
            0 < n == v.file@.len(),
            0 <= k <= n,
            wf_files(*v),

            out@ == old(out)@ + "<files>"@ + ser_file_list(v.file@.take(k as int)),
        decreases n - k,
    {
        write_file(out, &v.file[k]);
        k = k + 1;
        proof {
            ser_file_list_snoc(v.file@.take(k - 1), v.file@[k - 1]);
            assert(v.file@.take(k - 1) + seq![v.file@[k - 1]] =~= v.file@.take(k as int));
        }
    }
    out.append("</files>");
    proof {
        assert(v.file@.take(n as int) =~= v.file@);
        assert(out@ =~= old(out)@ + ser_files(*v));
    }
}

#[verifier::rlimit(100)]
#[verifier::spinoff_prover]
#[verifier::loop_isolation(false)]
pub fn parse_files(s: &str, i: usize) -> (r: Result<(Files, usize), ParseError>)
    requires
        i <= s@.len(),
    ensures
        match r {
            Ok((v, j)) => {
                &&& i < j <= s@.len()
                &&& wf_files(v)
                &&& s@.subrange(i as int, j as int) == ser_files(v)
            },
            Err(_) => true,
        },
        forall|w: Files|
            #![trigger starts_with_at(s@, i as int, ser_files(w))]
            wf_files(w) && starts_with_at(s@, i as int, ser_files(w)) ==> r is Ok && (
            r->Ok_0).1 == i + ser_files(w).len(),
{
    let n = s.unicode_len();
    proof {
        reveal_strlit("<files");
        reveal_strlit("/>");
        reveal_strlit(">");
        reveal_strlit("<files/>");
        reveal_strlit("<files>");
        reveal_strlit("</files>");
        reveal_strlit("<file dirId=\"");
        assert forall|w: Files|
            wf_files(w) && #[trigger] starts_with_at(s@, i as int, ser_files(w)) implies {
            let a0 = "<files"@;
            &&& starts_with_at(s@, i as int, a0)
            &&& i + a0.len() < s@.len()
            &&& (w.file@.len() == 0 ==> s@[i + a0.len()] == '/' && starts_with_at(
                s@,
                i + a0.len(),
                "/>"@,
            ))
            &&& (w.file@.len() > 0 ==> s@[i + a0.len()] == '>' && starts_with_at(
                s@,
                i + a0.len(),
                ">"@,
            ) && starts_with_at(
                s@,
                i + a0.len() + 1,
                ser_file_list(w.file@),
            ) && starts_with_at(
                s@,
                i + a0.len() + 1 + ser_file_list(w.file@).len(),
                "</files>"@,
            ))
        } by {
            let a0 = "<files"@;
            if w.file@.len() == 0 {
                assert(ser_files(w) == "<files/>"@);
                assert(starts_with_at(s@, i as int, a0 + "/>"@)) by {
                    assert(a0 + "/>"@ =~= "<files/>"@);
                }
                starts_split(s@, i as int, a0, "/>"@);
                assert(s@.subrange(i + a0.len(), i + a0.len() + 2)[0] == s@[i + a0.len()]);
            } else {
                let lst = ser_file_list(w.file@);
                assert(starts_with_at(s@, i as int, a0 + ">"@ + lst + "</files>"@)) by {
                    assert(a0 + ">"@ =~= "<files>"@);
                    assert(a0 + ">"@ + lst + "</files>"@ =~= ser_files(w));
                }
                starts_split(s@, i as int, a0 + ">"@ + lst, "</files>"@);
                starts_split(s@, i as int, a0 + ">"@, lst);
                starts_split(s@, i as int, a0, ">"@);
                assert(s@.subrange(i + a0.len(), i + a0.len() + 1)[0] == s@[i + a0.len()]);
            }
        }
    }
    let j1 = expect(s, i, "<files")?;
    if j1 < n && s.get_char(j1) == '/' {
        let j2 = expect(s, j1, "/>")?;
        let v = Files { file: Vec::new() };
        proof {
            subrange_join(s@, i as int, j1 as int, j2 as int);
            assert(s@.subrange(i as int, j2 as int) =~= ser_files(v));
        }
        return Ok((v, j2));
    }
    let j2 = expect(s, j1, ">")?;
    let mut xs: Vec<File> = Vec::new();
    let mut j: usize = j2;
    let ghost mut k: int = 0;
    proof {
        assert(s@.subrange(j2 as int, j2 as int) =~= ser_file_list(xs@));
    }
    loop
        invariant
            i <= j1 <= j2 <= j <= s@.len(),
            k == xs@.len(),
            s@.subrange(i as int, j1 as int) == "<files"@,
            s@.subrange(j1 as int, j2 as int) == ">"@,
            forall|t: int| 0 <= t < xs@.len() ==> wf_file(#[trigger] xs@[t]),

            s@.subrange(j2 as int, j as int) == ser_file_list(xs@),
            forall|w: Files|
                #![trigger starts_with_at(s@, i as int, ser_files(w))]
                wf_files(w) && starts_with_at(s@, i as int, ser_files(w)) && w.file@.len() > 0
                    && j2 == i + "<files>"@.len() ==> k <= w.file@.len() && j == j2
                    + ser_file_list(w.file@.take(k)).len(),
        decreases s@.len() - j,
    {
        proof {
            reveal_strlit("<files>");
            reveal_strlit("</files>");
            reveal_strlit("<file dirId=\"");
            assert forall|w: Files|
                wf_files(w) && #[trigger] starts_with_at(s@, i as int, ser_files(w))
                    && w.file@.len() > 0 && j2 == i + "<files>"@.len() && k
                    < w.file@.len() implies wf_file(w.file@[k]) && starts_with_at(
                s@,
                j as int,
                ser_file(w.file@[k]),
            ) by {
                let ws = w.file@;
                assert(ws.take(k) + ws.skip(k) =~= ws);
                ser_file_list_cat(ws.take(k), ws.skip(k));
                assert(starts_with_at(s@, j2 as int, ser_file_list(ws)));
                starts_split(s@, j2 as int, ser_file_list(ws.take(k)), ser_file_list(
                    ws.skip(k),
                ));
                assert(ws.skip(k)[0] == ws[k]);
                assert(ws.skip(k).drop_first() =~= ws.skip(k + 1));
                assert(ser_file_list(ws.skip(k)) == ser_file(ws[k])
                    + ser_file_list(ws.skip(k + 1)));
                starts_split(s@, j as int, ser_file(ws[k]), ser_file_list(
                    ws.skip(k + 1),
                ));
            }
        }
        match parse_file(s, j) {
            Ok((x, j3)) => {
                proof {
                    reveal_strlit("<files>");
                    reveal_strlit("</files>");
                    reveal_strlit("<file dirId=\"");
                    assert forall|w: Files|
                        wf_files(w) && #[trigger] starts_with_at(s@, i as int, ser_files(w))
                            && w.file@.len() > 0 && j2 == i + "<files>"@.len() implies k
                        < w.file@.len() && j3 == j2 + ser_file_list(
                        w.file@.take(k + 1),
                    ).len() by {
                        let ws = w.file@;
                        if k >= ws.len() {
                            assert(ws.take(k) =~= ws);
                            assert(starts_with_at(
                                s@,
                                j as int,
                                "</files>"@,
                            ));
                            assert(s@.subrange(j as int, j3 as int) == ser_file(x));
                            reveal_strlit("<file dirId=\"");
                            reveal_strlit("\" id=\"");
                            reveal_strlit("\" name=\"");
                            reveal_strlit("\"/>");
                            assert(ser_file(x) == "<file dirId=\""@ + u64_dec(x.dir_id as int) + "\" id=\""@ + u64_dec(x.id as int) + "\" name=\""@ + x.name@ + "\"/>"@);
                            assert(ser_file(x).len() >= 2);
                            assert(j3 - j == ser_file(x).len());
                            assert(s@[j + 1] == ser_file(x)[1]) by {
                                assert(s@.subrange(j as int, j3 as int)[1] == s@[j + 1]);
                            }
                            assert(ser_file(x)[1] == "<file dirId=\""@[1]);
                            assert(s@[j + 1] == "</files>"@[1]) by {
                                assert(s@.subrange(j as int, j + "</files>"@.len())[1] == s@[j
                                    + 1]);
                            }
                        } else {
                            assert(starts_with_at(s@, j as int, ser_file(ws[k])));
                            ser_file_list_snoc(ws.take(k), ws[k]);
                            assert(ws.take(k) + seq![ws[k]] =~= ws.take(k + 1));
                        }
                    }
                    ser_file_list_snoc(xs@, x);
                    subrange_join(s@, j2 as int, j as int, j3 as int);
                }
                let ghost prev = xs@;
                xs.push(x);
                j = j3;
                proof {
                    k = k + 1;
                    assert(xs@ =~= prev + seq![x]);
                }
            },
            Err(_) => {
                proof {
                    reveal_strlit("<files>");
                    reveal_strlit("</files>");
                    assert forall|w: Files|
                        wf_files(w) && #[trigger] starts_with_at(s@, i as int, ser_files(w))
                            && w.file@.len() > 0 && j2 == i + "<files>"@.len() implies k
                        == w.file@.len() && j == j2 + ser_file_list(w.file@).len() by {
                        if k < w.file@.len() {
                            assert(starts_with_at(
                                s@,
                                j as int,
                                ser_file(w.file@[k]),
                            ));
                        } else {
                            assert(w.file@.take(k) =~= w.file@);
                        }
                    }
                }
                if xs.len() == 0 {
                    return Err(ParseError { pos: j, kind: ParseErrorKind::Unexpected });
                }
                let j4 = expect(s, j, "</files>")?;
                let v = Files { file: xs };
                proof {
                    subrange_join(s@, i as int, j1 as int, j2 as int);
                    subrange_join(s@, i as int, j2 as int, j as int);
                    subrange_join(s@, i as int, j as int, j4 as int);
                    assert(s@.subrange(i as int, j4 as int) =~= ser_files(v));
                }
                return Ok((v, j4));
            },
        }
    }
}

} // verus!
