//! The directory table: numeric ids mapped to paths.

use vstd::prelude::*;

use crate::numbers::{digit_stop, i64_dec, parse_i64, write_i64};
use crate::wire::{ParseError, ParseErrorKind, all_value_chars, expect, scan_value, starts_split, starts_with_at, subrange_join};


verus! {

#[derive(Debug, Clone)]
pub struct Directories {
    pub directory: Vec<Directory>,
}

#[derive(Debug, Clone)]
pub struct Directory {
    pub id: i32,
    pub path: String,
}

pub open spec fn wf_directory(v: Directory) -> bool {
    v.id > i32::MIN && all_value_chars(v.path@)
}

pub open spec fn wf_directories(v: Directories) -> bool {
    forall|k: int| 0 <= k < v.directory@.len() ==> wf_directory(#[trigger] v.directory@[k])
}

pub open spec fn ser_directory(v: Directory) -> Seq<char> {
    "<directory id=\""@ + i64_dec(v.id as int) + "\" path=\""@ + v.path@ + "\"/>"@
}

pub fn write_directory(out: &mut String, v: &Directory)
    requires
        wf_directory(*v),
    ensures
        final(out)@ == old(out)@ + ser_directory(*v),
{
    out.append("<directory id=\"");
    write_i64(out, v.id as i64);
    out.append("\" path=\"");
    out.append(v.path.as_str());
    out.append("\"/>");
    proof {
        assert(out@ =~= old(out)@ + ser_directory(*v));
    }
}

pub fn parse_directory(s: &str, i: usize) -> (r: Result<(Directory, usize), ParseError>)
    requires
        i <= s@.len(),
    ensures
        match r {
            Ok((v, j)) => {
                &&& i < j <= s@.len()
                &&& wf_directory(v)
                &&& s@.subrange(i as int, j as int) == ser_directory(v)
            },
            Err(_) => true,
        },
        forall|w: Directory|
            #![trigger starts_with_at(s@, i as int, ser_directory(w))]
            wf_directory(w) && starts_with_at(s@, i as int, ser_directory(w)) ==> r is Ok && (
            r->Ok_0).1 == i + ser_directory(w).len(),
{
    proof {
        reveal_strlit("<directory id=\"");
        reveal_strlit("\" path=\"");
        reveal_strlit("\"/>");
        assert forall|w: Directory|
            wf_directory(w) && #[trigger] starts_with_at(s@, i as int, ser_directory(w)) implies {
            let a0 = "<directory id=\""@;
            let a1 = a0 + i64_dec(w.id as int);
            let a2 = a1 + "\" path=\""@;
            let a3 = a2 + w.path@;
            let a4 = a3 + "\"/>"@;
            &&& starts_with_at(s@, i as int, "<directory id=\""@)
            &&& starts_with_at(s@, i + a0.len(), i64_dec(w.id as int))
            &&& digit_stop(s@, i + a1.len())
            &&& starts_with_at(s@, i + a1.len(), "\" path=\""@)
            &&& starts_with_at(s@, i + a2.len(), w.path@)
            &&& i + a3.len() < s@.len()
            &&& s@[i + a3.len()] == '"'
            &&& starts_with_at(s@, i + a3.len(), "\"/>"@)
        } by {
            let a0 = "<directory id=\""@;
            let a1 = a0 + i64_dec(w.id as int);
            let a2 = a1 + "\" path=\""@;
            let a3 = a2 + w.path@;
            let a4 = a3 + "\"/>"@;
            starts_split(s@, i as int, a3, "\"/>"@);
            starts_split(s@, i as int, a2, w.path@);
            starts_split(s@, i as int, a1, "\" path=\""@);
            starts_split(s@, i as int, a0, i64_dec(w.id as int));
            assert(s@.subrange(i + a1.len(), i + a1.len() + 8)[0] == s@[i + a1.len()]);
            assert(s@.subrange(i + a3.len(), i + a3.len() + 3)[0] == s@[i + a3.len()]);
        }
    }
    let j1 = expect(s, i, "<directory id=\"")?;
    let (id, j2) = parse_i64(s, j1, -2147483647, 2147483647)?;
    let j3 = expect(s, j2, "\" path=\"")?;
    let (path, j4) = scan_value(s, j3)?;
    let j5 = expect(s, j4, "\"/>")?;
    let v = Directory { id: id as i32, path };
    proof {
        subrange_join(s@, i as int, j1 as int, j2 as int);
        subrange_join(s@, i as int, j2 as int, j3 as int);
        subrange_join(s@, i as int, j3 as int, j4 as int);
        subrange_join(s@, i as int, j4 as int, j5 as int);
        assert(s@.subrange(i as int, j5 as int) =~= ser_directory(v));
    }
    Ok((v, j5))
}

pub open spec fn ser_directory_list(xs: Seq<Directory>) -> Seq<char>
    decreases xs.len(),
{
    if xs.len() == 0 {
        Seq::<char>::empty()
    } else {
        ser_directory(xs[0]) + ser_directory_list(xs.drop_first())
    }
}

pub proof fn ser_directory_list_snoc(xs: Seq<Directory>, x: Directory)
    ensures
        ser_directory_list(xs + seq![x]) == ser_directory_list(xs) + ser_directory(x),
    decreases xs.len(),
{
    assert(ser_directory_list(Seq::<Directory>::empty()) =~= Seq::<char>::empty());
    if xs.len() == 0 {
        assert(xs + seq![x] =~= seq![x]);
        assert(seq![x].drop_first() =~= Seq::<Directory>::empty());
        assert(ser_directory_list(seq![x]) =~= ser_directory(x));
        assert(ser_directory_list(xs + seq![x]) =~= ser_directory_list(xs) + ser_directory(x));
    } else {
        assert((xs + seq![x]).drop_first() =~= xs.drop_first() + seq![x]);
        ser_directory_list_snoc(xs.drop_first(), x);
        assert(ser_directory_list(xs + seq![x]) =~= ser_directory_list(xs) + ser_directory(x));
    }
}

pub proof fn ser_directory_list_cat(xs: Seq<Directory>, ys: Seq<Directory>)
    ensures
        ser_directory_list(xs + ys) == ser_directory_list(xs) + ser_directory_list(ys),
    decreases xs.len(),
{
    if xs.len() == 0 {
        assert(xs + ys =~= ys);
        assert(ser_directory_list(xs) + ser_directory_list(ys) =~= ser_directory_list(ys));
    } else {
        assert((xs + ys).drop_first() =~= xs.drop_first() + ys);
        ser_directory_list_cat(xs.drop_first(), ys);
        assert(ser_directory_list(xs + ys) =~= ser_directory_list(xs) + ser_directory_list(ys));
    }
}

/// `<directories/>` when the table is empty, else the entries between open and
/// close tags.
pub open spec fn ser_directories(v: Directories) -> Seq<char> {
    if v.directory@.len() == 0 {
        "<directories/>"@
    } else {
        "<directories>"@ + ser_directory_list(v.directory@) + "</directories>"@
    }
}

pub fn write_directories(out: &mut String, v: &Directories)
    requires
        wf_directories(*v),
    ensures
        final(out)@ == old(out)@ + ser_directories(*v),
{
    if v.directory.len() == 0 {
        out.append("<directories/>");
        return ;
    }
    out.append("<directories>");
    let n = v.directory.len();
    let mut k: usize = 0;
    proof {
        assert(v.directory@.take(0) =~= Seq::<Directory>::empty());
        assert(ser_directory_list(v.directory@.take(0)) =~= Seq::<char>::empty());
        assert(out@ =~= old(out)@ + "<directories>"@ + ser_directory_list(v.directory@.take(0)));
    }
    while k < n
        invariant
            0 < n == v.directory@.len(),
            0 <= k <= n,
            wf_directories(*v),

            out@ == old(out)@ + "<directories>"@ + ser_directory_list(v.directory@.take(k as int)),
        decreases n - k,
    {
        write_directory(out, &v.directory[k]);
        k = k + 1;
        proof {
            ser_directory_list_snoc(v.directory@.take(k - 1), v.directory@[k - 1]);
            assert(v.directory@.take(k - 1) + seq![v.directory@[k - 1]] =~= v.directory@.take(k as int));
        }
    }
    out.append("</directories>");
    proof {
        assert(v.directory@.take(n as int) =~= v.directory@);
        assert(out@ =~= old(out)@ + ser_directories(*v));
    }
}

#[verifier::rlimit(100)]
#[verifier::spinoff_prover]
#[verifier::loop_isolation(false)]
pub fn parse_directories(s: &str, i: usize) -> (r: Result<(Directories, usize), ParseError>)
    requires
        i <= s@.len(),
    ensures
        match r {
            Ok((v, j)) => {
                &&& i < j <= s@.len()
                &&& wf_directories(v)
                &&& s@.subrange(i as int, j as int) == ser_directories(v)
            },
            Err(_) => true,
        },
        forall|w: Directories|
            #![trigger starts_with_at(s@, i as int, ser_directories(w))]
            wf_directories(w) && starts_with_at(s@, i as int, ser_directories(w)) ==> r is Ok && (
            r->Ok_0).1 == i + ser_directories(w).len(),
{
    let n = s.unicode_len();
    proof {
        reveal_strlit("<directories");
        reveal_strlit("/>");
        reveal_strlit(">");
        reveal_strlit("<directories/>");
        reveal_strlit("<directories>");
        reveal_strlit("</directories>");
        reveal_strlit("<directory id=\"");
        assert forall|w: Directories|
            wf_directories(w) && #[trigger] starts_with_at(s@, i as int, ser_directories(w)) implies {
            let a0 = "<directories"@;
            &&& starts_with_at(s@, i as int, a0)
            &&& i + a0.len() < s@.len()
            &&& (w.directory@.len() == 0 ==> s@[i + a0.len()] == '/' && starts_with_at(
                s@,
                i + a0.len(),
                "/>"@,
            ))
            &&& (w.directory@.len() > 0 ==> s@[i + a0.len()] == '>' && starts_with_at(
                s@,
                i + a0.len(),
                ">"@,
            ) && starts_with_at(
                s@,
                i + a0.len() + 1,
                ser_directory_list(w.directory@),
            ) && starts_with_at(
                s@,
                i + a0.len() + 1 + ser_directory_list(w.directory@).len(),
                "</directories>"@,
            ))
        } by {
            let a0 = "<directories"@;
            if w.directory@.len() == 0 {
                assert(ser_directories(w) == "<directories/>"@);
                assert(starts_with_at(s@, i as int, a0 + "/>"@)) by {
                    assert(a0 + "/>"@ =~= "<directories/>"@);
                }
                starts_split(s@, i as int, a0, "/>"@);
                assert(s@.subrange(i + a0.len(), i + a0.len() + 2)[0] == s@[i + a0.len()]);
            } else {
                let lst = ser_directory_list(w.directory@);
                assert(starts_with_at(s@, i as int, a0 + ">"@ + lst + "</directories>"@)) by {
                    assert(a0 + ">"@ =~= "<directories>"@);
                    assert(a0 + ">"@ + lst + "</directories>"@ =~= ser_directories(w));
                }
                starts_split(s@, i as int, a0 + ">"@ + lst, "</directories>"@);
                starts_split(s@, i as int, a0 + ">"@, lst);
                starts_split(s@, i as int, a0, ">"@);
                assert(s@.subrange(i + a0.len(), i + a0.len() + 1)[0] == s@[i + a0.len()]);
            }
        }
    }
    let j1 = expect(s, i, "<directories")?;
    if j1 < n && s.get_char(j1) == '/' {
        let j2 = expect(s, j1, "/>")?;
        let v = Directories { directory: Vec::new() };
        proof {
            subrange_join(s@, i as int, j1 as int, j2 as int);
            assert(s@.subrange(i as int, j2 as int) =~= ser_directories(v));
        }
        return Ok((v, j2));
    }
    let j2 = expect(s, j1, ">")?;
    let mut xs: Vec<Directory> = Vec::new();
    let mut j: usize = j2;
    let ghost mut k: int = 0;
    proof {
        assert(s@.subrange(j2 as int, j2 as int) =~= ser_directory_list(xs@));
    }
    loop
        invariant
            i <= j1 <= j2 <= j <= s@.len(),
            k == xs@.len(),
            s@.subrange(i as int, j1 as int) == "<directories"@,
            s@.subrange(j1 as int, j2 as int) == ">"@,
            forall|t: int| 0 <= t < xs@.len() ==> wf_directory(#[trigger] xs@[t]),

            s@.subrange(j2 as int, j as int) == ser_directory_list(xs@),
            forall|w: Directories|
                #![trigger starts_with_at(s@, i as int, ser_directories(w))]
                wf_directories(w) && starts_with_at(s@, i as int, ser_directories(w)) && w.directory@.len() > 0
                    && j2 == i + "<directories>"@.len() ==> k <= w.directory@.len() && j == j2
                    + ser_directory_list(w.directory@.take(k)).len(),
        decreases s@.len() - j,
    {
        proof {
            reveal_strlit("<directories>");
            reveal_strlit("</directories>");
            reveal_strlit("<directory id=\"");
            assert forall|w: Directories|
                wf_directories(w) && #[trigger] starts_with_at(s@, i as int, ser_directories(w))
                    && w.directory@.len() > 0 && j2 == i + "<directories>"@.len() && k
                    < w.directory@.len() implies wf_directory(w.directory@[k]) && starts_with_at(
                s@,
                j as int,
                ser_directory(w.directory@[k]),
            ) by {
                let ws = w.directory@;
                assert(ws.take(k) + ws.skip(k) =~= ws);
                ser_directory_list_cat(ws.take(k), ws.skip(k));
                assert(starts_with_at(s@, j2 as int, ser_directory_list(ws)));
                starts_split(s@, j2 as int, ser_directory_list(ws.take(k)), ser_directory_list(
                    ws.skip(k),
                ));
                assert(ws.skip(k)[0] == ws[k]);
                assert(ws.skip(k).drop_first() =~= ws.skip(k + 1));
                assert(ser_directory_list(ws.skip(k)) == ser_directory(ws[k])
                    + ser_directory_list(ws.skip(k + 1)));
                starts_split(s@, j as int, ser_directory(ws[k]), ser_directory_list(
                    ws.skip(k + 1),
                ));
            }
        }
        match parse_directory(s, j) {
            Ok((x, j3)) => {
                proof {
                    reveal_strlit("<directories>");
                    reveal_strlit("</directories>");
                    reveal_strlit("<directory id=\"");
                    assert forall|w: Directories|
                        wf_directories(w) && #[trigger] starts_with_at(s@, i as int, ser_directories(w))
                            && w.directory@.len() > 0 && j2 == i + "<directories>"@.len() implies k
                        < w.directory@.len() && j3 == j2 + ser_directory_list(
                        w.directory@.take(k + 1),
                    ).len() by {
                        let ws = w.directory@;
                        if k >= ws.len() {
                            assert(ws.take(k) =~= ws);
                            assert(starts_with_at(
                                s@,
                                j as int,
                                "</directories>"@,
                            ));
                            assert(s@.subrange(j as int, j3 as int) == ser_directory(x));
                            reveal_strlit("<directory id=\"");
                            reveal_strlit("\" path=\"");
                            reveal_strlit("\"/>");
                            assert(ser_directory(x) == "<directory id=\""@ + i64_dec(x.id as int) + "\" path=\""@ + x.path@ + "\"/>"@);
                            assert(ser_directory(x).len() >= 2);
                            assert(j3 - j == ser_directory(x).len());
                            assert(s@[j + 1] == ser_directory(x)[1]) by {
                                assert(s@.subrange(j as int, j3 as int)[1] == s@[j + 1]);
                            }
                            assert(ser_directory(x)[1] == "<directory id=\""@[1]);
                            assert(s@[j + 1] == "</directories>"@[1]) by {
                                assert(s@.subrange(j as int, j + "</directories>"@.len())[1] == s@[j
                                    + 1]);
                            }
                        } else {
                            assert(starts_with_at(s@, j as int, ser_directory(ws[k])));
                            ser_directory_list_snoc(ws.take(k), ws[k]);
                            assert(ws.take(k) + seq![ws[k]] =~= ws.take(k + 1));
                        }
                    }
                    ser_directory_list_snoc(xs@, x);
                    subrange_join(s@, j2 as int, j as int, j3 as int);
                }
                let ghost prev = xs@;
                xs.push(x);
                j = j3;
                proof {
                    k = k + 1;
                    assert(xs@ =~= prev + seq![x]);
                }
            },
            Err(_) => {
                proof {
                    reveal_strlit("<directories>");
                    reveal_strlit("</directories>");
                    assert forall|w: Directories|
                        wf_directories(w) && #[trigger] starts_with_at(s@, i as int, ser_directories(w))
                            && w.directory@.len() > 0 && j2 == i + "<directories>"@.len() implies k
                        == w.directory@.len() && j == j2 + ser_directory_list(w.directory@).len() by {
                        if k < w.directory@.len() {
                            assert(starts_with_at(
                                s@,
                                j as int,
                                ser_directory(w.directory@[k]),
                            ));
                        } else {
                            assert(w.directory@.take(k) =~= w.directory@);
                        }
                    }
                }
                if xs.len() == 0 {
                    return Err(ParseError { pos: j, kind: ParseErrorKind::Unexpected });
                }
                let j4 = expect(s, j, "</directories>")?;
                let v = Directories { directory: xs };
                proof {
                    subrange_join(s@, i as int, j1 as int, j2 as int);
                    subrange_join(s@, i as int, j2 as int, j as int);
                    subrange_join(s@, i as int, j as int, j4 as int);
                    assert(s@.subrange(i as int, j4 as int) =~= ser_directories(v));
                }
                return Ok((v, j4));
            },
        }
    }
}

} // verus!
