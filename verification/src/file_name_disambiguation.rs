//! The disambiguation table: a label for each file whose name collides.

use vstd::prelude::*;

use crate::numbers::{digit_stop, parse_u64, u64_dec, write_u64};
use crate::wire::{starts_split, starts_with_at, 
    all_value_chars, expect, scan_value, subrange_join, ParseError, ParseErrorKind,
};


verus! {

#[derive(Debug, Clone)]
pub struct FileNameDisambiguation {
    pub mapping: Vec<Mapping>,
}

#[derive(Debug, Clone)]
pub struct Mapping {
    pub file: u32,
    pub label: String,
}

pub open spec fn wf_mapping(v: Mapping) -> bool {
    all_value_chars(v.label@)
}

pub open spec fn wf_file_name_disambiguation(v: FileNameDisambiguation) -> bool {
    forall|k: int| 0 <= k < v.mapping@.len() ==> wf_mapping(#[trigger] v.mapping@[k])
}

pub open spec fn ser_mapping(v: Mapping) -> Seq<char> {
    "<mapping file=\""@ + u64_dec(v.file as int) + "\" label=\""@ + v.label@ + "\"/>"@
}

pub fn write_mapping(out: &mut String, v: &Mapping)
    requires
        wf_mapping(*v),
    ensures
        final(out)@ == old(out)@ + ser_mapping(*v),
{
    out.append("<mapping file=\"");
    write_u64(out, v.file as u64);
    out.append("\" label=\"");
    out.append(v.label.as_str());
    out.append("\"/>");
    proof {
        assert(out@ =~= old(out)@ + ser_mapping(*v));
    }
}

pub fn parse_mapping(s: &str, i: usize) -> (r: Result<(Mapping, usize), ParseError>)
    requires
        i <= s@.len(),
    ensures
        match r {
            Ok((v, j)) => {
                &&& i < j <= s@.len()
                &&& wf_mapping(v)
                &&& s@.subrange(i as int, j as int) == ser_mapping(v)
            },
            Err(_) => true,
        },
        forall|w: Mapping|
            #![trigger starts_with_at(s@, i as int, ser_mapping(w))]
            wf_mapping(w) && starts_with_at(s@, i as int, ser_mapping(w)) ==> r is Ok && (
            r->Ok_0).1 == i + ser_mapping(w).len(),
{
    proof {
        reveal_strlit("<mapping file=\"");
        reveal_strlit("\" label=\"");
        reveal_strlit("\"/>");
        assert forall|w: Mapping|
            wf_mapping(w) && #[trigger] starts_with_at(s@, i as int, ser_mapping(w)) implies {
            let a0 = "<mapping file=\""@;
            let a1 = a0 + u64_dec(w.file as int);
            let a2 = a1 + "\" label=\""@;
            let a3 = a2 + w.label@;
            let a4 = a3 + "\"/>"@;
            &&& starts_with_at(s@, i as int, "<mapping file=\""@)
            &&& starts_with_at(s@, i + a0.len(), u64_dec(w.file as int))
            &&& digit_stop(s@, i + a1.len())
            &&& starts_with_at(s@, i + a1.len(), "\" label=\""@)
            &&& starts_with_at(s@, i + a2.len(), w.label@)
            &&& i + a3.len() < s@.len()
            &&& s@[i + a3.len()] == '"'
            &&& starts_with_at(s@, i + a3.len(), "\"/>"@)
        } by {
            let a0 = "<mapping file=\""@;
            let a1 = a0 + u64_dec(w.file as int);
            let a2 = a1 + "\" label=\""@;
            let a3 = a2 + w.label@;
            let a4 = a3 + "\"/>"@;
            starts_split(s@, i as int, a3, "\"/>"@);
            starts_split(s@, i as int, a2, w.label@);
            starts_split(s@, i as int, a1, "\" label=\""@);
            starts_split(s@, i as int, a0, u64_dec(w.file as int));
            assert(s@.subrange(i + a1.len(), i + a1.len() + 9)[0] == s@[i + a1.len()]);
            assert(s@.subrange(i + a3.len(), i + a3.len() + 3)[0] == s@[i + a3.len()]);
        }
    }
    let j1 = expect(s, i, "<mapping file=\"")?;
    let (file, j2) = parse_u64(s, j1, 0xffffffff)?;
    let j3 = expect(s, j2, "\" label=\"")?;
    let (label, j4) = scan_value(s, j3)?;
    let j5 = expect(s, j4, "\"/>")?;
    let v = Mapping { file: file as u32, label };
    proof {
        subrange_join(s@, i as int, j1 as int, j2 as int);
        subrange_join(s@, i as int, j2 as int, j3 as int);
        subrange_join(s@, i as int, j3 as int, j4 as int);
        subrange_join(s@, i as int, j4 as int, j5 as int);
        assert(s@.subrange(i as int, j5 as int) =~= ser_mapping(v));
    }
    Ok((v, j5))
}

pub open spec fn ser_mapping_list(xs: Seq<Mapping>) -> Seq<char>
    decreases xs.len(),
{
    if xs.len() == 0 {
        Seq::<char>::empty()
    } else {
        ser_mapping(xs[0]) + ser_mapping_list(xs.drop_first())
    }
}

pub proof fn ser_mapping_list_snoc(xs: Seq<Mapping>, x: Mapping)
    ensures
        ser_mapping_list(xs + seq![x]) == ser_mapping_list(xs) + ser_mapping(x),
    decreases xs.len(),
{
    assert(ser_mapping_list(Seq::<Mapping>::empty()) =~= Seq::<char>::empty());
    if xs.len() == 0 {
        assert(xs + seq![x] =~= seq![x]);
        assert(seq![x].drop_first() =~= Seq::<Mapping>::empty());
        assert(ser_mapping_list(seq![x]) =~= ser_mapping(x));
        assert(ser_mapping_list(xs + seq![x]) =~= ser_mapping_list(xs) + ser_mapping(x));
    } else {
        assert((xs + seq![x]).drop_first() =~= xs.drop_first() + seq![x]);
        ser_mapping_list_snoc(xs.drop_first(), x);
        assert(ser_mapping_list(xs + seq![x]) =~= ser_mapping_list(xs) + ser_mapping(x));
    }
}

pub proof fn ser_mapping_list_cat(xs: Seq<Mapping>, ys: Seq<Mapping>)
    ensures
        ser_mapping_list(xs + ys) == ser_mapping_list(xs) + ser_mapping_list(ys),
    decreases xs.len(),
{
    if xs.len() == 0 {
        assert(xs + ys =~= ys);
        assert(ser_mapping_list(xs) + ser_mapping_list(ys) =~= ser_mapping_list(ys));
    } else {
        assert((xs + ys).drop_first() =~= xs.drop_first() + ys);
        ser_mapping_list_cat(xs.drop_first(), ys);
        assert(ser_mapping_list(xs + ys) =~= ser_mapping_list(xs) + ser_mapping_list(ys));
    }
}

/// `<file-name-disambiguation/>` when the table is empty, else the entries between open and
/// close tags.
pub open spec fn ser_file_name_disambiguation(v: FileNameDisambiguation) -> Seq<char> {
    if v.mapping@.len() == 0 {
        "<file-name-disambiguation/>"@
    } else {
        "<file-name-disambiguation>"@ + ser_mapping_list(v.mapping@) + "</file-name-disambiguation>"@
    }
}

pub fn write_file_name_disambiguation(out: &mut String, v: &FileNameDisambiguation)
    requires
        wf_file_name_disambiguation(*v),
    ensures
        final(out)@ == old(out)@ + ser_file_name_disambiguation(*v),
{
    if v.mapping.len() == 0 {
        out.append("<file-name-disambiguation/>");
        return ;
    }
    out.append("<file-name-disambiguation>");
    let n = v.mapping.len();
    let mut k: usize = 0;
    proof {
        assert(v.mapping@.take(0) =~= Seq::<Mapping>::empty());
        assert(ser_mapping_list(v.mapping@.take(0)) =~= Seq::<char>::empty());
        assert(out@ =~= old(out)@ + "<file-name-disambiguation>"@ + ser_mapping_list(v.mapping@.take(0)));
    }
    while k < n
        invariant
            0 < n == v.mapping@.len(),
            0 <= k <= n,
            wf_file_name_disambiguation(*v),

            out@ == old(out)@ + "<file-name-disambiguation>"@ + ser_mapping_list(v.mapping@.take(k as int)),
        decreases n - k,
    {
        write_mapping(out, &v.mapping[k]);
        k = k + 1;
        proof {
            ser_mapping_list_snoc(v.mapping@.take(k - 1), v.mapping@[k - 1]);
            assert(v.mapping@.take(k - 1) + seq![v.mapping@[k - 1]] =~= v.mapping@.take(k as int));
        }
    }
    out.append("</file-name-disambiguation>");
    proof {
        assert(v.mapping@.take(n as int) =~= v.mapping@);
        assert(out@ =~= old(out)@ + ser_file_name_disambiguation(*v));
    }
}

#[verifier::rlimit(100)]
#[verifier::spinoff_prover]
#[verifier::loop_isolation(false)]
pub fn parse_file_name_disambiguation(s: &str, i: usize) -> (r: Result<(FileNameDisambiguation, usize), ParseError>)
    requires
        i <= s@.len(),
    ensures
        match r {
            Ok((v, j)) => {
                &&& i < j <= s@.len()
                &&& wf_file_name_disambiguation(v)
                &&& s@.subrange(i as int, j as int) == ser_file_name_disambiguation(v)
            },
            Err(_) => true,
        },
        forall|w: FileNameDisambiguation|
            #![trigger starts_with_at(s@, i as int, ser_file_name_disambiguation(w))]
            wf_file_name_disambiguation(w) && starts_with_at(s@, i as int, ser_file_name_disambiguation(w)) ==> r is Ok && (
            r->Ok_0).1 == i + ser_file_name_disambiguation(w).len(),
{
    let n = s.unicode_len();
    proof {
        reveal_strlit("<file-name-disambiguation");
        reveal_strlit("/>");
        reveal_strlit(">");
        reveal_strlit("<file-name-disambiguation/>");
        reveal_strlit("<file-name-disambiguation>");
        reveal_strlit("</file-name-disambiguation>");
        reveal_strlit("<mapping file=\"");
        assert forall|w: FileNameDisambiguation|
            wf_file_name_disambiguation(w) && #[trigger] starts_with_at(s@, i as int, ser_file_name_disambiguation(w)) implies {
            let a0 = "<file-name-disambiguation"@;
            &&& starts_with_at(s@, i as int, a0)
            &&& i + a0.len() < s@.len()
            &&& (w.mapping@.len() == 0 ==> s@[i + a0.len()] == '/' && starts_with_at(
                s@,
                i + a0.len(),
                "/>"@,
            ))
            &&& (w.mapping@.len() > 0 ==> s@[i + a0.len()] == '>' && starts_with_at(
                s@,
                i + a0.len(),
                ">"@,
            ) && starts_with_at(
                s@,
                i + a0.len() + 1,
                ser_mapping_list(w.mapping@),
            ) && starts_with_at(
                s@,
                i + a0.len() + 1 + ser_mapping_list(w.mapping@).len(),
                "</file-name-disambiguation>"@,
            ))
        } by {
            let a0 = "<file-name-disambiguation"@;
            if w.mapping@.len() == 0 {
                assert(ser_file_name_disambiguation(w) == "<file-name-disambiguation/>"@);
                assert(starts_with_at(s@, i as int, a0 + "/>"@)) by {
                    assert(a0 + "/>"@ =~= "<file-name-disambiguation/>"@);
                }
                starts_split(s@, i as int, a0, "/>"@);
                assert(s@.subrange(i + a0.len(), i + a0.len() + 2)[0] == s@[i + a0.len()]);
            } else {
                let lst = ser_mapping_list(w.mapping@);
                assert(starts_with_at(s@, i as int, a0 + ">"@ + lst + "</file-name-disambiguation>"@)) by {
                    assert(a0 + ">"@ =~= "<file-name-disambiguation>"@);
                    assert(a0 + ">"@ + lst + "</file-name-disambiguation>"@ =~= ser_file_name_disambiguation(w));
                }
                starts_split(s@, i as int, a0 + ">"@ + lst, "</file-name-disambiguation>"@);
                starts_split(s@, i as int, a0 + ">"@, lst);
                starts_split(s@, i as int, a0, ">"@);
                assert(s@.subrange(i + a0.len(), i + a0.len() + 1)[0] == s@[i + a0.len()]);
            }
        }
    }
    let j1 = expect(s, i, "<file-name-disambiguation")?;
    if j1 < n && s.get_char(j1) == '/' {
        let j2 = expect(s, j1, "/>")?;
        let v = FileNameDisambiguation { mapping: Vec::new() };
        proof {
            subrange_join(s@, i as int, j1 as int, j2 as int);
            assert(s@.subrange(i as int, j2 as int) =~= ser_file_name_disambiguation(v));
        }
        return Ok((v, j2));
    }
    let j2 = expect(s, j1, ">")?;
    let mut xs: Vec<Mapping> = Vec::new();
    let mut j: usize = j2;
    let ghost mut k: int = 0;
    proof {
        assert(s@.subrange(j2 as int, j2 as int) =~= ser_mapping_list(xs@));
    }
    loop
        invariant
            i <= j1 <= j2 <= j <= s@.len(),
            k == xs@.len(),
            s@.subrange(i as int, j1 as int) == "<file-name-disambiguation"@,
            s@.subrange(j1 as int, j2 as int) == ">"@,
            forall|t: int| 0 <= t < xs@.len() ==> wf_mapping(#[trigger] xs@[t]),

            s@.subrange(j2 as int, j as int) == ser_mapping_list(xs@),
            forall|w: FileNameDisambiguation|
                #![trigger starts_with_at(s@, i as int, ser_file_name_disambiguation(w))]
                wf_file_name_disambiguation(w) && starts_with_at(s@, i as int, ser_file_name_disambiguation(w)) && w.mapping@.len() > 0
                    && j2 == i + "<file-name-disambiguation>"@.len() ==> k <= w.mapping@.len() && j == j2
                    + ser_mapping_list(w.mapping@.take(k)).len(),
        decreases s@.len() - j,
    {
        proof {
            reveal_strlit("<file-name-disambiguation>");
            reveal_strlit("</file-name-disambiguation>");
            reveal_strlit("<mapping file=\"");
            assert forall|w: FileNameDisambiguation|
                wf_file_name_disambiguation(w) && #[trigger] starts_with_at(s@, i as int, ser_file_name_disambiguation(w))
                    && w.mapping@.len() > 0 && j2 == i + "<file-name-disambiguation>"@.len() && k
                    < w.mapping@.len() implies wf_mapping(w.mapping@[k]) && starts_with_at(
                s@,
                j as int,
                ser_mapping(w.mapping@[k]),
            ) by {
                let ws = w.mapping@;
                assert(ws.take(k) + ws.skip(k) =~= ws);
                ser_mapping_list_cat(ws.take(k), ws.skip(k));
                assert(starts_with_at(s@, j2 as int, ser_mapping_list(ws)));
                starts_split(s@, j2 as int, ser_mapping_list(ws.take(k)), ser_mapping_list(
                    ws.skip(k),
                ));
                assert(ws.skip(k)[0] == ws[k]);
                assert(ws.skip(k).drop_first() =~= ws.skip(k + 1));
                assert(ser_mapping_list(ws.skip(k)) == ser_mapping(ws[k])
                    + ser_mapping_list(ws.skip(k + 1)));
                starts_split(s@, j as int, ser_mapping(ws[k]), ser_mapping_list(
                    ws.skip(k + 1),
                ));
            }
        }
        match parse_mapping(s, j) {
            Ok((x, j3)) => {
                proof {
                    reveal_strlit("<file-name-disambiguation>");
                    reveal_strlit("</file-name-disambiguation>");
                    reveal_strlit("<mapping file=\"");
                    assert forall|w: FileNameDisambiguation|
                        wf_file_name_disambiguation(w) && #[trigger] starts_with_at(s@, i as int, ser_file_name_disambiguation(w))
                            && w.mapping@.len() > 0 && j2 == i + "<file-name-disambiguation>"@.len() implies k
                        < w.mapping@.len() && j3 == j2 + ser_mapping_list(
                        w.mapping@.take(k + 1),
                    ).len() by {
                        let ws = w.mapping@;
                        if k >= ws.len() {
                            assert(ws.take(k) =~= ws);
                            assert(starts_with_at(
                                s@,
                                j as int,
                                "</file-name-disambiguation>"@,
                            ));
                            assert(s@.subrange(j as int, j3 as int) == ser_mapping(x));
                            reveal_strlit("<mapping file=\"");
                            assert(ser_mapping(x) == "<mapping file=\""@ + u64_dec(x.file as int) + "\" label=\""@ + x.label@ + "\"/>"@);
                            assert(ser_mapping(x).len() >= 2);
                            assert(j3 - j == ser_mapping(x).len());
                            assert(s@[j + 1] == ser_mapping(x)[1]) by {
                                assert(s@.subrange(j as int, j3 as int)[1] == s@[j + 1]);
                            }
                            assert(ser_mapping(x)[1] == "<mapping file=\""@[1]);
                            assert(s@[j + 1] == "</file-name-disambiguation>"@[1]) by {
                                assert(s@.subrange(j as int, j + "</file-name-disambiguation>"@.len())[1] == s@[j
                                    + 1]);
                            }
                        } else {
                            assert(starts_with_at(s@, j as int, ser_mapping(ws[k])));
                            ser_mapping_list_snoc(ws.take(k), ws[k]);
                            assert(ws.take(k) + seq![ws[k]] =~= ws.take(k + 1));
                        }
                    }
                    ser_mapping_list_snoc(xs@, x);
                    subrange_join(s@, j2 as int, j as int, j3 as int);
                }
                let ghost prev = xs@;
                xs.push(x);
                j = j3;
                proof {
                    k = k + 1;
                    assert(xs@ =~= prev + seq![x]);
                }
            },
            Err(_) => {
                proof {
                    reveal_strlit("<file-name-disambiguation>");
                    reveal_strlit("</file-name-disambiguation>");
                    assert forall|w: FileNameDisambiguation|
                        wf_file_name_disambiguation(w) && #[trigger] starts_with_at(s@, i as int, ser_file_name_disambiguation(w))
                            && w.mapping@.len() > 0 && j2 == i + "<file-name-disambiguation>"@.len() implies k
                        == w.mapping@.len() && j == j2 + ser_mapping_list(w.mapping@).len() by {
                        if k < w.mapping@.len() {
                            assert(starts_with_at(
                                s@,
                                j as int,
                                ser_mapping(w.mapping@[k]),
                            ));
                        } else {
                            assert(w.mapping@.take(k) =~= w.mapping@);
                        }
                    }
                }
                if xs.len() == 0 {
                    return Err(ParseError { pos: j, kind: ParseErrorKind::Unexpected });
                }
                let j4 = expect(s, j, "</file-name-disambiguation>")?;
                let v = FileNameDisambiguation { mapping: xs };
                proof {
                    subrange_join(s@, i as int, j1 as int, j2 as int);
                    subrange_join(s@, i as int, j2 as int, j as int);
                    subrange_join(s@, i as int, j as int, j4 as int);
                    assert(s@.subrange(i as int, j4 as int) =~= ser_file_name_disambiguation(v));
                }
                return Ok((v, j4));
            },
        }
    }
}

} // verus!
