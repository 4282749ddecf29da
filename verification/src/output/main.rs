//! The output stage: per-page zones, rendering parameters, and the record
//! of what has already been rendered.

use vstd::prelude::*;

use crate::numbers::{parse_u64, u64_dec, write_u64};
use crate::output::output_params::{
    parse_output_params, ser_output_params, wf_output_params, write_output_params, OutputParams,
};
use crate::output::params::{parse_out_params, ser_out_params, wf_out_params, write_out_params,
    Params};
use crate::output::processing_params::{
    parse_processing_params, ser_processing_params, write_processing_params, ProcessingParams,
};
use crate::output::zones::{
    parse_fill_zones, parse_zones, ser_fill_zones, ser_zones, wf_zones, write_fill_zones,
    write_zones, FillZones, Zones,
};
use crate::wire::{expect, subrange_join, ParseError, ParseErrorKind};

verus! {

#[derive(Debug, Clone)]
pub struct Page {
    pub id: u32,
    pub zones: Zones,
    pub fill_zones: FillZones,
    pub params: Params,
    pub processing_params: ProcessingParams,
    pub output_params: Option<OutputParams>,
}

#[derive(Debug, Clone)]
pub struct Output {
    pub page: Vec<Page>,
}

pub open spec fn wf_out_page(v: Page) -> bool {
    &&& wf_zones(v.zones)
    &&& wf_out_params(v.params)
    &&& (match v.output_params {
        Option::None => true,
        Option::Some(op) => wf_output_params(op),
    })
}

pub open spec fn wf_output(v: Output) -> bool {
    forall|k: int| 0 <= k < v.page@.len() ==> wf_out_page(#[trigger] v.page@[k])
}

pub open spec fn ser_out_page(v: Page) -> Seq<char> {
    "<page id=\""@ + u64_dec(v.id as int) + "\">"@ + ser_zones(v.zones) + ser_fill_zones(
        v.fill_zones,
    ) + ser_out_params(v.params) + ser_processing_params(v.processing_params) + (
    match v.output_params {
        Option::None => Seq::<char>::empty(),
        Option::Some(op) => ser_output_params(op),
    }) + "</page>"@
}

#[verifier::rlimit(100)]
#[verifier::spinoff_prover]
pub fn write_out_page(out: &mut String, v: &Page)
    requires
        wf_out_page(*v),
    ensures
        final(out)@ == old(out)@ + ser_out_page(*v),
{
    out.append("<page id=\"");
    write_u64(out, v.id as u64);
    out.append("\">");
    write_zones(out, &v.zones);
    write_fill_zones(out, &v.fill_zones);
    write_out_params(out, &v.params);
    write_processing_params(out, &v.processing_params);
    match &v.output_params {
        Option::None => {},
        Option::Some(op) => write_output_params(out, op),
    }
    out.append("</page>");
    proof {
        assert(out@ =~= old(out)@ + ser_out_page(*v));
    }
}

#[verifier::rlimit(100)]
#[verifier::spinoff_prover]
pub fn parse_out_page(s: &str, i: usize) -> (r: Result<(Page, usize), ParseError>)
    requires
        i <= s@.len(),
    ensures
        match r {
            Ok((v, j)) => {
                &&& i < j <= s@.len()
                &&& wf_out_page(v)
                &&& s@.subrange(i as int, j as int) == ser_out_page(v)
            },
            Err(_) => true,
        },
{
    let j1 = expect(s, i, "<page id=\"")?;
    let (id, j2) = parse_u64(s, j1, 0xffffffff)?;
    let j3 = expect(s, j2, "\">")?;
    let (zs, j4) = parse_zones(s, j3)?;
    let (fz, j5) = parse_fill_zones(s, j4)?;
    let (params, j6) = parse_out_params(s, j5)?;
    let (pp, j7) = parse_processing_params(s, j6)?;
    let (op, j8): (Option<OutputParams>, usize) = match parse_output_params(s, j7) {
        Ok((o, j8)) => (Option::Some(o), j8),
        Err(_) => (Option::None, j7),
    };
    let j9 = expect(s, j8, "</page>")?;
    let v = Page {
        id: id as u32,
        zones: zs,
        fill_zones: fz,
        params,
        processing_params: pp,
        output_params: op,
    };
    proof {
        subrange_join(s@, i as int, j1 as int, j2 as int);
        subrange_join(s@, i as int, j2 as int, j3 as int);
        subrange_join(s@, i as int, j3 as int, j4 as int);
        subrange_join(s@, i as int, j4 as int, j5 as int);
        subrange_join(s@, i as int, j5 as int, j6 as int);
        subrange_join(s@, i as int, j6 as int, j7 as int);
        subrange_join(s@, i as int, j7 as int, j8 as int);
        subrange_join(s@, i as int, j8 as int, j9 as int);
        assert(s@.subrange(i as int, j9 as int) =~= ser_out_page(v));
    }
    Ok((v, j9))
}

pub open spec fn ser_out_page_list(xs: Seq<Page>) -> Seq<char>
    decreases xs.len(),
{
    if xs.len() == 0 {
        Seq::<char>::empty()
    } else {
        ser_out_page(xs[0]) + ser_out_page_list(xs.drop_first())
    }
}

#[verifier::rlimit(100)]
#[verifier::spinoff_prover]
pub proof fn ser_out_page_list_snoc(xs: Seq<Page>, x: Page)
    ensures
        ser_out_page_list(xs + seq![x]) == ser_out_page_list(xs) + ser_out_page(x),
    decreases xs.len(),
{
    assert(ser_out_page_list(Seq::<Page>::empty()) =~= Seq::<char>::empty());
    if xs.len() == 0 {
        assert(xs + seq![x] =~= seq![x]);
        assert(seq![x].drop_first() =~= Seq::<Page>::empty());
        assert(ser_out_page_list(seq![x]) =~= ser_out_page(x));
        assert(ser_out_page_list(xs + seq![x]) =~= ser_out_page_list(xs) + ser_out_page(x));
    } else {
        assert((xs + seq![x]).drop_first() =~= xs.drop_first() + seq![x]);
        ser_out_page_list_snoc(xs.drop_first(), x);
        assert(ser_out_page_list(xs + seq![x]) =~= ser_out_page_list(xs) + ser_out_page(x));
    }
}

/// `<output/>` when the table is empty, else the entries between open and
/// close tags.
pub open spec fn ser_output(v: Output) -> Seq<char> {
    if v.page@.len() == 0 {
        "<output/>"@
    } else {
        "<output>"@ + ser_out_page_list(v.page@) + "</output>"@
    }
}

#[verifier::rlimit(100)]
#[verifier::spinoff_prover]
pub fn write_output(out: &mut String, v: &Output)
    requires
        wf_output(*v),
    ensures
        final(out)@ == old(out)@ + ser_output(*v),
{
    if v.page.len() == 0 {
        out.append("<output/>");
        return ;
    }
    out.append("<output>");
    let n = v.page.len();
    let mut k: usize = 0;
    proof {
        assert(v.page@.take(0) =~= Seq::<Page>::empty());
        assert(ser_out_page_list(v.page@.take(0)) =~= Seq::<char>::empty());
        assert(out@ =~= old(out)@ + "<output>"@ + ser_out_page_list(v.page@.take(0)));
    }
    while k < n
        invariant
            0 < n == v.page@.len(),
            0 <= k <= n,
            wf_output(*v),

            out@ == old(out)@ + "<output>"@ + ser_out_page_list(v.page@.take(k as int)),
        decreases n - k,
    {
        write_out_page(out, &v.page[k]);
        k = k + 1;
        proof {
            ser_out_page_list_snoc(v.page@.take(k - 1), v.page@[k - 1]);
            assert(v.page@.take(k - 1) + seq![v.page@[k - 1]] =~= v.page@.take(k as int));
        }
    }
    out.append("</output>");
    proof {
        assert(v.page@.take(n as int) =~= v.page@);
        assert(out@ =~= old(out)@ + ser_output(*v));
    }
}

#[verifier::rlimit(100)]
#[verifier::spinoff_prover]
pub fn parse_output(s: &str, i: usize) -> (r: Result<(Output, usize), ParseError>)
    requires
        i <= s@.len(),
    ensures
        match r {
            Ok((v, j)) => {
                &&& i < j <= s@.len()
                &&& wf_output(v)
                &&& s@.subrange(i as int, j as int) == ser_output(v)
            },
            Err(_) => true,
        },
{
    let n = s.unicode_len();
    proof {
        reveal_strlit("<output");
        reveal_strlit("/>");
        reveal_strlit(">");
        reveal_strlit("<output/>");
        reveal_strlit("<output>");
    }
    let j1 = expect(s, i, "<output")?;
    if j1 < n && s.get_char(j1) == '/' {
        let j2 = expect(s, j1, "/>")?;
        let v = Output { page: Vec::new() };
        proof {
            subrange_join(s@, i as int, j1 as int, j2 as int);
            assert(s@.subrange(i as int, j2 as int) =~= ser_output(v));
        }
        return Ok((v, j2));
    }
    let j2 = expect(s, j1, ">")?;
    let mut xs: Vec<Page> = Vec::new();
    let mut j: usize = j2;
    proof {
        assert(s@.subrange(j2 as int, j2 as int) =~= ser_out_page_list(xs@));
    }
    loop
        invariant
            i <= j1 <= j2 <= j <= s@.len(),
            s@.subrange(i as int, j1 as int) == "<output"@,
            s@.subrange(j1 as int, j2 as int) == ">"@,
            forall|t: int| 0 <= t < xs@.len() ==> wf_out_page(#[trigger] xs@[t]),

            s@.subrange(j2 as int, j as int) == ser_out_page_list(xs@),
        decreases s@.len() - j,
    {
        match parse_out_page(s, j) {
            Ok((x, j3)) => {
                proof {
                    ser_out_page_list_snoc(xs@, x);
                    subrange_join(s@, j2 as int, j as int, j3 as int);
                }
                let ghost prev = xs@;
                xs.push(x);
                j = j3;
                proof {
                    assert(xs@ =~= prev + seq![x]);
                }
            },
            Err(_) => {
                break ;
            },
        }
    }
    if xs.len() == 0 {
        return Err(ParseError { pos: j, kind: ParseErrorKind::Unexpected });
    }
    let j4 = expect(s, j, "</output>")?;
    let v = Output { page: xs };
    proof {
        subrange_join(s@, i as int, j1 as int, j2 as int);
        subrange_join(s@, i as int, j2 as int, j as int);
        subrange_join(s@, i as int, j as int, j4 as int);
        assert(s@.subrange(i as int, j4 as int) =~= ser_output(v));
    }
    Ok((v, j4))
}

} // verus!
