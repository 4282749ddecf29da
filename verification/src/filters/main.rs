//! The aggregate of the six filter stages, in their fixed wire order.

use vstd::prelude::*;

use crate::filters::deskew::{parse_deskew, ser_deskew, wf_deskew, write_deskew, Deskew};
use crate::filters::fix_orientation::{
    parse_fix_orientation, ser_fix_orientation, write_fix_orientation, FixOrientation,
};
use crate::filters::page_layout::{
    parse_page_layout, ser_page_layout, wf_page_layout, write_page_layout, PageLayout,
};
use crate::filters::page_split::{
    parse_page_split, ser_page_split, wf_page_split, write_page_split, PageSplit,
};
use crate::filters::select_content::{
    parse_select_content, ser_select_content, wf_select_content, write_select_content,
    SelectContent,
};
use crate::output::main::{parse_output, ser_output, wf_output, write_output, Output};
use crate::wire::{expect, subrange_join, ParseError};

verus! {

/// The six-stage filter block of a project.
#[derive(Debug, Clone)]
pub struct Filters {
    pub fix_orientation: FixOrientation,
    pub page_split: PageSplit,
    pub deskew: Deskew,
    pub select_content: SelectContent,
    pub page_layout: PageLayout,
    pub output: Output,
}

pub open spec fn wf_filters(v: Filters) -> bool {
    &&& wf_page_split(v.page_split)
    &&& wf_deskew(v.deskew)
    &&& wf_select_content(v.select_content)
    &&& wf_page_layout(v.page_layout)
    &&& wf_output(v.output)
}

pub open spec fn ser_filters(v: Filters) -> Seq<char> {
    "<filters>"@ + ser_fix_orientation(v.fix_orientation) + ser_page_split(v.page_split)
        + ser_deskew(v.deskew) + ser_select_content(v.select_content) + ser_page_layout(
        v.page_layout,
    ) + ser_output(v.output) + "</filters>"@
}

#[verifier::rlimit(100)]
#[verifier::spinoff_prover]
pub fn write_filters(out: &mut String, v: &Filters)
    requires
        wf_filters(*v),
    ensures
        final(out)@ == old(out)@ + ser_filters(*v),
{
    out.append("<filters>");
    write_fix_orientation(out, &v.fix_orientation);
    write_page_split(out, &v.page_split);
    write_deskew(out, &v.deskew);
    write_select_content(out, &v.select_content);
    write_page_layout(out, &v.page_layout);
    write_output(out, &v.output);
    out.append("</filters>");
    proof {
        assert(out@ =~= old(out)@ + ser_filters(*v));
    }
}

#[verifier::rlimit(100)]
#[verifier::spinoff_prover]
pub fn parse_filters(s: &str, i: usize) -> (r: Result<(Filters, usize), ParseError>)
    requires
        i <= s@.len(),
    ensures
        match r {
            Ok((v, j)) => {
                &&& i < j <= s@.len()
                &&& wf_filters(v)
                &&& s@.subrange(i as int, j as int) == ser_filters(v)
            },
            Err(_) => true,
        },
{
    let j1 = expect(s, i, "<filters>")?;
    let (fo, j2) = parse_fix_orientation(s, j1)?;
    let (ps, j3) = parse_page_split(s, j2)?;
    let (ds, j4) = parse_deskew(s, j3)?;
    let (sc, j5) = parse_select_content(s, j4)?;
    let (pl, j6) = parse_page_layout(s, j5)?;
    let (op, j7) = parse_output(s, j6)?;
    let j8 = expect(s, j7, "</filters>")?;
    let v = Filters {
        fix_orientation: fo,
        page_split: ps,
        deskew: ds,
        select_content: sc,
        page_layout: pl,
        output: op,
    };
    proof {
        subrange_join(s@, i as int, j1 as int, j2 as int);
        subrange_join(s@, i as int, j2 as int, j3 as int);
        subrange_join(s@, i as int, j3 as int, j4 as int);
        subrange_join(s@, i as int, j4 as int, j5 as int);
        subrange_join(s@, i as int, j5 as int, j6 as int);
        subrange_join(s@, i as int, j6 as int, j7 as int);
        subrange_join(s@, i as int, j7 as int, j8 as int);
        assert(s@.subrange(i as int, j8 as int) =~= ser_filters(v));
    }
    Ok((v, j8))
}

} // verus!
