//! Bookkeeping the tool records about a rendered page.

use vstd::prelude::*;

use crate::numbers::{digit_stop, parse_u64, u64_dec, write_u64};
use crate::wire::{ParseError, expect, parse_bool, ser_bool, starts_split, starts_with_at, subrange_join, write_bool};


verus! {

#[derive(Clone, Copy, Debug, PartialEq, Eq, Structural)]
pub struct ProcessingParams {
    pub auto_zones_found: u32,
    pub black_on_white_set_manually: bool,
}

pub open spec fn ser_processing_params(v: ProcessingParams) -> Seq<char> {
    "<processing-params autoZonesFound=\""@ + u64_dec(v.auto_zones_found as int)
        + "\" blackOnWhiteSetManually=\""@ + ser_bool(v.black_on_white_set_manually) + "\"/>"@
}

pub fn write_processing_params(out: &mut String, v: &ProcessingParams)
    ensures
        final(out)@ == old(out)@ + ser_processing_params(*v),
{
    out.append("<processing-params autoZonesFound=\"");
    write_u64(out, v.auto_zones_found as u64);
    out.append("\" blackOnWhiteSetManually=\"");
    write_bool(out, v.black_on_white_set_manually);
    out.append("\"/>");
    proof {
        assert(out@ =~= old(out)@ + ser_processing_params(*v));
    }
}

#[verifier::rlimit(100)]
#[verifier::spinoff_prover]
pub fn parse_processing_params(s: &str, i: usize) -> (r: Result<
    (ProcessingParams, usize),
    ParseError,
>)
    requires
        i <= s@.len(),
    ensures
        match r {
            Ok((v, j)) => {
                &&& i < j <= s@.len()
                &&& s@.subrange(i as int, j as int) == ser_processing_params(v)
            },
            Err(_) => true,
        },
        forall|w: ProcessingParams|
            #![trigger starts_with_at(s@, i as int, ser_processing_params(w))]
            true && starts_with_at(s@, i as int, ser_processing_params(w)) ==> r is Ok && (
            r->Ok_0).1 == i + ser_processing_params(w).len(),
{
    proof {
        reveal_strlit("<processing-params autoZonesFound=\"");
        reveal_strlit("\" blackOnWhiteSetManually=\"");
        reveal_strlit("\"/>");
        assert forall|w: ProcessingParams|
            true && #[trigger] starts_with_at(s@, i as int, ser_processing_params(w)) implies {
            let a0 = "<processing-params autoZonesFound=\""@;
            let a1 = a0 + u64_dec(w.auto_zones_found as int);
            let a2 = a1 + "\" blackOnWhiteSetManually=\""@;
            let a3 = a2 + ser_bool(w.black_on_white_set_manually);
            let a4 = a3 + "\"/>"@;
            &&& starts_with_at(s@, i as int, "<processing-params autoZonesFound=\""@)
            &&& starts_with_at(s@, i + a0.len(), u64_dec(w.auto_zones_found as int))
            &&& digit_stop(s@, i + a1.len())
            &&& starts_with_at(s@, i + a1.len(), "\" blackOnWhiteSetManually=\""@)
            &&& starts_with_at(s@, i + a2.len(), ser_bool(w.black_on_white_set_manually))
            &&& starts_with_at(s@, i + a3.len(), "\"/>"@)
        } by {
            let a0 = "<processing-params autoZonesFound=\""@;
            let a1 = a0 + u64_dec(w.auto_zones_found as int);
            let a2 = a1 + "\" blackOnWhiteSetManually=\""@;
            let a3 = a2 + ser_bool(w.black_on_white_set_manually);
            let a4 = a3 + "\"/>"@;
            starts_split(s@, i as int, a3, "\"/>"@);
            starts_split(s@, i as int, a2, ser_bool(w.black_on_white_set_manually));
            starts_split(s@, i as int, a1, "\" blackOnWhiteSetManually=\""@);
            starts_split(s@, i as int, a0, u64_dec(w.auto_zones_found as int));
            assert(s@.subrange(i + a1.len(), i + a1.len() + 27)[0] == s@[i + a1.len()]);
        }
    }
    let j1 = expect(s, i, "<processing-params autoZonesFound=\"")?;
    let (az, j2) = parse_u64(s, j1, 0xffffffff)?;
    let j3 = expect(s, j2, "\" blackOnWhiteSetManually=\"")?;
    let (bw, j4) = parse_bool(s, j3)?;
    let j5 = expect(s, j4, "\"/>")?;
    let v = ProcessingParams {
        auto_zones_found: az as u32,
        black_on_white_set_manually: bw,
    };
    proof {
        subrange_join(s@, i as int, j1 as int, j2 as int);
        subrange_join(s@, i as int, j2 as int, j3 as int);
        subrange_join(s@, i as int, j3 as int, j4 as int);
        subrange_join(s@, i as int, j4 as int, j5 as int);
        assert(s@.subrange(i as int, j5 as int) =~= ser_processing_params(v));
    }
    Ok((v, j5))
}

} // verus!
