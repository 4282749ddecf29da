//! Dewarping options: the mode and the post-deskew correction.

use vstd::prelude::*;

use crate::decimal::{Decimal, decimal_stop, parse_decimal, ser_decimal, wf_decimal, write_decimal};
use crate::wire::{ParseError, ParseErrorKind, expect, parse_bool, ser_bool, starts_split, starts_with_at, subrange_join, write_bool};


verus! {

#[derive(Clone, Copy, Debug, PartialEq, Eq, Structural)]
pub enum DewarpingMode {
    Off,
    Auto,
    Marginal,
}

#[derive(Debug, Clone)]
pub struct DewarpingOptions {
    pub mode: DewarpingMode,
    pub post_deskew: bool,
    pub post_deskew_angle: Decimal,
}

pub open spec fn wf_dewarping_options(v: DewarpingOptions) -> bool {
    wf_decimal(v.post_deskew_angle)
}

pub open spec fn ser_dewarping_mode(v: DewarpingMode) -> Seq<char> {
    match v {
        DewarpingMode::Off => "off"@,
        DewarpingMode::Auto => "auto"@,
        DewarpingMode::Marginal => "marginal"@,
    }
}

pub fn write_dewarping_mode(out: &mut String, v: DewarpingMode)
    ensures
        final(out)@ == old(out)@ + ser_dewarping_mode(v),
{
    match v {
        DewarpingMode::Off => out.append("off"),
        DewarpingMode::Auto => out.append("auto"),
        DewarpingMode::Marginal => out.append("marginal"),
    }
}

pub fn parse_dewarping_mode(s: &str, i: usize) -> (r: Result<(DewarpingMode, usize), ParseError>)
    requires
        i <= s@.len(),
    ensures
        match r {
            Ok((v, j)) => {
                &&& i < j <= s@.len()
                &&& s@.subrange(i as int, j as int) == ser_dewarping_mode(v)
            },
            Err(_) => true,
        },
        forall|w: DewarpingMode|
            #![trigger starts_with_at(s@, i as int, ser_dewarping_mode(w))]
            starts_with_at(s@, i as int, ser_dewarping_mode(w)) ==> r is Ok && (r->Ok_0).1 == i + ser_dewarping_mode(
                w,
            ).len(),
{
    proof {
        reveal_strlit("off");
        reveal_strlit("auto");
        reveal_strlit("marginal");
        assert forall|w: DewarpingMode| #[trigger] starts_with_at(s@, i as int, ser_dewarping_mode(w)) implies i < s@.len() && s@[i as int] == ser_dewarping_mode(w)[0] by {
            match w {
            DewarpingMode::Off => {
                assert(s@.subrange(i as int, i + 3)[0] == s@[i as int]);
            },
            DewarpingMode::Auto => {
                assert(s@.subrange(i as int, i + 4)[0] == s@[i as int]);
            },
            DewarpingMode::Marginal => {
                assert(s@.subrange(i as int, i + 8)[0] == s@[i as int]);
            },
            }
        }
    }
    let n = s.unicode_len();
    proof {
        reveal_strlit("off");
        reveal_strlit("auto");
        reveal_strlit("marginal");
    }
    if i == n {
        return Err(ParseError { pos: i, kind: ParseErrorKind::Unexpected });
    }
    let c = s.get_char(i);
    if c == 'o' {
        let j = expect(s, i, "off")?;
        Ok((DewarpingMode::Off, j))
    } else if c == 'a' {
        let j = expect(s, i, "auto")?;
        Ok((DewarpingMode::Auto, j))
    } else {
        let j = expect(s, i, "marginal")?;
        Ok((DewarpingMode::Marginal, j))
    }
}

pub open spec fn ser_dewarping_options(v: DewarpingOptions) -> Seq<char> {
    "<dewarping-options mode=\""@ + ser_dewarping_mode(v.mode) + "\" postDeskew=\""@ + ser_bool(
        v.post_deskew,
    ) + "\" postDeskewAngle=\""@ + ser_decimal(v.post_deskew_angle) + "\"/>"@
}

pub fn write_dewarping_options(out: &mut String, v: &DewarpingOptions)
    requires
        wf_dewarping_options(*v),
    ensures
        final(out)@ == old(out)@ + ser_dewarping_options(*v),
{
    out.append("<dewarping-options mode=\"");
    write_dewarping_mode(out, v.mode);
    out.append("\" postDeskew=\"");
    write_bool(out, v.post_deskew);
    out.append("\" postDeskewAngle=\"");
    write_decimal(out, &v.post_deskew_angle);
    out.append("\"/>");
    proof {
        assert(out@ =~= old(out)@ + ser_dewarping_options(*v));
    }
}

#[verifier::rlimit(100)]
#[verifier::spinoff_prover]
pub fn parse_dewarping_options(s: &str, i: usize) -> (r: Result<
    (DewarpingOptions, usize),
    ParseError,
>)
    requires
        i <= s@.len(),
    ensures
        match r {
            Ok((v, j)) => {
                &&& i < j <= s@.len()
                &&& wf_dewarping_options(v)
                &&& s@.subrange(i as int, j as int) == ser_dewarping_options(v)
            },
            Err(_) => true,
        },
        forall|w: DewarpingOptions|
            #![trigger starts_with_at(s@, i as int, ser_dewarping_options(w))]
            wf_dewarping_options(w) && starts_with_at(s@, i as int, ser_dewarping_options(w)) ==> r is Ok && (
            r->Ok_0).1 == i + ser_dewarping_options(w).len(),
{
    proof {
        reveal_strlit("<dewarping-options mode=\"");
        reveal_strlit("\" postDeskew=\"");
        reveal_strlit("\" postDeskewAngle=\"");
        reveal_strlit("\"/>");
        assert forall|w: DewarpingOptions|
            wf_dewarping_options(w) && #[trigger] starts_with_at(s@, i as int, ser_dewarping_options(w)) implies {
            let a0 = "<dewarping-options mode=\""@;
            let a1 = a0 + ser_dewarping_mode(w.mode);
            let a2 = a1 + "\" postDeskew=\""@;
            let a3 = a2 + ser_bool(w.post_deskew);
            let a4 = a3 + "\" postDeskewAngle=\""@;
            let a5 = a4 + ser_decimal(w.post_deskew_angle);
            let a6 = a5 + "\"/>"@;
            &&& starts_with_at(s@, i as int, "<dewarping-options mode=\""@)
            &&& starts_with_at(s@, i + a0.len(), ser_dewarping_mode(w.mode))
            &&& starts_with_at(s@, i + a1.len(), "\" postDeskew=\""@)
            &&& starts_with_at(s@, i + a2.len(), ser_bool(w.post_deskew))
            &&& starts_with_at(s@, i + a3.len(), "\" postDeskewAngle=\""@)
            &&& starts_with_at(s@, i + a4.len(), ser_decimal(w.post_deskew_angle))
            &&& decimal_stop(s@, i + a5.len())
            &&& starts_with_at(s@, i + a5.len(), "\"/>"@)
        } by {
            let a0 = "<dewarping-options mode=\""@;
            let a1 = a0 + ser_dewarping_mode(w.mode);
            let a2 = a1 + "\" postDeskew=\""@;
            let a3 = a2 + ser_bool(w.post_deskew);
            let a4 = a3 + "\" postDeskewAngle=\""@;
            let a5 = a4 + ser_decimal(w.post_deskew_angle);
            let a6 = a5 + "\"/>"@;
            starts_split(s@, i as int, a5, "\"/>"@);
            starts_split(s@, i as int, a4, ser_decimal(w.post_deskew_angle));
            starts_split(s@, i as int, a3, "\" postDeskewAngle=\""@);
            starts_split(s@, i as int, a2, ser_bool(w.post_deskew));
            starts_split(s@, i as int, a1, "\" postDeskew=\""@);
            starts_split(s@, i as int, a0, ser_dewarping_mode(w.mode));
            assert(s@.subrange(i + a5.len(), i + a5.len() + 3)[0] == s@[i + a5.len()]);
        }
    }
    let j1 = expect(s, i, "<dewarping-options mode=\"")?;
    let (m, j2) = parse_dewarping_mode(s, j1)?;
    let j3 = expect(s, j2, "\" postDeskew=\"")?;
    let (pd, j4) = parse_bool(s, j3)?;
    let j5 = expect(s, j4, "\" postDeskewAngle=\"")?;
    let (angle, j6) = parse_decimal(s, j5)?;
    let j7 = expect(s, j6, "\"/>")?;
    let v = DewarpingOptions { mode: m, post_deskew: pd, post_deskew_angle: angle };
    proof {
        subrange_join(s@, i as int, j1 as int, j2 as int);
        subrange_join(s@, i as int, j2 as int, j3 as int);
        subrange_join(s@, i as int, j3 as int, j4 as int);
        subrange_join(s@, i as int, j4 as int, j5 as int);
        subrange_join(s@, i as int, j5 as int, j6 as int);
        subrange_join(s@, i as int, j6 as int, j7 as int);
        assert(s@.subrange(i as int, j7 as int) =~= ser_dewarping_options(v));
    }
    Ok((v, j7))
}

} // verus!
