//! Output splitting options: whether and how the rendered output is split
//! into layers.

use vstd::prelude::*;

use crate::wire::{ParseError, ParseErrorKind, expect, parse_bool, ser_bool, starts_split, starts_with_at, subrange_join, write_bool};


verus! {

#[derive(Clone, Copy, Debug, PartialEq, Eq, Structural)]
pub enum SplittingMode {
    BW,
    Color,
}

#[derive(Clone, Copy, Debug, PartialEq, Eq, Structural)]
pub struct Splitting {
    pub original_background: bool,
    pub split_output: bool,
    pub splitting_mode: SplittingMode,
}

pub open spec fn ser_splitting_mode(v: SplittingMode) -> Seq<char> {
    match v {
        SplittingMode::BW => "bw"@,
        SplittingMode::Color => "color"@,
    }
}

pub fn write_splitting_mode(out: &mut String, v: SplittingMode)
    ensures
        final(out)@ == old(out)@ + ser_splitting_mode(v),
{
    match v {
        SplittingMode::BW => out.append("bw"),
        SplittingMode::Color => out.append("color"),
    }
}

pub fn parse_splitting_mode(s: &str, i: usize) -> (r: Result<(SplittingMode, usize), ParseError>)
    requires
        i <= s@.len(),
    ensures
        match r {
            Ok((v, j)) => {
                &&& i < j <= s@.len()
                &&& s@.subrange(i as int, j as int) == ser_splitting_mode(v)
            },
            Err(_) => true,
        },
        forall|w: SplittingMode|
            #![trigger starts_with_at(s@, i as int, ser_splitting_mode(w))]
            starts_with_at(s@, i as int, ser_splitting_mode(w)) ==> r is Ok && (r->Ok_0).1 == i + ser_splitting_mode(
                w,
            ).len(),
{
    proof {
        reveal_strlit("bw");
        reveal_strlit("color");
        assert forall|w: SplittingMode| #[trigger] starts_with_at(s@, i as int, ser_splitting_mode(w)) implies i < s@.len() && s@[i as int] == ser_splitting_mode(w)[0] by {
            match w {
            SplittingMode::BW => {
                assert(s@.subrange(i as int, i + 2)[0] == s@[i as int]);
            },
            SplittingMode::Color => {
                assert(s@.subrange(i as int, i + 5)[0] == s@[i as int]);
            },
            }
        }
    }
    let n = s.unicode_len();
    proof {
        reveal_strlit("bw");
        reveal_strlit("color");
    }
    if i == n {
        return Err(ParseError { pos: i, kind: ParseErrorKind::Unexpected });
    }
    let c = s.get_char(i);
    if c == 'b' {
        let j = expect(s, i, "bw")?;
        Ok((SplittingMode::BW, j))
    } else {
        let j = expect(s, i, "color")?;
        Ok((SplittingMode::Color, j))
    }
}

pub open spec fn ser_splitting(v: Splitting) -> Seq<char> {
    "<splitting originalBackground=\""@ + ser_bool(v.original_background)
        + "\" splitOutput=\""@ + ser_bool(v.split_output) + "\" splittingMode=\""@
        + ser_splitting_mode(v.splitting_mode) + "\"/>"@
}

pub fn write_splitting(out: &mut String, v: &Splitting)
    ensures
        final(out)@ == old(out)@ + ser_splitting(*v),
{
    out.append("<splitting originalBackground=\"");
    write_bool(out, v.original_background);
    out.append("\" splitOutput=\"");
    write_bool(out, v.split_output);
    out.append("\" splittingMode=\"");
    write_splitting_mode(out, v.splitting_mode);
    out.append("\"/>");
    proof {
        assert(out@ =~= old(out)@ + ser_splitting(*v));
    }
}

#[verifier::rlimit(100)]
#[verifier::spinoff_prover]
pub fn parse_splitting(s: &str, i: usize) -> (r: Result<(Splitting, usize), ParseError>)
    requires
        i <= s@.len(),
    ensures
        match r {
            Ok((v, j)) => {
                &&& i < j <= s@.len()
                &&& s@.subrange(i as int, j as int) == ser_splitting(v)
            },
            Err(_) => true,
        },
        forall|w: Splitting|
            #![trigger starts_with_at(s@, i as int, ser_splitting(w))]
            true && starts_with_at(s@, i as int, ser_splitting(w)) ==> r is Ok && (
            r->Ok_0).1 == i + ser_splitting(w).len(),
{
    proof {
        reveal_strlit("<splitting originalBackground=\"");
        reveal_strlit("\" splitOutput=\"");
        reveal_strlit("\" splittingMode=\"");
        reveal_strlit("\"/>");
        assert forall|w: Splitting|
            true && #[trigger] starts_with_at(s@, i as int, ser_splitting(w)) implies {
            let a0 = "<splitting originalBackground=\""@;
            let a1 = a0 + ser_bool(w.original_background);
            let a2 = a1 + "\" splitOutput=\""@;
            let a3 = a2 + ser_bool(w.split_output);
            let a4 = a3 + "\" splittingMode=\""@;
            let a5 = a4 + ser_splitting_mode(w.splitting_mode);
            let a6 = a5 + "\"/>"@;
            &&& starts_with_at(s@, i as int, "<splitting originalBackground=\""@)
            &&& starts_with_at(s@, i + a0.len(), ser_bool(w.original_background))
            &&& starts_with_at(s@, i + a1.len(), "\" splitOutput=\""@)
            &&& starts_with_at(s@, i + a2.len(), ser_bool(w.split_output))
            &&& starts_with_at(s@, i + a3.len(), "\" splittingMode=\""@)
            &&& starts_with_at(s@, i + a4.len(), ser_splitting_mode(w.splitting_mode))
            &&& starts_with_at(s@, i + a5.len(), "\"/>"@)
        } by {
            let a0 = "<splitting originalBackground=\""@;
            let a1 = a0 + ser_bool(w.original_background);
            let a2 = a1 + "\" splitOutput=\""@;
            let a3 = a2 + ser_bool(w.split_output);
            let a4 = a3 + "\" splittingMode=\""@;
            let a5 = a4 + ser_splitting_mode(w.splitting_mode);
            let a6 = a5 + "\"/>"@;
            starts_split(s@, i as int, a5, "\"/>"@);
            starts_split(s@, i as int, a4, ser_splitting_mode(w.splitting_mode));
            starts_split(s@, i as int, a3, "\" splittingMode=\""@);
            starts_split(s@, i as int, a2, ser_bool(w.split_output));
            starts_split(s@, i as int, a1, "\" splitOutput=\""@);
            starts_split(s@, i as int, a0, ser_bool(w.original_background));
        }
    }
    let j1 = expect(s, i, "<splitting originalBackground=\"")?;
    let (ob, j2) = parse_bool(s, j1)?;
    let j3 = expect(s, j2, "\" splitOutput=\"")?;
    let (so, j4) = parse_bool(s, j3)?;
    let j5 = expect(s, j4, "\" splittingMode=\"")?;
    let (sm, j6) = parse_splitting_mode(s, j5)?;
    let j7 = expect(s, j6, "\"/>")?;
    let v = Splitting { original_background: ob, split_output: so, splitting_mode: sm };
    proof {
        subrange_join(s@, i as int, j1 as int, j2 as int);
        subrange_join(s@, i as int, j2 as int, j3 as int);
        subrange_join(s@, i as int, j3 as int, j4 as int);
        subrange_join(s@, i as int, j4 as int, j5 as int);
        subrange_join(s@, i as int, j5 as int, j6 as int);
        subrange_join(s@, i as int, j6 as int, j7 as int);
        assert(s@.subrange(i as int, j7 as int) =~= ser_splitting(v));
    }
    Ok((v, j7))
}

} // verus!
