//! The fix-orientation stage: a rotation per image, plus shared per-page
//! black/white threshold settings.

use vstd::prelude::*;

use crate::filters::common::{ImageSettings, parse_image_settings, ser_image_settings, ser_settings_pages, write_image_settings};
use crate::numbers::{digit_stop, parse_u64, u64_dec, write_u64};
use crate::wire::{ParseError, ParseErrorKind, expect, starts_split, starts_with_at, subrange_join};

verus! {

/// A rotation in whole quarter turns, clockwise. The wire enumeration is
/// closed: only these three literals exist for this stage.
#[derive(Clone, Copy, Debug, PartialEq, Eq, Structural)]
pub enum Degrees {
    _90,
    _180,
    _270,
}

#[derive(Clone, Copy, Debug, PartialEq, Eq, Structural)]
pub struct Rotation {
    pub degrees: Degrees,
}

#[derive(Debug, Clone)]
pub struct Image {
    pub id: u32,
    pub rotation: Rotation,
}

#[derive(Debug, Clone)]
pub struct FixOrientation {
    pub image: Vec<Image>,
    pub image_settings: ImageSettings,
}

pub open spec fn ser_degrees(d: Degrees) -> Seq<char> {
    match d {
        Degrees::_90 => "90"@,
        Degrees::_180 => "180"@,
        Degrees::_270 => "270"@,
    }
}

pub fn write_degrees(out: &mut String, d: Degrees)
    ensures
        final(out)@ == old(out)@ + ser_degrees(d),
{
    match d {
        Degrees::_90 => out.append("90"),
        Degrees::_180 => out.append("180"),
        Degrees::_270 => out.append("270"),
    }
}

/// Parse a rotation literal. The enumeration is closed at the wire level:
/// the parse succeeds exactly when the input continues with one of the three
/// literals, so any other value is rejected here, before validation.
pub fn parse_degrees(s: &str, i: usize) -> (r: Result<(Degrees, usize), ParseError>)
    requires
        i <= s@.len(),
    ensures
        match r {
            Ok((d, j)) => {
                &&& i < j <= s@.len()
                &&& s@.subrange(i as int, j as int) == ser_degrees(d)
            },
            Err(_) => {
                &&& !starts_with_at(s@, i as int, "90"@)
                &&& !starts_with_at(s@, i as int, "180"@)
                &&& !starts_with_at(s@, i as int, "270"@)
            },
        },
        forall|w: Degrees|
            #![trigger starts_with_at(s@, i as int, ser_degrees(w))]
            starts_with_at(s@, i as int, ser_degrees(w)) ==> r is Ok && (r->Ok_0).1 == i
                + ser_degrees(w).len(),
{
    proof {
        reveal_strlit("90");
        reveal_strlit("180");
        reveal_strlit("270");
        assert forall|w: Degrees| #[trigger] starts_with_at(s@, i as int, ser_degrees(w)) implies i
            < s@.len() && s@[i as int] == ser_degrees(w)[0] by {
            match w {
                Degrees::_90 => {
                    assert(s@.subrange(i as int, i + 2)[0] == s@[i as int]);
                },
                Degrees::_180 => {
                    assert(s@.subrange(i as int, i + 3)[0] == s@[i as int]);
                },
                Degrees::_270 => {
                    assert(s@.subrange(i as int, i + 3)[0] == s@[i as int]);
                },
            }
        }
    }
    let n = s.unicode_len();
    proof {
        reveal_strlit("90");
        reveal_strlit("180");
        reveal_strlit("270");
    }
    if i == n {
        return Err(ParseError { pos: i, kind: ParseErrorKind::Unexpected });
    }
    let c = s.get_char(i);
    proof {
        if c != '9' && starts_with_at(s@, i as int, "90"@) {
            assert(s@.subrange(i as int, i + 2)[0] == '9');
        }
        if c != '1' && starts_with_at(s@, i as int, "180"@) {
            assert(s@.subrange(i as int, i + 3)[0] == '1');
        }
        if c != '2' && starts_with_at(s@, i as int, "270"@) {
            assert(s@.subrange(i as int, i + 3)[0] == '2');
        }
    }
    if c == '9' {
        let j = expect(s, i, "90")?;
        Ok((Degrees::_90, j))
    } else if c == '1' {
        let j = expect(s, i, "180")?;
        Ok((Degrees::_180, j))
    } else if c == '2' {
        let j = expect(s, i, "270")?;
        Ok((Degrees::_270, j))
    } else {
        Err(ParseError { pos: i, kind: ParseErrorKind::Unexpected })
    }
}

pub open spec fn ser_rotation(v: Rotation) -> Seq<char> {
    "<rotation degrees=\""@ + ser_degrees(v.degrees) + "\"/>"@
}

pub fn write_rotation(out: &mut String, v: &Rotation)
    ensures
        final(out)@ == old(out)@ + ser_rotation(*v),
{
    out.append("<rotation degrees=\"");
    write_degrees(out, v.degrees);
    out.append("\"/>");
    proof {
        assert(out@ =~= old(out)@ + ser_rotation(*v));
    }
}

#[verifier::rlimit(100)]
#[verifier::spinoff_prover]
pub fn parse_rotation(s: &str, i: usize) -> (r: Result<(Rotation, usize), ParseError>)
    requires
        i <= s@.len(),
    ensures
        match r {
            Ok((v, j)) => {
                &&& i < j <= s@.len()
                &&& s@.subrange(i as int, j as int) == ser_rotation(v)
            },
            Err(_) => true,
        },
        forall|w: Rotation|
            #![trigger starts_with_at(s@, i as int, ser_rotation(w))]
            true && starts_with_at(s@, i as int, ser_rotation(w)) ==> r is Ok && (
            r->Ok_0).1 == i + ser_rotation(w).len(),
{
    proof {
        reveal_strlit("<rotation degrees=\"");
        reveal_strlit("\"/>");
        assert forall|w: Rotation|
            true && #[trigger] starts_with_at(s@, i as int, ser_rotation(w)) implies {
            let a0 = "<rotation degrees=\""@;
            let a1 = a0 + ser_degrees(w.degrees);
            let a2 = a1 + "\"/>"@;
            &&& starts_with_at(s@, i as int, "<rotation degrees=\""@)
            &&& starts_with_at(s@, i + a0.len(), ser_degrees(w.degrees))
            &&& starts_with_at(s@, i + a1.len(), "\"/>"@)
        } by {
            let a0 = "<rotation degrees=\""@;
            let a1 = a0 + ser_degrees(w.degrees);
            let a2 = a1 + "\"/>"@;
            starts_split(s@, i as int, a1, "\"/>"@);
            starts_split(s@, i as int, a0, ser_degrees(w.degrees));
        }
    }
    let j1 = expect(s, i, "<rotation degrees=\"")?;
    let (d, j2) = parse_degrees(s, j1)?;
    let j3 = expect(s, j2, "\"/>")?;
    let v = Rotation { degrees: d };
    proof {
        subrange_join(s@, i as int, j1 as int, j2 as int);
        subrange_join(s@, i as int, j2 as int, j3 as int);
        assert(s@.subrange(i as int, j3 as int) =~= ser_rotation(v));
    }
    Ok((v, j3))
}

pub open spec fn ser_fo_image(v: Image) -> Seq<char> {
    "<image id=\""@ + u64_dec(v.id as int) + "\">"@ + ser_rotation(v.rotation) + "</image>"@
}

pub fn write_fo_image(out: &mut String, v: &Image)
    ensures
        final(out)@ == old(out)@ + ser_fo_image(*v),
{
    out.append("<image id=\"");
    write_u64(out, v.id as u64);
    out.append("\">");
    write_rotation(out, &v.rotation);
    out.append("</image>");
    proof {
        assert(out@ =~= old(out)@ + ser_fo_image(*v));
    }
}

#[verifier::rlimit(100)]
#[verifier::spinoff_prover]
pub fn parse_fo_image(s: &str, i: usize) -> (r: Result<(Image, usize), ParseError>)
    requires
        i <= s@.len(),
    ensures
        match r {
            Ok((v, j)) => {
                &&& i < j <= s@.len()
                &&& s@.subrange(i as int, j as int) == ser_fo_image(v)
            },
            Err(_) => true,
        },
        forall|w: Image|
            #![trigger starts_with_at(s@, i as int, ser_fo_image(w))]
            true && starts_with_at(s@, i as int, ser_fo_image(w)) ==> r is Ok && (
            r->Ok_0).1 == i + ser_fo_image(w).len(),
{
    proof {
        reveal_strlit("<image id=\"");
        reveal_strlit("\">");
        reveal_strlit("</image>");
        assert forall|w: Image|
            true && #[trigger] starts_with_at(s@, i as int, ser_fo_image(w)) implies {
            let a0 = "<image id=\""@;
            let a1 = a0 + u64_dec(w.id as int);
            let a2 = a1 + "\">"@;
            let a3 = a2 + ser_rotation(w.rotation);
            let a4 = a3 + "</image>"@;
            &&& starts_with_at(s@, i as int, "<image id=\""@)
            &&& starts_with_at(s@, i + a0.len(), u64_dec(w.id as int))
            &&& digit_stop(s@, i + a1.len())
            &&& starts_with_at(s@, i + a1.len(), "\">"@)
            &&& starts_with_at(s@, i + a2.len(), ser_rotation(w.rotation))
            &&& starts_with_at(s@, i + a3.len(), "</image>"@)
        } by {
            let a0 = "<image id=\""@;
            let a1 = a0 + u64_dec(w.id as int);
            let a2 = a1 + "\">"@;
            let a3 = a2 + ser_rotation(w.rotation);
            let a4 = a3 + "</image>"@;
            starts_split(s@, i as int, a3, "</image>"@);
            starts_split(s@, i as int, a2, ser_rotation(w.rotation));
            starts_split(s@, i as int, a1, "\">"@);
            starts_split(s@, i as int, a0, u64_dec(w.id as int));
            assert(s@.subrange(i + a1.len(), i + a1.len() + 2)[0] == s@[i + a1.len()]);
        }
    }
    let j1 = expect(s, i, "<image id=\"")?;
    let (id, j2) = parse_u64(s, j1, 0xffffffff)?;
    let j3 = expect(s, j2, "\">")?;
    let (rot, j4) = parse_rotation(s, j3)?;
    let j5 = expect(s, j4, "</image>")?;
    let v = Image { id: id as u32, rotation: rot };
    proof {
        subrange_join(s@, i as int, j1 as int, j2 as int);
        subrange_join(s@, i as int, j2 as int, j3 as int);
        subrange_join(s@, i as int, j3 as int, j4 as int);
        subrange_join(s@, i as int, j4 as int, j5 as int);
        assert(s@.subrange(i as int, j5 as int) =~= ser_fo_image(v));
    }
    Ok((v, j5))
}

pub open spec fn ser_fo_image_list(xs: Seq<Image>) -> Seq<char>
    decreases xs.len(),
{
    if xs.len() == 0 {
        Seq::<char>::empty()
    } else {
        ser_fo_image(xs[0]) + ser_fo_image_list(xs.drop_first())
    }
}

pub proof fn ser_fo_image_list_snoc(xs: Seq<Image>, x: Image)
    ensures
        ser_fo_image_list(xs + seq![x]) == ser_fo_image_list(xs) + ser_fo_image(x),
    decreases xs.len(),
{
    assert(ser_fo_image_list(Seq::<Image>::empty()) =~= Seq::<char>::empty());
    if xs.len() == 0 {
        assert(xs + seq![x] =~= seq![x]);
        assert(seq![x].drop_first() =~= Seq::<Image>::empty());
        assert(ser_fo_image_list(seq![x]) =~= ser_fo_image(x));
        assert(ser_fo_image_list(xs + seq![x]) =~= ser_fo_image_list(xs) + ser_fo_image(x));
    } else {
        assert((xs + seq![x]).drop_first() =~= xs.drop_first() + seq![x]);
        ser_fo_image_list_snoc(xs.drop_first(), x);
        assert(ser_fo_image_list(xs + seq![x]) =~= ser_fo_image_list(xs) + ser_fo_image(x));
    }
}

pub proof fn ser_fo_image_list_cat(xs: Seq<Image>, ys: Seq<Image>)
    ensures
        ser_fo_image_list(xs + ys) == ser_fo_image_list(xs) + ser_fo_image_list(ys),
    decreases xs.len(),
{
    if xs.len() == 0 {
        assert(xs + ys =~= ys);
        assert(ser_fo_image_list(xs) + ser_fo_image_list(ys) =~= ser_fo_image_list(ys));
    } else {
        assert((xs + ys).drop_first() =~= xs.drop_first() + ys);
        ser_fo_image_list_cat(xs.drop_first(), ys);
        assert(ser_fo_image_list(xs + ys) =~= ser_fo_image_list(xs) + ser_fo_image_list(ys));
    }
}

/// `<fix-orientation>` always holds the image-settings child, after the
/// per-image rotations.
pub open spec fn ser_fix_orientation(v: FixOrientation) -> Seq<char> {
    "<fix-orientation>"@ + ser_fo_image_list(v.image@) + ser_image_settings(v.image_settings)
        + "</fix-orientation>"@
}

pub fn write_fix_orientation(out: &mut String, v: &FixOrientation)
    ensures
        final(out)@ == old(out)@ + ser_fix_orientation(*v),
{
    out.append("<fix-orientation>");
    let n = v.image.len();
    let mut k: usize = 0;
    proof {
        assert(v.image@.take(0) =~= Seq::<Image>::empty());
        assert(ser_fo_image_list(v.image@.take(0)) =~= Seq::<char>::empty());
        assert(out@ =~= old(out)@ + "<fix-orientation>"@ + ser_fo_image_list(v.image@.take(0)));
    }
    while k < n
        invariant
            0 <= k <= n == v.image@.len(),
            out@ == old(out)@ + "<fix-orientation>"@ + ser_fo_image_list(v.image@.take(k as int)),
        decreases n - k,
    {
        write_fo_image(out, &v.image[k]);
        k = k + 1;
        proof {
            ser_fo_image_list_snoc(v.image@.take(k - 1), v.image@[k - 1]);
            assert(v.image@.take(k - 1) + seq![v.image@[k - 1]] =~= v.image@.take(k as int));
        }
    }
    proof {
        assert(v.image@.take(n as int) =~= v.image@);
    }
    write_image_settings(out, &v.image_settings);
    out.append("</fix-orientation>");
    proof {
        assert(out@ =~= old(out)@ + ser_fix_orientation(*v));
    }
}

#[verifier::rlimit(100)]
#[verifier::spinoff_prover]
#[verifier::loop_isolation(false)]
pub fn parse_fix_orientation(s: &str, i: usize) -> (r: Result<(FixOrientation, usize), ParseError>)
    requires
        i <= s@.len(),
    ensures
        match r {
            Ok((v, j)) => {
                &&& i < j <= s@.len()
                &&& true
                &&& s@.subrange(i as int, j as int) == ser_fix_orientation(v)
            },
            Err(_) => true,
        },
        forall|w: FixOrientation|
            #![trigger starts_with_at(s@, i as int, ser_fix_orientation(w))]
            true && starts_with_at(s@, i as int, ser_fix_orientation(w)) ==> r is Ok && (
            r->Ok_0).1 == i + ser_fix_orientation(w).len(),
{
    proof {
        reveal_strlit("<fix-orientation>");
        reveal_strlit("</fix-orientation>");
        reveal_strlit("<image id=\"");
        reveal_strlit("<image-settings");
        reveal_strlit("<image-settings/>");
        reveal_strlit("<image-settings>");
        assert forall|w: FixOrientation|
            true && #[trigger] starts_with_at(s@, i as int, ser_fix_orientation(w)) implies {
            let a0 = "<fix-orientation>"@;
            let a1 = a0 + ser_fo_image_list(w.image@);
            let a2 = a1 + ser_image_settings(w.image_settings);
            &&& starts_with_at(s@, i as int, a0)
            &&& starts_with_at(s@, i + a0.len(), ser_fo_image_list(w.image@))
            &&& starts_with_at(s@, i + a1.len(), ser_image_settings(w.image_settings))
            &&& s@[i + a1.len() + 6] == '-'
            &&& starts_with_at(s@, i + a2.len(), "</fix-orientation>"@)
        } by {
            let a0 = "<fix-orientation>"@;
            let a1 = a0 + ser_fo_image_list(w.image@);
            let a2 = a1 + ser_image_settings(w.image_settings);
            starts_split(s@, i as int, a2, "</fix-orientation>"@);
            starts_split(s@, i as int, a1, ser_image_settings(w.image_settings));
            starts_split(s@, i as int, a0, ser_fo_image_list(w.image@));
            if w.image_settings.page@.len() == 0 {
                assert(ser_image_settings(w.image_settings) == "<image-settings/>"@);
                assert(s@.subrange(i + a1.len(), i + a1.len() + 17)[6] == s@[i + a1.len() + 6]);
            } else {
                assert(ser_image_settings(w.image_settings) == "<image-settings>"@
                    + ser_settings_pages(w.image_settings.page@) + "</image-settings>"@);
                assert(ser_image_settings(w.image_settings)[6] == "<image-settings>"@[6]);
                assert(s@.subrange(
                    i + a1.len(),
                    i + a1.len() + ser_image_settings(w.image_settings).len(),
                )[6] == s@[i + a1.len() + 6]);
            }
        }
    }
    let j1 = expect(s, i, "<fix-orientation>")?;
    let mut xs: Vec<Image> = Vec::new();
    let mut j: usize = j1;
    let ghost mut k: int = 0;
    proof {
        assert(s@.subrange(j1 as int, j1 as int) =~= ser_fo_image_list(xs@));
    }
    loop
        invariant
            i <= j1 <= j <= s@.len(),
            k == xs@.len(),
            s@.subrange(i as int, j1 as int) == "<fix-orientation>"@,
            
            s@.subrange(j1 as int, j as int) == ser_fo_image_list(xs@),
            forall|w: FixOrientation|
                #![trigger starts_with_at(s@, i as int, ser_fix_orientation(w))]
                true && starts_with_at(s@, i as int, ser_fix_orientation(w)) && j1 == i
                    + "<fix-orientation>"@.len() ==> k <= w.image@.len() && j == j1 + ser_fo_image_list(
                    w.image@.take(k),
                ).len(),
        decreases s@.len() - j,
    {
        proof {
            assert forall|w: FixOrientation|
                true && #[trigger] starts_with_at(s@, i as int, ser_fix_orientation(w)) && j1 == i
                    + "<fix-orientation>"@.len() && k < w.image@.len() implies true && starts_with_at(
                s@,
                j as int,
                ser_fo_image(w.image@[k]),
            ) by {
                let ws = w.image@;
                assert(ws.take(k) + ws.skip(k) =~= ws);
                ser_fo_image_list_cat(ws.take(k), ws.skip(k));
                assert(starts_with_at(s@, j1 as int, ser_fo_image_list(ws)));
                starts_split(s@, j1 as int, ser_fo_image_list(ws.take(k)), ser_fo_image_list(ws.skip(k)));
                assert(ws.skip(k)[0] == ws[k]);
                assert(ws.skip(k).drop_first() =~= ws.skip(k + 1));
                assert(ser_fo_image_list(ws.skip(k)) == ser_fo_image(ws[k]) + ser_fo_image_list(ws.skip(k + 1)));
                starts_split(s@, j as int, ser_fo_image(ws[k]), ser_fo_image_list(ws.skip(k + 1)));
            }
        }
        match parse_fo_image(s, j) {
            Ok((x, j3)) => {
                proof {
                    assert forall|w: FixOrientation|
                        true && #[trigger] starts_with_at(s@, i as int, ser_fix_orientation(w)) && j1
                            == i + "<fix-orientation>"@.len() implies k < w.image@.len() && j3 == j1 + ser_fo_image_list(
                        w.image@.take(k + 1),
                    ).len() by {
                        let ws = w.image@;
                        if k >= ws.len() {
                            assert(ws.take(k) =~= ws);
                            assert(s@.subrange(j as int, j3 as int) == ser_fo_image(x));
                            reveal_strlit("\">");
                            reveal_strlit("</image>");
                            assert(ser_fo_image(x) == "<image id=\""@ + u64_dec(x.id as int)
                                + "\">"@ + ser_rotation(x.rotation) + "</image>"@);
                            assert(ser_fo_image(x).len() >= 7);
                            assert(j3 - j == ser_fo_image(x).len());
                            assert(s@[j + 6] == ser_fo_image(x)[6]) by {
                                assert(s@.subrange(j as int, j3 as int)[6] == s@[j + 6]);
                            }
                            assert(ser_fo_image(x)[6] == "<image id=\""@[6]);
                        } else {
                            assert(starts_with_at(s@, j as int, ser_fo_image(ws[k])));
                            ser_fo_image_list_snoc(ws.take(k), ws[k]);
                            assert(ws.take(k) + seq![ws[k]] =~= ws.take(k + 1));
                        }
                    }
                    ser_fo_image_list_snoc(xs@, x);
                    subrange_join(s@, j1 as int, j as int, j3 as int);
                }
                let ghost prev = xs@;
                xs.push(x);
                j = j3;
                proof {
                    k = k + 1;
                    assert(xs@ =~= prev + seq![x]);
                }
            },
            Err(_) => {
                proof {
                    assert forall|w: FixOrientation|
                        true && #[trigger] starts_with_at(s@, i as int, ser_fix_orientation(w)) && j1
                            == i + "<fix-orientation>"@.len() implies k == w.image@.len() && j == j1 + ser_fo_image_list(
                        w.image@,
                    ).len() by {
                        if k < w.image@.len() {
                            assert(starts_with_at(
                                s@,
                                j as int,
                                ser_fo_image(w.image@[k]),
                            ));
                        } else {
                            assert(w.image@.take(k) =~= w.image@);
                        }
                    }
                }
                let (settings, j4) = parse_image_settings(s, j)?;
                let j5 = expect(s, j4, "</fix-orientation>")?;
                let v = FixOrientation { image: xs, image_settings: settings };
                proof {
                    subrange_join(s@, i as int, j1 as int, j as int);
                    subrange_join(s@, i as int, j as int, j4 as int);
                    subrange_join(s@, i as int, j4 as int, j5 as int);
                    assert(s@.subrange(i as int, j5 as int) =~= ser_fix_orientation(v));
                }
                return Ok((v, j5));
            },
        }
    }
}


} // verus!
