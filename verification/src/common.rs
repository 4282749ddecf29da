//! Shared value types: 2D points, sizes, DPI pairs, and their wire codecs.
//! Several elements share one shape under different names, so the codecs take
//! the element name as a parameter.

use vstd::prelude::*;

use crate::decimal::{decimal_stop, parse_decimal, ser_decimal, wf_decimal, write_decimal, Decimal};
use crate::numbers::{digit_stop, parse_u64, u64_dec, write_u64};
use crate::wire::{expect, starts_split, starts_with_at, subrange_join, ParseError};

verus! {

/// A 2D point with exact decimal coordinates.
#[derive(Debug, Clone)]
pub struct Point {
    pub x: Decimal,
    pub y: Decimal,
}

/// A width/height pair.
#[derive(Debug, Clone)]
pub struct Size<T> {
    pub height: T,
    pub width: T,
}

/// Pixel dimensions of an image.
pub type IntSize = Size<u32>;

/// A size measured in real units.
pub type FloatSize = Size<Decimal>;

/// Dots-per-inch pair.
#[derive(Debug, Clone)]
pub struct DPI {
    pub horizontal: Decimal,
    pub vertical: Decimal,
}

pub open spec fn wf_point(p: Point) -> bool {
    wf_decimal(p.x) && wf_decimal(p.y)
}

pub open spec fn wf_float_size(v: Size<Decimal>) -> bool {
    wf_decimal(v.height) && wf_decimal(v.width)
}

pub open spec fn wf_dpi(v: DPI) -> bool {
    wf_decimal(v.horizontal) && wf_decimal(v.vertical)
}

/// `<name x="..." y="..."/>` — the shape of `point`, `p1` and `p2` elements.
pub open spec fn ser_pointlike(name: Seq<char>, p: Point) -> Seq<char> {
    seq!['<'] + name + " x=\""@ + ser_decimal(p.x) + "\" y=\""@ + ser_decimal(p.y) + "\"/>"@
}

pub fn write_pointlike(out: &mut String, name: &str, p: &Point)
    requires
        wf_point(*p),
    ensures
        final(out)@ == old(out)@ + ser_pointlike(name@, *p),
{
    out.append("<");
    out.append(name);
    out.append(" x=\"");
    write_decimal(out, &p.x);
    out.append("\" y=\"");
    write_decimal(out, &p.y);
    out.append("\"/>");
    proof {
        reveal_strlit("<");
        assert(out@ =~= old(out)@ + ser_pointlike(name@, *p));
    }
}

pub fn parse_pointlike(s: &str, i: usize, name: &str) -> (r: Result<(Point, usize), ParseError>)
    requires
        i <= s@.len(),
    ensures
        match r {
            Ok((v, j)) => {
                &&& i < j <= s@.len()
                &&& wf_point(v)
                &&& s@.subrange(i as int, j as int) == ser_pointlike(name@, v)
            },
            Err(_) => true,
        },
        forall|w: Point|
            #![trigger starts_with_at(s@, i as int, ser_pointlike(name@, w))]
            wf_point(w) && starts_with_at(s@, i as int, ser_pointlike(name@, w)) ==> r is Ok && (
            r->Ok_0).1 == i + ser_pointlike(name@, w).len(),
{
    proof {
        reveal_strlit("<");
        reveal_strlit(" x=\"");
        reveal_strlit("\" y=\"");
        reveal_strlit("\"/>");
        assert("<"@ =~= seq!['<']);
        assert forall|w: Point|
            wf_point(w) && #[trigger] starts_with_at(s@, i as int, ser_pointlike(name@, w)) implies {
            let a1 = seq!['<'];
            let a2 = a1 + name@;
            let a3 = a2 + " x=\""@;
            let a4 = a3 + ser_decimal(w.x);
            let a5 = a4 + "\" y=\""@;
            let a6 = a5 + ser_decimal(w.y);
            &&& starts_with_at(s@, i as int, a1)
            &&& starts_with_at(s@, i + a1.len(), name@)
            &&& starts_with_at(s@, i + a2.len(), " x=\""@)
            &&& starts_with_at(s@, i + a3.len(), ser_decimal(w.x))
            &&& decimal_stop(s@, i + a4.len())
            &&& starts_with_at(s@, i + a4.len(), "\" y=\""@)
            &&& starts_with_at(s@, i + a5.len(), ser_decimal(w.y))
            &&& decimal_stop(s@, i + a6.len())
            &&& starts_with_at(s@, i + a6.len(), "\"/>"@)
        } by {
            let a1 = seq!['<'];
            let a2 = a1 + name@;
            let a3 = a2 + " x=\""@;
            let a4 = a3 + ser_decimal(w.x);
            let a5 = a4 + "\" y=\""@;
            let a6 = a5 + ser_decimal(w.y);
            starts_split(s@, i as int, a6, "\"/>"@);
            starts_split(s@, i as int, a5, ser_decimal(w.y));
            starts_split(s@, i as int, a4, "\" y=\""@);
            starts_split(s@, i as int, a3, ser_decimal(w.x));
            starts_split(s@, i as int, a2, " x=\""@);
            starts_split(s@, i as int, a1, name@);
            assert(s@.subrange(i + a4.len(), i + a4.len() + 4)[0] == s@[i + a4.len()]);
            assert(s@.subrange(i + a6.len(), i + a6.len() + 3)[0] == s@[i + a6.len()]);
        }
    }
    let j1 = expect(s, i, "<")?;
    let j2 = expect(s, j1, name)?;
    let j3 = expect(s, j2, " x=\"")?;
    let (x, j4) = parse_decimal(s, j3)?;
    let j5 = expect(s, j4, "\" y=\"")?;
    let (y, j6) = parse_decimal(s, j5)?;
    let j7 = expect(s, j6, "\"/>")?;
    let p = Point { x, y };
    proof {
        reveal_strlit("<");
        subrange_join(s@, i as int, j1 as int, j2 as int);
        subrange_join(s@, i as int, j2 as int, j3 as int);
        subrange_join(s@, i as int, j3 as int, j4 as int);
        subrange_join(s@, i as int, j4 as int, j5 as int);
        subrange_join(s@, i as int, j5 as int, j6 as int);
        subrange_join(s@, i as int, j6 as int, j7 as int);
        assert(s@.subrange(i as int, j7 as int) =~= ser_pointlike(name@, p));
    }
    Ok((p, j7))
}

pub open spec fn wf_points(pts: Seq<Point>) -> bool {
    forall|k: int| 0 <= k < pts.len() ==> wf_point(#[trigger] pts[k])
}

/// The text of a run of `<point .../>` elements.
pub open spec fn ser_points(pts: Seq<Point>) -> Seq<char>
    decreases pts.len(),
{
    if pts.len() == 0 {
        Seq::<char>::empty()
    } else {
        ser_pointlike("point"@, pts[0]) + ser_points(pts.drop_first())
    }
}

pub proof fn ser_points_snoc(pts: Seq<Point>, p: Point)
    ensures
        ser_points(pts + seq![p]) == ser_points(pts) + ser_pointlike("point"@, p),
    decreases pts.len(),
{
    assert(ser_points(Seq::<Point>::empty()) =~= Seq::<char>::empty());
    if pts.len() == 0 {
        assert(pts + seq![p] =~= seq![p]);
        assert(seq![p].drop_first() =~= Seq::<Point>::empty());
        assert(ser_points(seq![p]) =~= ser_pointlike("point"@, p));
        assert(ser_points(pts + seq![p]) =~= ser_points(pts) + ser_pointlike("point"@, p));
    } else {
        assert((pts + seq![p]).drop_first() =~= pts.drop_first() + seq![p]);
        ser_points_snoc(pts.drop_first(), p);
        assert(ser_points(pts + seq![p]) =~= ser_points(pts) + ser_pointlike("point"@, p));
    }
}

pub proof fn ser_points_cat(xs: Seq<Point>, ys: Seq<Point>)
    ensures
        ser_points(xs + ys) == ser_points(xs) + ser_points(ys),
    decreases xs.len(),
{
    if xs.len() == 0 {
        assert(xs + ys =~= ys);
        assert(ser_points(xs) + ser_points(ys) =~= ser_points(ys));
    } else {
        assert((xs + ys).drop_first() =~= xs.drop_first() + ys);
        ser_points_cat(xs.drop_first(), ys);
        assert(ser_points(xs + ys) =~= ser_points(xs) + ser_points(ys));
    }
}

pub fn write_points(out: &mut String, pts: &Vec<Point>)
    requires
        wf_points(pts@),
    ensures
        final(out)@ == old(out)@ + ser_points(pts@),
{
    let n = pts.len();
    let mut k: usize = 0;
    proof {
        assert(pts@.take(0) =~= Seq::<Point>::empty());
    }
    while k < n
        invariant
            0 <= k <= n == pts@.len(),
            wf_points(pts@),
            out@ == old(out)@ + ser_points(pts@.take(k as int)),
        decreases n - k,
    {
        write_pointlike(out, "point", &pts[k]);
        k = k + 1;
        proof {
            ser_points_snoc(pts@.take(k - 1), pts@[k - 1]);
            assert(pts@.take(k - 1) + seq![pts@[k - 1]] =~= pts@.take(k as int));
        }
    }
    proof {
        assert(pts@.take(n as int) =~= pts@);
    }
}

/// Parse exactly `count` `<point .../>` elements.
pub fn parse_points_exact(s: &str, i: usize, count: usize) -> (r: Result<
    (Vec<Point>, usize),
    ParseError,
>)
    requires
        i <= s@.len(),
    ensures
        match r {
            Ok((pts, j)) => {
                &&& i <= j <= s@.len()
                &&& pts@.len() == count
                &&& wf_points(pts@)
                &&& s@.subrange(i as int, j as int) == ser_points(pts@)
            },
            Err(_) => true,
        },
        forall|ws: Seq<Point>|
            #![trigger starts_with_at(s@, i as int, ser_points(ws))]
            ws.len() == count && wf_points(ws) && starts_with_at(s@, i as int, ser_points(ws))
                ==> r is Ok && (r->Ok_0).1 == i + ser_points(ws).len(),
{
    let mut pts: Vec<Point> = Vec::new();
    let mut j: usize = i;
    let mut k: usize = 0;
    proof {
        assert(s@.subrange(i as int, i as int) =~= ser_points(pts@));
    }
    while k < count
        invariant
            i <= j <= s@.len(),
            k == pts@.len(),
            k <= count,
            wf_points(pts@),
            s@.subrange(i as int, j as int) == ser_points(pts@),
            forall|ws: Seq<Point>|
                #![trigger starts_with_at(s@, i as int, ser_points(ws))]
                ws.len() == count && wf_points(ws) && starts_with_at(s@, i as int, ser_points(ws))
                    ==> k <= ws.len() && j == i + ser_points(ws.take(k as int)).len(),
        decreases count - k,
    {
        proof {
            assert forall|ws: Seq<Point>|
                ws.len() == count && wf_points(ws) && #[trigger] starts_with_at(
                    s@,
                    i as int,
                    ser_points(ws),
                ) implies wf_point(ws[k as int]) && starts_with_at(
                s@,
                j as int,
                ser_pointlike("point"@, ws[k as int]),
            ) by {
                assert(ws.take(k as int) + ws.skip(k as int) =~= ws);
                ser_points_cat(ws.take(k as int), ws.skip(k as int));
                starts_split(
                    s@,
                    i as int,
                    ser_points(ws.take(k as int)),
                    ser_points(ws.skip(k as int)),
                );
                assert(ws.skip(k as int)[0] == ws[k as int]);
                assert(ws.skip(k as int).drop_first() =~= ws.skip(k + 1));
                assert(ser_points(ws.skip(k as int)) == ser_pointlike("point"@, ws[k as int])
                    + ser_points(ws.skip(k + 1)));
                starts_split(
                    s@,
                    j as int,
                    ser_pointlike("point"@, ws[k as int]),
                    ser_points(ws.skip(k + 1)),
                );
            }
        }
        let (p, j2) = parse_pointlike(s, j, "point")?;
        proof {
            assert forall|ws: Seq<Point>|
                ws.len() == count && wf_points(ws) && #[trigger] starts_with_at(
                    s@,
                    i as int,
                    ser_points(ws),
                ) implies j2 == i + ser_points(ws.take(k + 1)).len() by {
                ser_points_snoc(ws.take(k as int), ws[k as int]);
                assert(ws.take(k as int) + seq![ws[k as int]] =~= ws.take(k + 1));
            }
            ser_points_snoc(pts@, p);
            subrange_join(s@, i as int, j as int, j2 as int);
        }
        let ghost prev = pts@;
        pts.push(p);
        j = j2;
        k = k + 1;
        proof {
            assert(pts@ =~= prev + seq![p]);
        }
    }
    proof {
        assert forall|ws: Seq<Point>|
            ws.len() == count && wf_points(ws) && #[trigger] starts_with_at(
                s@,
                i as int,
                ser_points(ws),
            ) implies j == i + ser_points(ws).len() by {
            assert(ws.take(k as int) =~= ws);
        }
    }
    Ok((pts, j))
}

/// Parse `<point .../>` elements as long as they continue.
pub fn parse_points_many(s: &str, i: usize) -> (r: (Vec<Point>, usize))
    requires
        i <= s@.len(),
    ensures
        ({
            let (pts, j) = r;
            &&& i <= j <= s@.len()
            &&& wf_points(pts@)
            &&& s@.subrange(i as int, j as int) == ser_points(pts@)
        }),
        forall|ws: Seq<Point>|
            #![trigger starts_with_at(s@, i as int, ser_points(ws))]
            wf_points(ws) && starts_with_at(s@, i as int, ser_points(ws)) && (forall|p: Point|
                wf_point(p) ==> !starts_with_at(
                    s@,
                    i + ser_points(ws).len(),
                    #[trigger] ser_pointlike("point"@, p),
                )) ==> r.1 == i + ser_points(ws).len(),
{
    let mut pts: Vec<Point> = Vec::new();
    let mut j: usize = i;
    let ghost mut k: int = 0;
    proof {
        assert(s@.subrange(i as int, i as int) =~= ser_points(pts@));
    }
    loop
        invariant
            i <= j <= s@.len(),
            k == pts@.len(),
            wf_points(pts@),
            s@.subrange(i as int, j as int) == ser_points(pts@),
            forall|ws: Seq<Point>|
                #![trigger starts_with_at(s@, i as int, ser_points(ws))]
                wf_points(ws) && starts_with_at(s@, i as int, ser_points(ws)) && (forall|p: Point|
                    wf_point(p) ==> !starts_with_at(
                        s@,
                        i + ser_points(ws).len(),
                        #[trigger] ser_pointlike("point"@, p),
                    )) ==> k <= ws.len() && j == i + ser_points(ws.take(k)).len(),
        decreases s@.len() - j,
    {
        proof {
            assert forall|ws: Seq<Point>|
                wf_points(ws) && #[trigger] starts_with_at(s@, i as int, ser_points(ws)) && (
                forall|p: Point|
                    wf_point(p) ==> !starts_with_at(
                        s@,
                        i + ser_points(ws).len(),
                        #[trigger] ser_pointlike("point"@, p),
                    )) && k < ws.len() implies wf_point(ws[k]) && starts_with_at(
                s@,
                j as int,
                ser_pointlike("point"@, ws[k]),
            ) by {
                assert(ws.take(k) + ws.skip(k) =~= ws);
                ser_points_cat(ws.take(k), ws.skip(k));
                starts_split(s@, i as int, ser_points(ws.take(k)), ser_points(ws.skip(k)));
                assert(ws.skip(k)[0] == ws[k]);
                assert(ws.skip(k).drop_first() =~= ws.skip(k + 1));
                assert(ser_points(ws.skip(k)) == ser_pointlike("point"@, ws[k]) + ser_points(
                    ws.skip(k + 1),
                ));
                starts_split(s@, j as int, ser_pointlike("point"@, ws[k]), ser_points(
                    ws.skip(k + 1),
                ));
            }
        }
        match parse_pointlike(s, j, "point") {
            Ok((p, j2)) => {
                proof {
                    assert forall|ws: Seq<Point>|
                        wf_points(ws) && #[trigger] starts_with_at(s@, i as int, ser_points(ws))
                            && (forall|q: Point|
                            wf_point(q) ==> !starts_with_at(
                                s@,
                                i + ser_points(ws).len(),
                                #[trigger] ser_pointlike("point"@, q),
                            )) implies k < ws.len() && j2 == i + ser_points(
                        ws.take(k + 1),
                    ).len() by {
                        if k >= ws.len() {
                            assert(ws.take(k) =~= ws);
                            assert(s@.subrange(j as int, j2 as int) == ser_pointlike(
                                "point"@,
                                p,
                            ));
                            assert(starts_with_at(s@, j as int, ser_pointlike("point"@, p)));
                        } else {
                            ser_points_snoc(ws.take(k), ws[k]);
                            assert(ws.take(k) + seq![ws[k]] =~= ws.take(k + 1));
                        }
                    }
                    ser_points_snoc(pts@, p);
                    subrange_join(s@, i as int, j as int, j2 as int);
                }
                let ghost prev = pts@;
                pts.push(p);
                j = j2;
                proof {
                    k = k + 1;
                    assert(pts@ =~= prev + seq![p]);
                }
            },
            Err(_) => {
                proof {
                    assert forall|ws: Seq<Point>|
                        wf_points(ws) && #[trigger] starts_with_at(s@, i as int, ser_points(ws))
                            && (forall|p: Point|
                            wf_point(p) ==> !starts_with_at(
                                s@,
                                i + ser_points(ws).len(),
                                #[trigger] ser_pointlike("point"@, p),
                            )) implies j == i + ser_points(ws).len() by {
                        if k < ws.len() {
                            assert(starts_with_at(s@, j as int, ser_pointlike("point"@, ws[k])));
                        } else {
                            assert(ws.take(k) =~= ws);
                        }
                    }
                }
                return (pts, j);
            },
        }
    }
}

/// `<name height="..." width="..."/>` with integer dimensions.
pub open spec fn ser_int_size(name: Seq<char>, v: Size<u32>) -> Seq<char> {
    seq!['<'] + name + " height=\""@ + u64_dec(v.height as int) + "\" width=\""@ + u64_dec(
        v.width as int,
    ) + "\"/>"@
}

pub fn write_int_size(out: &mut String, name: &str, v: &Size<u32>)
    ensures
        final(out)@ == old(out)@ + ser_int_size(name@, *v),
{
    out.append("<");
    out.append(name);
    out.append(" height=\"");
    write_u64(out, v.height as u64);
    out.append("\" width=\"");
    write_u64(out, v.width as u64);
    out.append("\"/>");
    proof {
        reveal_strlit("<");
        assert(out@ =~= old(out)@ + ser_int_size(name@, *v));
    }
}

pub fn parse_int_size(s: &str, i: usize, name: &str) -> (r: Result<
    (Size<u32>, usize),
    ParseError,
>)
    requires
        i <= s@.len(),
    ensures
        match r {
            Ok((v, j)) => {
                &&& i < j <= s@.len()
                &&& s@.subrange(i as int, j as int) == ser_int_size(name@, v)
            },
            Err(_) => true,
        },
        forall|w: Size<u32>|
            #![trigger starts_with_at(s@, i as int, ser_int_size(name@, w))]
            true && starts_with_at(s@, i as int, ser_int_size(name@, w)) ==> r is Ok && (
            r->Ok_0).1 == i + ser_int_size(name@, w).len(),
{
    proof {
        reveal_strlit(" height=\"");
        reveal_strlit("\" width=\"");
        reveal_strlit("\"/>");
        reveal_strlit("<");
        assert("<"@ =~= seq!['<']);
        assert forall|w: Size<u32>|
            true && #[trigger] starts_with_at(s@, i as int, ser_int_size(name@, w)) implies {
            let a0 = seq!['<'];
            let a1 = a0 + name@;
            let a2 = a1 + " height=\""@;
            let a3 = a2 + u64_dec(w.height as int);
            let a4 = a3 + "\" width=\""@;
            let a5 = a4 + u64_dec(w.width as int);
            let a6 = a5 + "\"/>"@;
            &&& starts_with_at(s@, i as int, seq!['<'])
            &&& starts_with_at(s@, i + a0.len(), name@)
            &&& starts_with_at(s@, i + a1.len(), " height=\""@)
            &&& starts_with_at(s@, i + a2.len(), u64_dec(w.height as int))
            &&& digit_stop(s@, i + a3.len())
            &&& starts_with_at(s@, i + a3.len(), "\" width=\""@)
            &&& starts_with_at(s@, i + a4.len(), u64_dec(w.width as int))
            &&& digit_stop(s@, i + a5.len())
            &&& starts_with_at(s@, i + a5.len(), "\"/>"@)
        } by {
            let a0 = seq!['<'];
            let a1 = a0 + name@;
            let a2 = a1 + " height=\""@;
            let a3 = a2 + u64_dec(w.height as int);
            let a4 = a3 + "\" width=\""@;
            let a5 = a4 + u64_dec(w.width as int);
            let a6 = a5 + "\"/>"@;
            starts_split(s@, i as int, a5, "\"/>"@);
            starts_split(s@, i as int, a4, u64_dec(w.width as int));
            starts_split(s@, i as int, a3, "\" width=\""@);
            starts_split(s@, i as int, a2, u64_dec(w.height as int));
            starts_split(s@, i as int, a1, " height=\""@);
            starts_split(s@, i as int, a0, name@);
            assert(s@.subrange(i + a3.len(), i + a3.len() + 9)[0] == s@[i + a3.len()]);
            assert(s@.subrange(i + a5.len(), i + a5.len() + 3)[0] == s@[i + a5.len()]);
        }
    }
    let j1 = expect(s, i, "<")?;
    let j2 = expect(s, j1, name)?;
    let j3 = expect(s, j2, " height=\"")?;
    let (h, j4) = parse_u64(s, j3, 0xffffffff)?;
    let j5 = expect(s, j4, "\" width=\"")?;
    let (w, j6) = parse_u64(s, j5, 0xffffffff)?;
    let j7 = expect(s, j6, "\"/>")?;
    let v = Size { height: h as u32, width: w as u32 };
    proof {
        reveal_strlit("<");
        subrange_join(s@, i as int, j1 as int, j2 as int);
        subrange_join(s@, i as int, j2 as int, j3 as int);
        subrange_join(s@, i as int, j3 as int, j4 as int);
        subrange_join(s@, i as int, j4 as int, j5 as int);
        subrange_join(s@, i as int, j5 as int, j6 as int);
        subrange_join(s@, i as int, j6 as int, j7 as int);
        assert(s@.subrange(i as int, j7 as int) =~= ser_int_size(name@, v));
    }
    Ok((v, j7))
}

/// `<name height="..." width="..."/>` with real dimensions.
pub open spec fn ser_float_size(name: Seq<char>, v: Size<Decimal>) -> Seq<char> {
    seq!['<'] + name + " height=\""@ + ser_decimal(v.height) + "\" width=\""@ + ser_decimal(
        v.width,
    ) + "\"/>"@
}

pub fn write_float_size(out: &mut String, name: &str, v: &Size<Decimal>)
    requires
        wf_float_size(*v),
    ensures
        final(out)@ == old(out)@ + ser_float_size(name@, *v),
{
    out.append("<");
    out.append(name);
    out.append(" height=\"");
    write_decimal(out, &v.height);
    out.append("\" width=\"");
    write_decimal(out, &v.width);
    out.append("\"/>");
    proof {
        reveal_strlit("<");
        assert(out@ =~= old(out)@ + ser_float_size(name@, *v));
    }
}

pub fn parse_float_size(s: &str, i: usize, name: &str) -> (r: Result<
    (Size<Decimal>, usize),
    ParseError,
>)
    requires
        i <= s@.len(),
    ensures
        match r {
            Ok((v, j)) => {
                &&& i < j <= s@.len()
                &&& wf_float_size(v)
                &&& s@.subrange(i as int, j as int) == ser_float_size(name@, v)
            },
            Err(_) => true,
        },
        forall|w: Size<Decimal>|
            #![trigger starts_with_at(s@, i as int, ser_float_size(name@, w))]
            wf_float_size(w) && starts_with_at(s@, i as int, ser_float_size(name@, w)) ==> r is Ok && (
            r->Ok_0).1 == i + ser_float_size(name@, w).len(),
{
    proof {
        reveal_strlit(" height=\"");
        reveal_strlit("\" width=\"");
        reveal_strlit("\"/>");
        reveal_strlit("<");
        assert("<"@ =~= seq!['<']);
        assert forall|w: Size<Decimal>|
            wf_float_size(w) && #[trigger] starts_with_at(s@, i as int, ser_float_size(name@, w)) implies {
            let a0 = seq!['<'];
            let a1 = a0 + name@;
            let a2 = a1 + " height=\""@;
            let a3 = a2 + ser_decimal(w.height);
            let a4 = a3 + "\" width=\""@;
            let a5 = a4 + ser_decimal(w.width);
            let a6 = a5 + "\"/>"@;
            &&& starts_with_at(s@, i as int, seq!['<'])
            &&& starts_with_at(s@, i + a0.len(), name@)
            &&& starts_with_at(s@, i + a1.len(), " height=\""@)
            &&& starts_with_at(s@, i + a2.len(), ser_decimal(w.height))
            &&& decimal_stop(s@, i + a3.len())
            &&& starts_with_at(s@, i + a3.len(), "\" width=\""@)
            &&& starts_with_at(s@, i + a4.len(), ser_decimal(w.width))
            &&& decimal_stop(s@, i + a5.len())
            &&& starts_with_at(s@, i + a5.len(), "\"/>"@)
        } by {
            let a0 = seq!['<'];
            let a1 = a0 + name@;
            let a2 = a1 + " height=\""@;
            let a3 = a2 + ser_decimal(w.height);
            let a4 = a3 + "\" width=\""@;
            let a5 = a4 + ser_decimal(w.width);
            let a6 = a5 + "\"/>"@;
            starts_split(s@, i as int, a5, "\"/>"@);
            starts_split(s@, i as int, a4, ser_decimal(w.width));
            starts_split(s@, i as int, a3, "\" width=\""@);
            starts_split(s@, i as int, a2, ser_decimal(w.height));
            starts_split(s@, i as int, a1, " height=\""@);
            starts_split(s@, i as int, a0, name@);
            assert(s@.subrange(i + a3.len(), i + a3.len() + 9)[0] == s@[i + a3.len()]);
            assert(s@.subrange(i + a5.len(), i + a5.len() + 3)[0] == s@[i + a5.len()]);
        }
    }
    let j1 = expect(s, i, "<")?;
    let j2 = expect(s, j1, name)?;
    let j3 = expect(s, j2, " height=\"")?;
    let (h, j4) = parse_decimal(s, j3)?;
    let j5 = expect(s, j4, "\" width=\"")?;
    let (w, j6) = parse_decimal(s, j5)?;
    let j7 = expect(s, j6, "\"/>")?;
    let v = Size { height: h, width: w };
    proof {
        reveal_strlit("<");
        subrange_join(s@, i as int, j1 as int, j2 as int);
        subrange_join(s@, i as int, j2 as int, j3 as int);
        subrange_join(s@, i as int, j3 as int, j4 as int);
        subrange_join(s@, i as int, j4 as int, j5 as int);
        subrange_join(s@, i as int, j5 as int, j6 as int);
        subrange_join(s@, i as int, j6 as int, j7 as int);
        assert(s@.subrange(i as int, j7 as int) =~= ser_float_size(name@, v));
    }
    Ok((v, j7))
}

/// `<dpi horizontal="..." vertical="..."/>`.
pub open spec fn ser_dpi(v: DPI) -> Seq<char> {
    "<dpi horizontal=\""@ + ser_decimal(v.horizontal) + "\" vertical=\""@ + ser_decimal(v.vertical)
        + "\"/>"@
}

pub fn write_dpi(out: &mut String, v: &DPI)
    requires
        wf_dpi(*v),
    ensures
        final(out)@ == old(out)@ + ser_dpi(*v),
{
    out.append("<dpi horizontal=\"");
    write_decimal(out, &v.horizontal);
    out.append("\" vertical=\"");
    write_decimal(out, &v.vertical);
    out.append("\"/>");
    proof {
        assert(out@ =~= old(out)@ + ser_dpi(*v));
    }
}

pub fn parse_dpi(s: &str, i: usize) -> (r: Result<(DPI, usize), ParseError>)
    requires
        i <= s@.len(),
    ensures
        match r {
            Ok((v, j)) => {
                &&& i < j <= s@.len()
                &&& wf_dpi(v)
                &&& s@.subrange(i as int, j as int) == ser_dpi(v)
            },
            Err(_) => true,
        },
        forall|w: DPI|
            #![trigger starts_with_at(s@, i as int, ser_dpi(w))]
            wf_dpi(w) && starts_with_at(s@, i as int, ser_dpi(w)) ==> r is Ok && (
            r->Ok_0).1 == i + ser_dpi(w).len(),
{
    proof {
        reveal_strlit("<dpi horizontal=\"");
        reveal_strlit("\" vertical=\"");
        reveal_strlit("\"/>");
        assert forall|w: DPI|
            wf_dpi(w) && #[trigger] starts_with_at(s@, i as int, ser_dpi(w)) implies {
            let a0 = "<dpi horizontal=\""@;
            let a1 = a0 + ser_decimal(w.horizontal);
            let a2 = a1 + "\" vertical=\""@;
            let a3 = a2 + ser_decimal(w.vertical);
            let a4 = a3 + "\"/>"@;
            &&& starts_with_at(s@, i as int, "<dpi horizontal=\""@)
            &&& starts_with_at(s@, i + a0.len(), ser_decimal(w.horizontal))
            &&& decimal_stop(s@, i + a1.len())
            &&& starts_with_at(s@, i + a1.len(), "\" vertical=\""@)
            &&& starts_with_at(s@, i + a2.len(), ser_decimal(w.vertical))
            &&& decimal_stop(s@, i + a3.len())
            &&& starts_with_at(s@, i + a3.len(), "\"/>"@)
        } by {
            let a0 = "<dpi horizontal=\""@;
            let a1 = a0 + ser_decimal(w.horizontal);
            let a2 = a1 + "\" vertical=\""@;
            let a3 = a2 + ser_decimal(w.vertical);
            let a4 = a3 + "\"/>"@;
            starts_split(s@, i as int, a3, "\"/>"@);
            starts_split(s@, i as int, a2, ser_decimal(w.vertical));
            starts_split(s@, i as int, a1, "\" vertical=\""@);
            starts_split(s@, i as int, a0, ser_decimal(w.horizontal));
            assert(s@.subrange(i + a1.len(), i + a1.len() + 12)[0] == s@[i + a1.len()]);
            assert(s@.subrange(i + a3.len(), i + a3.len() + 3)[0] == s@[i + a3.len()]);
        }
    }
    let j1 = expect(s, i, "<dpi horizontal=\"")?;
    let (h, j2) = parse_decimal(s, j1)?;
    let j3 = expect(s, j2, "\" vertical=\"")?;
    let (v2, j4) = parse_decimal(s, j3)?;
    let j5 = expect(s, j4, "\"/>")?;
    let v = DPI { horizontal: h, vertical: v2 };
    proof {
        subrange_join(s@, i as int, j1 as int, j2 as int);
        subrange_join(s@, i as int, j2 as int, j3 as int);
        subrange_join(s@, i as int, j3 as int, j4 as int);
        subrange_join(s@, i as int, j4 as int, j5 as int);
        assert(s@.subrange(i as int, j5 as int) =~= ser_dpi(v));
    }
    Ok((v, j5))
}

} // verus!
