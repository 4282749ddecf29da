//! Zone annotations on an output page: tagged polygon overlays.

use vstd::prelude::*;

use crate::filters::common::{parse_outline, ser_outline, wf_outline, write_outline, Outline};
use crate::wire::{starts_split, starts_with_at, expect, subrange_join, ParseError, ParseErrorKind};

verus! {

/// The layer a picture zone paints on.
#[derive(Clone, Copy, Debug, PartialEq, Eq, Structural)]
pub enum Layer {
    Painter2,
}

/// How a zone was categorised.
#[derive(Clone, Copy, Debug, PartialEq, Eq, Structural)]
pub enum ZoneCategory {
    Auto,
}

#[derive(Clone, Copy, Debug, PartialEq, Eq, Structural)]
pub struct PictureZoneProperty {
    pub layer: Layer,
}

#[derive(Clone, Copy, Debug, PartialEq, Eq, Structural)]
pub struct ZoneCategoryProperty {
    pub category: ZoneCategory,
}

#[derive(Clone, Copy, Debug, PartialEq, Eq, Structural)]
pub enum Property {
    PictureZone(PictureZoneProperty),
    ZoneCategory(ZoneCategoryProperty),
}

#[derive(Debug, Clone)]
pub struct Properties {
    pub property: Vec<Property>,
}

#[derive(Debug, Clone)]
pub struct Zone {
    pub spline: Outline,
    pub properties: Properties,
}

#[derive(Debug, Clone)]
pub struct Zones {
    pub zone: Vec<Zone>,
}

pub open spec fn wf_zone(v: Zone) -> bool {
    wf_outline(v.spline)
}

pub open spec fn wf_zones(v: Zones) -> bool {
    forall|k: int| 0 <= k < v.zone@.len() ==> wf_zone(#[trigger] v.zone@[k])
}

/// The two property shapes carry their attributes in their own orders.
pub open spec fn ser_property(v: Property) -> Seq<char> {
    match v {
        Property::PictureZone(p) => "<property layer=\"painter2\" type=\"PictureZoneProperty\"/>"@,
        Property::ZoneCategory(p) => "<property type=\"ZoneCategoryProperty\" zoneCategory=\"auto\"/>"@,
    }
}

pub fn write_property(out: &mut String, v: &Property)
    ensures
        final(out)@ == old(out)@ + ser_property(*v),
{
    match v {
        Property::PictureZone(_) => out.append(
            "<property layer=\"painter2\" type=\"PictureZoneProperty\"/>",
        ),
        Property::ZoneCategory(_) => out.append(
            "<property type=\"ZoneCategoryProperty\" zoneCategory=\"auto\"/>",
        ),
    }
}

pub fn parse_property(s: &str, i: usize) -> (r: Result<(Property, usize), ParseError>)
    requires
        i <= s@.len(),
    ensures
        match r {
            Ok((v, j)) => {
                &&& i < j <= s@.len()
                &&& s@.subrange(i as int, j as int) == ser_property(v)
            },
            Err(_) => true,
        },
        forall|w: Property|
            #![trigger starts_with_at(s@, i as int, ser_property(w))]
            starts_with_at(s@, i as int, ser_property(w)) ==> r is Ok && (r->Ok_0).1 == i
                + ser_property(w).len(),
{
    let n = s.unicode_len();
    proof {
        reveal_strlit("<property layer=\"painter2\" type=\"PictureZoneProperty\"/>");
        reveal_strlit("<property type=\"ZoneCategoryProperty\" zoneCategory=\"auto\"/>");
        assert forall|w: Property| #[trigger] starts_with_at(s@, i as int, ser_property(w)) implies
            i + 11 <= s@.len() && (w is PictureZone ==> s@[i + 10] == 'l') && (w is ZoneCategory
            ==> s@[i + 10] == 't') by {
            match w {
                Property::PictureZone(_) => {
                    assert(s@.subrange(i as int, i + 55)[10] == s@[i + 10]);
                },
                Property::ZoneCategory(_) => {
                    assert(s@.subrange(i as int, i + 59)[10] == s@[i + 10]);
                },
            }
        }
    }
    if n - i >= 11 && s.get_char(i + 10) == 'l' {
        let j = expect(s, i, "<property layer=\"painter2\" type=\"PictureZoneProperty\"/>")?;
        Ok((Property::PictureZone(PictureZoneProperty { layer: Layer::Painter2 }), j))
    } else {
        let j = expect(s, i, "<property type=\"ZoneCategoryProperty\" zoneCategory=\"auto\"/>")?;
        Ok((Property::ZoneCategory(ZoneCategoryProperty { category: ZoneCategory::Auto }), j))
    }
}

pub open spec fn ser_property_list(xs: Seq<Property>) -> Seq<char>
    decreases xs.len(),
{
    if xs.len() == 0 {
        Seq::<char>::empty()
    } else {
        ser_property(xs[0]) + ser_property_list(xs.drop_first())
    }
}

pub proof fn ser_property_list_snoc(xs: Seq<Property>, x: Property)
    ensures
        ser_property_list(xs + seq![x]) == ser_property_list(xs) + ser_property(x),
    decreases xs.len(),
{
    assert(ser_property_list(Seq::<Property>::empty()) =~= Seq::<char>::empty());
    if xs.len() == 0 {
        assert(xs + seq![x] =~= seq![x]);
        assert(seq![x].drop_first() =~= Seq::<Property>::empty());
        assert(ser_property_list(seq![x]) =~= ser_property(x));
        assert(ser_property_list(xs + seq![x]) =~= ser_property_list(xs) + ser_property(x));
    } else {
        assert((xs + seq![x]).drop_first() =~= xs.drop_first() + seq![x]);
        ser_property_list_snoc(xs.drop_first(), x);
        assert(ser_property_list(xs + seq![x]) =~= ser_property_list(xs) + ser_property(x));
    }
}

pub proof fn ser_property_list_cat(xs: Seq<Property>, ys: Seq<Property>)
    ensures
        ser_property_list(xs + ys) == ser_property_list(xs) + ser_property_list(ys),
    decreases xs.len(),
{
    if xs.len() == 0 {
        assert(xs + ys =~= ys);
        assert(ser_property_list(xs) + ser_property_list(ys) =~= ser_property_list(ys));
    } else {
        assert((xs + ys).drop_first() =~= xs.drop_first() + ys);
        ser_property_list_cat(xs.drop_first(), ys);
        assert(ser_property_list(xs + ys) =~= ser_property_list(xs) + ser_property_list(ys));
    }
}

/// `<properties/>` when the table is empty, else the entries between open and
/// close tags.
pub open spec fn ser_properties(v: Properties) -> Seq<char> {
    if v.property@.len() == 0 {
        "<properties/>"@
    } else {
        "<properties>"@ + ser_property_list(v.property@) + "</properties>"@
    }
}

pub fn write_properties(out: &mut String, v: &Properties)
    
    ensures
        final(out)@ == old(out)@ + ser_properties(*v),
{
    if v.property.len() == 0 {
        out.append("<properties/>");
        return ;
    }
    out.append("<properties>");
    let n = v.property.len();
    let mut k: usize = 0;
    proof {
        assert(v.property@.take(0) =~= Seq::<Property>::empty());
        assert(ser_property_list(v.property@.take(0)) =~= Seq::<char>::empty());
        assert(out@ =~= old(out)@ + "<properties>"@ + ser_property_list(v.property@.take(0)));
    }
    while k < n
        invariant
            0 < n == v.property@.len(),
            0 <= k <= n,
            
            out@ == old(out)@ + "<properties>"@ + ser_property_list(v.property@.take(k as int)),
        decreases n - k,
    {
        write_property(out, &v.property[k]);
        k = k + 1;
        proof {
            ser_property_list_snoc(v.property@.take(k - 1), v.property@[k - 1]);
            assert(v.property@.take(k - 1) + seq![v.property@[k - 1]] =~= v.property@.take(k as int));
        }
    }
    out.append("</properties>");
    proof {
        assert(v.property@.take(n as int) =~= v.property@);
        assert(out@ =~= old(out)@ + ser_properties(*v));
    }
}

#[verifier::rlimit(100)]
#[verifier::spinoff_prover]
#[verifier::loop_isolation(false)]
pub fn parse_properties(s: &str, i: usize) -> (r: Result<(Properties, usize), ParseError>)
    requires
        i <= s@.len(),
    ensures
        match r {
            Ok((v, j)) => {
                &&& i < j <= s@.len()
                &&& true
                &&& s@.subrange(i as int, j as int) == ser_properties(v)
            },
            Err(_) => true,
        },
        forall|w: Properties|
            #![trigger starts_with_at(s@, i as int, ser_properties(w))]
            true && starts_with_at(s@, i as int, ser_properties(w)) ==> r is Ok && (
            r->Ok_0).1 == i + ser_properties(w).len(),
{
    let n = s.unicode_len();
    proof {
        reveal_strlit("<properties");
        reveal_strlit("/>");
        reveal_strlit(">");
        reveal_strlit("<properties/>");
        reveal_strlit("<properties>");
        reveal_strlit("</properties>");
        reveal_strlit("<property ");
        assert forall|w: Properties|
            true && #[trigger] starts_with_at(s@, i as int, ser_properties(w)) implies {
            let a0 = "<properties"@;
            &&& starts_with_at(s@, i as int, a0)
            &&& i + a0.len() < s@.len()
            &&& (w.property@.len() == 0 ==> s@[i + a0.len()] == '/' && starts_with_at(
                s@,
                i + a0.len(),
                "/>"@,
            ))
            &&& (w.property@.len() > 0 ==> s@[i + a0.len()] == '>' && starts_with_at(
                s@,
                i + a0.len(),
                ">"@,
            ) && starts_with_at(
                s@,
                i + a0.len() + 1,
                ser_property_list(w.property@),
            ) && starts_with_at(
                s@,
                i + a0.len() + 1 + ser_property_list(w.property@).len(),
                "</properties>"@,
            ))
        } by {
            let a0 = "<properties"@;
            if w.property@.len() == 0 {
                assert(ser_properties(w) == "<properties/>"@);
                assert(starts_with_at(s@, i as int, a0 + "/>"@)) by {
                    assert(a0 + "/>"@ =~= "<properties/>"@);
                }
                starts_split(s@, i as int, a0, "/>"@);
                assert(s@.subrange(i + a0.len(), i + a0.len() + 2)[0] == s@[i + a0.len()]);
            } else {
                let lst = ser_property_list(w.property@);
                assert(starts_with_at(s@, i as int, a0 + ">"@ + lst + "</properties>"@)) by {
                    assert(a0 + ">"@ =~= "<properties>"@);
                    assert(a0 + ">"@ + lst + "</properties>"@ =~= ser_properties(w));
                }
                starts_split(s@, i as int, a0 + ">"@ + lst, "</properties>"@);
                starts_split(s@, i as int, a0 + ">"@, lst);
                starts_split(s@, i as int, a0, ">"@);
                assert(s@.subrange(i + a0.len(), i + a0.len() + 1)[0] == s@[i + a0.len()]);
            }
        }
    }
    let j1 = expect(s, i, "<properties")?;
    if j1 < n && s.get_char(j1) == '/' {
        let j2 = expect(s, j1, "/>")?;
        let v = Properties { property: Vec::new() };
        proof {
            subrange_join(s@, i as int, j1 as int, j2 as int);
            assert(s@.subrange(i as int, j2 as int) =~= ser_properties(v));
        }
        return Ok((v, j2));
    }
    let j2 = expect(s, j1, ">")?;
    let mut xs: Vec<Property> = Vec::new();
    let mut j: usize = j2;
    let ghost mut k: int = 0;
    proof {
        assert(s@.subrange(j2 as int, j2 as int) =~= ser_property_list(xs@));
    }
    loop
        invariant
            i <= j1 <= j2 <= j <= s@.len(),
            k == xs@.len(),
            s@.subrange(i as int, j1 as int) == "<properties"@,
            s@.subrange(j1 as int, j2 as int) == ">"@,
            
            s@.subrange(j2 as int, j as int) == ser_property_list(xs@),
            forall|w: Properties|
                #![trigger starts_with_at(s@, i as int, ser_properties(w))]
                true && starts_with_at(s@, i as int, ser_properties(w)) && w.property@.len() > 0
                    && j2 == i + "<properties>"@.len() ==> k <= w.property@.len() && j == j2
                    + ser_property_list(w.property@.take(k)).len(),
        decreases s@.len() - j,
    {
        proof {
            reveal_strlit("<properties>");
            reveal_strlit("</properties>");
            reveal_strlit("<property ");
            assert forall|w: Properties|
                true && #[trigger] starts_with_at(s@, i as int, ser_properties(w))
                    && w.property@.len() > 0 && j2 == i + "<properties>"@.len() && k
                    < w.property@.len() implies true && starts_with_at(
                s@,
                j as int,
                ser_property(w.property@[k]),
            ) by {
                let ws = w.property@;
                assert(ws.take(k) + ws.skip(k) =~= ws);
                ser_property_list_cat(ws.take(k), ws.skip(k));
                assert(starts_with_at(s@, j2 as int, ser_property_list(ws)));
                starts_split(s@, j2 as int, ser_property_list(ws.take(k)), ser_property_list(
                    ws.skip(k),
                ));
                assert(ws.skip(k)[0] == ws[k]);
                assert(ws.skip(k).drop_first() =~= ws.skip(k + 1));
                assert(ser_property_list(ws.skip(k)) == ser_property(ws[k])
                    + ser_property_list(ws.skip(k + 1)));
                starts_split(s@, j as int, ser_property(ws[k]), ser_property_list(
                    ws.skip(k + 1),
                ));
            }
        }
        match parse_property(s, j) {
            Ok((x, j3)) => {
                proof {
                    reveal_strlit("<properties>");
                    reveal_strlit("</properties>");
                    reveal_strlit("<property ");
                    assert forall|w: Properties|
                        true && #[trigger] starts_with_at(s@, i as int, ser_properties(w))
                            && w.property@.len() > 0 && j2 == i + "<properties>"@.len() implies k
                        < w.property@.len() && j3 == j2 + ser_property_list(
                        w.property@.take(k + 1),
                    ).len() by {
                        let ws = w.property@;
                        if k >= ws.len() {
                            assert(ws.take(k) =~= ws);
                            assert(starts_with_at(
                                s@,
                                j as int,
                                "</properties>"@,
                            ));
                            assert(s@.subrange(j as int, j3 as int) == ser_property(x));
                            reveal_strlit(
                                "<property layer=\"painter2\" type=\"PictureZoneProperty\"/>",
                            );
                            reveal_strlit(
                                "<property type=\"ZoneCategoryProperty\" zoneCategory=\"auto\"/>",
                            );
                            match x {
                                Property::PictureZone(_) => {},
                                Property::ZoneCategory(_) => {},
                            }
                            assert(ser_property(x).len() >= 2);
                            assert(j3 - j == ser_property(x).len());
                            assert(s@[j + 1] == ser_property(x)[1]) by {
                                assert(s@.subrange(j as int, j3 as int)[1] == s@[j + 1]);
                            }
                            assert(ser_property(x)[1] == "<property "@[1]);
                            assert(s@[j + 1] == "</properties>"@[1]) by {
                                assert(s@.subrange(j as int, j + "</properties>"@.len())[1] == s@[j
                                    + 1]);
                            }
                        } else {
                            assert(starts_with_at(s@, j as int, ser_property(ws[k])));
                            ser_property_list_snoc(ws.take(k), ws[k]);
                            assert(ws.take(k) + seq![ws[k]] =~= ws.take(k + 1));
                        }
                    }
                    ser_property_list_snoc(xs@, x);
                    subrange_join(s@, j2 as int, j as int, j3 as int);
                }
                let ghost prev = xs@;
                xs.push(x);
                j = j3;
                proof {
                    k = k + 1;
                    assert(xs@ =~= prev + seq![x]);
                }
            },
            Err(_) => {
                proof {
                    reveal_strlit("<properties>");
                    reveal_strlit("</properties>");
                    assert forall|w: Properties|
                        true && #[trigger] starts_with_at(s@, i as int, ser_properties(w))
                            && w.property@.len() > 0 && j2 == i + "<properties>"@.len() implies k
                        == w.property@.len() && j == j2 + ser_property_list(w.property@).len() by {
                        if k < w.property@.len() {
                            assert(starts_with_at(
                                s@,
                                j as int,
                                ser_property(w.property@[k]),
                            ));
                        } else {
                            assert(w.property@.take(k) =~= w.property@);
                        }
                    }
                }
                if xs.len() == 0 {
                    return Err(ParseError { pos: j, kind: ParseErrorKind::Unexpected });
                }
                let j4 = expect(s, j, "</properties>")?;
                let v = Properties { property: xs };
                proof {
                    subrange_join(s@, i as int, j1 as int, j2 as int);
                    subrange_join(s@, i as int, j2 as int, j as int);
                    subrange_join(s@, i as int, j as int, j4 as int);
                    assert(s@.subrange(i as int, j4 as int) =~= ser_properties(v));
                }
                return Ok((v, j4));
            },
        }
    }
}

pub open spec fn ser_zone(v: Zone) -> Seq<char> {
    "<zone>"@ + ser_outline("spline"@, v.spline) + ser_properties(v.properties) + "</zone>"@
}

pub fn write_zone(out: &mut String, v: &Zone)
    requires
        wf_zone(*v),
    ensures
        final(out)@ == old(out)@ + ser_zone(*v),
{
    out.append("<zone>");
    write_outline(out, "spline", &v.spline);
    write_properties(out, &v.properties);
    out.append("</zone>");
    proof {
        assert(out@ =~= old(out)@ + ser_zone(*v));
    }
}

pub fn parse_zone(s: &str, i: usize) -> (r: Result<(Zone, usize), ParseError>)
    requires
        i <= s@.len(),
    ensures
        match r {
            Ok((v, j)) => {
                &&& i < j <= s@.len()
                &&& wf_zone(v)
                &&& s@.subrange(i as int, j as int) == ser_zone(v)
            },
            Err(_) => true,
        },
        forall|w: Zone|
            #![trigger starts_with_at(s@, i as int, ser_zone(w))]
            wf_zone(w) && starts_with_at(s@, i as int, ser_zone(w)) ==> r is Ok && (
            r->Ok_0).1 == i + ser_zone(w).len(),
{
    proof {
        reveal_strlit("<zone>");
        reveal_strlit("</zone>");
        assert forall|w: Zone|
            wf_zone(w) && #[trigger] starts_with_at(s@, i as int, ser_zone(w)) implies {
            let a0 = "<zone>"@;
            let a1 = a0 + ser_outline("spline"@, w.spline);
            let a2 = a1 + ser_properties(w.properties);
            let a3 = a2 + "</zone>"@;
            &&& starts_with_at(s@, i as int, "<zone>"@)
            &&& starts_with_at(s@, i + a0.len(), ser_outline("spline"@, w.spline))
            &&& starts_with_at(s@, i + a1.len(), ser_properties(w.properties))
            &&& starts_with_at(s@, i + a2.len(), "</zone>"@)
        } by {
            let a0 = "<zone>"@;
            let a1 = a0 + ser_outline("spline"@, w.spline);
            let a2 = a1 + ser_properties(w.properties);
            let a3 = a2 + "</zone>"@;
            starts_split(s@, i as int, a2, "</zone>"@);
            starts_split(s@, i as int, a1, ser_properties(w.properties));
            starts_split(s@, i as int, a0, ser_outline("spline"@, w.spline));
        }
    }
    let j1 = expect(s, i, "<zone>")?;
    let (spline, j2) = parse_outline(s, j1, "spline")?;
    let (properties, j3) = parse_properties(s, j2)?;
    let j4 = expect(s, j3, "</zone>")?;
    let v = Zone { spline, properties };
    proof {
        subrange_join(s@, i as int, j1 as int, j2 as int);
        subrange_join(s@, i as int, j2 as int, j3 as int);
        subrange_join(s@, i as int, j3 as int, j4 as int);
        assert(s@.subrange(i as int, j4 as int) =~= ser_zone(v));
    }
    Ok((v, j4))
}

pub open spec fn ser_zone_list(xs: Seq<Zone>) -> Seq<char>
    decreases xs.len(),
{
    if xs.len() == 0 {
        Seq::<char>::empty()
    } else {
        ser_zone(xs[0]) + ser_zone_list(xs.drop_first())
    }
}

pub proof fn ser_zone_list_snoc(xs: Seq<Zone>, x: Zone)
    ensures
        ser_zone_list(xs + seq![x]) == ser_zone_list(xs) + ser_zone(x),
    decreases xs.len(),
{
    assert(ser_zone_list(Seq::<Zone>::empty()) =~= Seq::<char>::empty());
    if xs.len() == 0 {
        assert(xs + seq![x] =~= seq![x]);
        assert(seq![x].drop_first() =~= Seq::<Zone>::empty());
        assert(ser_zone_list(seq![x]) =~= ser_zone(x));
        assert(ser_zone_list(xs + seq![x]) =~= ser_zone_list(xs) + ser_zone(x));
    } else {
        assert((xs + seq![x]).drop_first() =~= xs.drop_first() + seq![x]);
        ser_zone_list_snoc(xs.drop_first(), x);
        assert(ser_zone_list(xs + seq![x]) =~= ser_zone_list(xs) + ser_zone(x));
    }
}

pub proof fn ser_zone_list_cat(xs: Seq<Zone>, ys: Seq<Zone>)
    ensures
        ser_zone_list(xs + ys) == ser_zone_list(xs) + ser_zone_list(ys),
    decreases xs.len(),
{
    if xs.len() == 0 {
        assert(xs + ys =~= ys);
        assert(ser_zone_list(xs) + ser_zone_list(ys) =~= ser_zone_list(ys));
    } else {
        assert((xs + ys).drop_first() =~= xs.drop_first() + ys);
        ser_zone_list_cat(xs.drop_first(), ys);
        assert(ser_zone_list(xs + ys) =~= ser_zone_list(xs) + ser_zone_list(ys));
    }
}

/// `<zones/>` when the table is empty, else the entries between open and
/// close tags.
pub open spec fn ser_zones(v: Zones) -> Seq<char> {
    if v.zone@.len() == 0 {
        "<zones/>"@
    } else {
        "<zones>"@ + ser_zone_list(v.zone@) + "</zones>"@
    }
}

pub fn write_zones(out: &mut String, v: &Zones)
    requires
        wf_zones(*v),
    ensures
        final(out)@ == old(out)@ + ser_zones(*v),
{
    if v.zone.len() == 0 {
        out.append("<zones/>");
        return ;
    }
    out.append("<zones>");
    let n = v.zone.len();
    let mut k: usize = 0;
    proof {
        assert(v.zone@.take(0) =~= Seq::<Zone>::empty());
        assert(ser_zone_list(v.zone@.take(0)) =~= Seq::<char>::empty());
        assert(out@ =~= old(out)@ + "<zones>"@ + ser_zone_list(v.zone@.take(0)));
    }
    while k < n
        invariant
            0 < n == v.zone@.len(),
            0 <= k <= n,
            wf_zones(*v),

            out@ == old(out)@ + "<zones>"@ + ser_zone_list(v.zone@.take(k as int)),
        decreases n - k,
    {
        write_zone(out, &v.zone[k]);
        k = k + 1;
        proof {
            ser_zone_list_snoc(v.zone@.take(k - 1), v.zone@[k - 1]);
            assert(v.zone@.take(k - 1) + seq![v.zone@[k - 1]] =~= v.zone@.take(k as int));
        }
    }
    out.append("</zones>");
    proof {
        assert(v.zone@.take(n as int) =~= v.zone@);
        assert(out@ =~= old(out)@ + ser_zones(*v));
    }
}

#[verifier::rlimit(100)]
#[verifier::spinoff_prover]
#[verifier::loop_isolation(false)]
pub fn parse_zones(s: &str, i: usize) -> (r: Result<(Zones, usize), ParseError>)
    requires
        i <= s@.len(),
    ensures
        match r {
            Ok((v, j)) => {
                &&& i < j <= s@.len()
                &&& wf_zones(v)
                &&& s@.subrange(i as int, j as int) == ser_zones(v)
            },
            Err(_) => true,
        },
        forall|w: Zones|
            #![trigger starts_with_at(s@, i as int, ser_zones(w))]
            wf_zones(w) && starts_with_at(s@, i as int, ser_zones(w)) ==> r is Ok && (
            r->Ok_0).1 == i + ser_zones(w).len(),
{
    let n = s.unicode_len();
    proof {
        reveal_strlit("<zones");
        reveal_strlit("/>");
        reveal_strlit(">");
        reveal_strlit("<zones/>");
        reveal_strlit("<zones>");
        reveal_strlit("</zones>");
        reveal_strlit("<zone>");
        assert forall|w: Zones|
            wf_zones(w) && #[trigger] starts_with_at(s@, i as int, ser_zones(w)) implies {
            let a0 = "<zones"@;
            &&& starts_with_at(s@, i as int, a0)
            &&& i + a0.len() < s@.len()
            &&& (w.zone@.len() == 0 ==> s@[i + a0.len()] == '/' && starts_with_at(
                s@,
                i + a0.len(),
                "/>"@,
            ))
            &&& (w.zone@.len() > 0 ==> s@[i + a0.len()] == '>' && starts_with_at(
                s@,
                i + a0.len(),
                ">"@,
            ) && starts_with_at(
                s@,
                i + a0.len() + 1,
                ser_zone_list(w.zone@),
            ) && starts_with_at(
                s@,
                i + a0.len() + 1 + ser_zone_list(w.zone@).len(),
                "</zones>"@,
            ))
        } by {
            let a0 = "<zones"@;
            if w.zone@.len() == 0 {
                assert(ser_zones(w) == "<zones/>"@);
                assert(starts_with_at(s@, i as int, a0 + "/>"@)) by {
                    assert(a0 + "/>"@ =~= "<zones/>"@);
                }
                starts_split(s@, i as int, a0, "/>"@);
                assert(s@.subrange(i + a0.len(), i + a0.len() + 2)[0] == s@[i + a0.len()]);
            } else {
                let lst = ser_zone_list(w.zone@);
                assert(starts_with_at(s@, i as int, a0 + ">"@ + lst + "</zones>"@)) by {
                    assert(a0 + ">"@ =~= "<zones>"@);
                    assert(a0 + ">"@ + lst + "</zones>"@ =~= ser_zones(w));
                }
                starts_split(s@, i as int, a0 + ">"@ + lst, "</zones>"@);
                starts_split(s@, i as int, a0 + ">"@, lst);
                starts_split(s@, i as int, a0, ">"@);
                assert(s@.subrange(i + a0.len(), i + a0.len() + 1)[0] == s@[i + a0.len()]);
            }
        }
    }
    let j1 = expect(s, i, "<zones")?;
    if j1 < n && s.get_char(j1) == '/' {
        let j2 = expect(s, j1, "/>")?;
        let v = Zones { zone: Vec::new() };
        proof {
            subrange_join(s@, i as int, j1 as int, j2 as int);
            assert(s@.subrange(i as int, j2 as int) =~= ser_zones(v));
        }
        return Ok((v, j2));
    }
    let j2 = expect(s, j1, ">")?;
    let mut xs: Vec<Zone> = Vec::new();
    let mut j: usize = j2;
    let ghost mut k: int = 0;
    proof {
        assert(s@.subrange(j2 as int, j2 as int) =~= ser_zone_list(xs@));
    }
    loop
        invariant
            i <= j1 <= j2 <= j <= s@.len(),
            k == xs@.len(),
            s@.subrange(i as int, j1 as int) == "<zones"@,
            s@.subrange(j1 as int, j2 as int) == ">"@,
            forall|t: int| 0 <= t < xs@.len() ==> wf_zone(#[trigger] xs@[t]),

            s@.subrange(j2 as int, j as int) == ser_zone_list(xs@),
            forall|w: Zones|
                #![trigger starts_with_at(s@, i as int, ser_zones(w))]
                wf_zones(w) && starts_with_at(s@, i as int, ser_zones(w)) && w.zone@.len() > 0
                    && j2 == i + "<zones>"@.len() ==> k <= w.zone@.len() && j == j2
                    + ser_zone_list(w.zone@.take(k)).len(),
        decreases s@.len() - j,
    {
        proof {
            reveal_strlit("<zones>");
            reveal_strlit("</zones>");
            reveal_strlit("<zone>");
            assert forall|w: Zones|
                wf_zones(w) && #[trigger] starts_with_at(s@, i as int, ser_zones(w))
                    && w.zone@.len() > 0 && j2 == i + "<zones>"@.len() && k
                    < w.zone@.len() implies wf_zone(w.zone@[k]) && starts_with_at(
                s@,
                j as int,
                ser_zone(w.zone@[k]),
            ) by {
                let ws = w.zone@;
                assert(ws.take(k) + ws.skip(k) =~= ws);
                ser_zone_list_cat(ws.take(k), ws.skip(k));
                assert(starts_with_at(s@, j2 as int, ser_zone_list(ws)));
                starts_split(s@, j2 as int, ser_zone_list(ws.take(k)), ser_zone_list(
                    ws.skip(k),
                ));
                assert(ws.skip(k)[0] == ws[k]);
                assert(ws.skip(k).drop_first() =~= ws.skip(k + 1));
                assert(ser_zone_list(ws.skip(k)) == ser_zone(ws[k])
                    + ser_zone_list(ws.skip(k + 1)));
                starts_split(s@, j as int, ser_zone(ws[k]), ser_zone_list(
                    ws.skip(k + 1),
                ));
            }
        }
        match parse_zone(s, j) {
            Ok((x, j3)) => {
                proof {
                    reveal_strlit("<zones>");
                    reveal_strlit("</zones>");
                    reveal_strlit("<zone>");
                    assert forall|w: Zones|
                        wf_zones(w) && #[trigger] starts_with_at(s@, i as int, ser_zones(w))
                            && w.zone@.len() > 0 && j2 == i + "<zones>"@.len() implies k
                        < w.zone@.len() && j3 == j2 + ser_zone_list(
                        w.zone@.take(k + 1),
                    ).len() by {
                        let ws = w.zone@;
                        if k >= ws.len() {
                            assert(ws.take(k) =~= ws);
                            assert(starts_with_at(
                                s@,
                                j as int,
                                "</zones>"@,
                            ));
                            assert(s@.subrange(j as int, j3 as int) == ser_zone(x));
                            reveal_strlit("<zone>");
                            assert(ser_zone(x) == "<zone>"@ + ser_outline("spline"@, x.spline) + ser_properties(x.properties) + "</zone>"@);
                            assert(ser_zone(x).len() >= 2);
                            assert(j3 - j == ser_zone(x).len());
                            assert(s@[j + 1] == ser_zone(x)[1]) by {
                                assert(s@.subrange(j as int, j3 as int)[1] == s@[j + 1]);
                            }
                            assert(ser_zone(x)[1] == "<zone>"@[1]);
                            assert(s@[j + 1] == "</zones>"@[1]) by {
                                assert(s@.subrange(j as int, j + "</zones>"@.len())[1] == s@[j
                                    + 1]);
                            }
                        } else {
                            assert(starts_with_at(s@, j as int, ser_zone(ws[k])));
                            ser_zone_list_snoc(ws.take(k), ws[k]);
                            assert(ws.take(k) + seq![ws[k]] =~= ws.take(k + 1));
                        }
                    }
                    ser_zone_list_snoc(xs@, x);
                    subrange_join(s@, j2 as int, j as int, j3 as int);
                }
                let ghost prev = xs@;
                xs.push(x);
                j = j3;
                proof {
                    k = k + 1;
                    assert(xs@ =~= prev + seq![x]);
                }
            },
            Err(_) => {
                proof {
                    reveal_strlit("<zones>");
                    reveal_strlit("</zones>");
                    assert forall|w: Zones|
                        wf_zones(w) && #[trigger] starts_with_at(s@, i as int, ser_zones(w))
                            && w.zone@.len() > 0 && j2 == i + "<zones>"@.len() implies k
                        == w.zone@.len() && j == j2 + ser_zone_list(w.zone@).len() by {
                        if k < w.zone@.len() {
                            assert(starts_with_at(
                                s@,
                                j as int,
                                ser_zone(w.zone@[k]),
                            ));
                        } else {
                            assert(w.zone@.take(k) =~= w.zone@);
                        }
                    }
                }
                if xs.len() == 0 {
                    return Err(ParseError { pos: j, kind: ParseErrorKind::Unexpected });
                }
                let j4 = expect(s, j, "</zones>")?;
                let v = Zones { zone: xs };
                proof {
                    subrange_join(s@, i as int, j1 as int, j2 as int);
                    subrange_join(s@, i as int, j2 as int, j as int);
                    subrange_join(s@, i as int, j as int, j4 as int);
                    assert(s@.subrange(i as int, j4 as int) =~= ser_zones(v));
                }
                return Ok((v, j4));
            },
        }
    }
}

/// The fill-zones container of a page. Its entries never survive in
/// project files this dialect covers, so only the empty element exists.
#[derive(Clone, Copy, Debug, PartialEq, Eq, Structural)]
pub struct FillZones {}

pub open spec fn ser_fill_zones(v: FillZones) -> Seq<char> {
    "<fill-zones/>"@
}

pub fn write_fill_zones(out: &mut String, v: &FillZones)
    ensures
        final(out)@ == old(out)@ + ser_fill_zones(*v),
{
    out.append("<fill-zones/>");
}

pub fn parse_fill_zones(s: &str, i: usize) -> (r: Result<(FillZones, usize), ParseError>)
    requires
        i <= s@.len(),
    ensures
        match r {
            Ok((v, j)) => {
                &&& i < j <= s@.len()
                &&& s@.subrange(i as int, j as int) == ser_fill_zones(v)
            },
            Err(_) => true,
        },
{
    proof {
        reveal_strlit("<fill-zones/>");
    }
    let j = expect(s, i, "<fill-zones/>")?;
    Ok((FillZones {}, j))
}

} // verus!
