//! The validator: walks a parsed tree and collects every violated rule
//! into one report, in document order. Validation never changes the tree;
//! parsing alone does not apply these rules, so an invalid file still
//! parses and can be inspected.

use vstd::prelude::*;

use crate::decimal::{decimal_ge_centi, decimal_le_centi, in_centi_range, Decimal, wf_decimal};
use crate::filters::common::{
    filled_outline_closes, outline_closed, outline_points_closed, Outline,
};
use crate::filters::deskew;
use crate::filters::page_layout;
use crate::filters::page_split::{self, pages_tag, LayoutType};
use crate::filters::select_content;
use crate::output::color_params::{ColorParams, ColorSegmenterOptions, BW};
use crate::output::dewarping_options::DewarpingOptions;
use crate::output::main as output_main;
use crate::output::output_params::OutputParams;
use crate::output::params::Params as OutputPageParams;
use crate::output::picture_shape_options::PictureShapeOptions;
use crate::project::{wf_project, ProjectXML};

verus! {

/// Where in the document a rule was violated. Entities are named by the id
/// they carry on the wire.
#[derive(Clone, Copy, Debug, PartialEq, Eq, Structural)]
pub enum Loc {
    Project,
    PageSplitImage(u32),
    DeskewPage(u32),
    SelectContentPage(u32),
    PageLayoutPage(u32),
    OutputPage(u32),
    OutputParamsImage(u32),
}

/// The rule that was violated.
#[derive(Clone, Copy, Debug, PartialEq, Eq, Structural)]
pub enum ViolationKind {
    /// The format version is not the single supported one.
    UnsupportedVersion,
    /// A page-split image's declared layout type, the resolved variant of
    /// its `pages` element, and its dependency snapshot do not all agree.
    LayoutTypeMismatch,
    /// A filled outline whose first and last points differ.
    OutlineNotClosed,
    /// A page-detection mode that differs from its dependency snapshot.
    PageDetectionModeMismatch,
    /// A content-detection mode that differs from its dependency snapshot.
    ContentDetectionModeMismatch,
    /// A deskew angle outside -45 ..= 45.
    AngleOutOfRange,
    /// A content rectangle with a negative coordinate or dimension.
    ContentRectInvalid,
    /// A page rectangle with a negative dimension.
    PageRectInvalid,
    /// A despeckle level outside 1 ..= 3.
    DespeckleLevelOutOfRange,
    /// A picture-shape sensitivity above 100.
    SensitivityOutOfRange,
    /// A post-deskew angle outside -45 ..= 45.
    PostDeskewAngleOutOfRange,
    /// A posterization level below 2.
    PosterizationLevelOutOfRange,
    /// A sauvola coefficient outside 0.01 ..= 9.99.
    SauvolaCoefOutOfRange,
    /// A threshold adjustment outside -100 ..= 100.
    ThresholdAdjOutOfRange,
    /// A window size outside 3 ..= 9999.
    WindowSizeOutOfRange,
    /// A wolf coefficient outside 0.01 ..= 9.99.
    WolfCoefOutOfRange,
    /// A wolf lower bound outside 1 ..= 254.
    WolfLowerBoundOutOfRange,
    /// A wolf upper bound outside 1 ..= 254.
    WolfUpperBoundOutOfRange,
    /// A blue threshold adjustment outside -99 ..= 99.
    BlueThresholdAdjustmentOutOfRange,
    /// A green threshold adjustment outside -99 ..= 99.
    GreenThresholdAdjustmentOutOfRange,
    /// A red threshold adjustment outside -99 ..= 99.
    RedThresholdAdjustmentOutOfRange,
    /// A noise reduction above 999.
    NoiseReductionOutOfRange,
}

/// One violated rule at one place.
#[derive(Clone, Copy, Debug, PartialEq, Eq, Structural)]
pub struct Violation {
    pub loc: Loc,
    pub kind: ViolationKind,
}

/// A real number lies in the inclusive range `lo / 100 ..= hi / 100`.
pub open spec fn in_range(x: Decimal, lo: int, hi: int) -> bool {
    decimal_ge_centi(x, lo) && decimal_le_centi(x, hi)
}

/// A real number is non-negative.
pub open spec fn non_negative(x: Decimal) -> bool {
    decimal_ge_centi(x, 0)
}

/// One violation if `ok` fails.
pub open spec fn rule(ok: bool, loc: Loc, kind: ViolationKind) -> Seq<Violation> {
    if ok {
        Seq::<Violation>::empty()
    } else {
        seq![Violation { loc, kind }]
    }
}

fn push_rule(out: &mut Vec<Violation>, ok: bool, loc: Loc, kind: ViolationKind)
    ensures
        final(out)@ == old(out)@ + rule(ok, loc, kind),
{
    let ghost prev = out@;
    if !ok {
        out.push(Violation { loc, kind });
        proof {
            assert(out@ =~= prev + rule(ok, loc, kind));
        }
    } else {
        proof {
            assert(out@ =~= prev + rule(ok, loc, kind));
        }
    }
}

// ---------------------------------------------------------------- page-split

/// The three layout declarations of a page-split image agree: the `type`
/// discriminator, the resolved variant, and the dependency snapshot.
pub open spec fn layout_types_agree(v: page_split::Image) -> bool {
    v.layout_type == pages_tag(v.params.pages) && v.params.dependencies.layout_type == pages_tag(
        v.params.pages,
    )
}

pub open spec fn viols_ps_image(v: page_split::Image) -> Seq<Violation> {
    rule(layout_types_agree(v), Loc::PageSplitImage(v.id), ViolationKind::LayoutTypeMismatch)
        + rule(
        outline_points_closed(page_split::pages_outline(v.params.pages).point@),
        Loc::PageSplitImage(v.id),
        ViolationKind::OutlineNotClosed,
    )
}

pub open spec fn viols_ps_images(xs: Seq<page_split::Image>) -> Seq<Violation>
    decreases xs.len(),
{
    if xs.len() == 0 {
        Seq::<Violation>::empty()
    } else {
        viols_ps_image(xs[0]) + viols_ps_images(xs.drop_first())
    }
}

pub open spec fn viols_page_split(v: page_split::PageSplit) -> Seq<Violation> {
    viols_ps_images(v.image@)
}

fn layout_type_eq(a: LayoutType, b: LayoutType) -> (r: bool)
    ensures
        r == (a == b),
{
    match (a, b) {
        (LayoutType::SingleUncut, LayoutType::SingleUncut) => true,
        (LayoutType::SingleCut, LayoutType::SingleCut) => true,
        (LayoutType::TwoPages, LayoutType::TwoPages) => true,
        _ => false,
    }
}

fn check_ps_image(out: &mut Vec<Violation>, v: &page_split::Image)
    requires
        page_split::wf_ps_image(*v),
    ensures
        final(out)@ == old(out)@ + viols_ps_image(*v),
{
    let tag = match &v.params.pages {
        page_split::Pages::SingleUncut(_) => LayoutType::SingleUncut,
        page_split::Pages::SingleCut(_) => LayoutType::SingleCut,
        page_split::Pages::TwoPages(_) => LayoutType::TwoPages,
    };
    let agree = layout_type_eq(v.layout_type, tag) && layout_type_eq(
        v.params.dependencies.layout_type,
        tag,
    );
    push_rule(out, agree, Loc::PageSplitImage(v.id), ViolationKind::LayoutTypeMismatch);
    let outline = match &v.params.pages {
        page_split::Pages::SingleUncut(u) => &u.outline,
        page_split::Pages::SingleCut(u) => &u.outline,
        page_split::Pages::TwoPages(u) => &u.outline,
    };
    let first = &outline.point[0];
    let last = &outline.point[4];
    let closed = crate::decimal::same_value(&first.x, &last.x) && crate::decimal::same_value(
        &first.y,
        &last.y,
    );
    push_rule(out, closed, Loc::PageSplitImage(v.id), ViolationKind::OutlineNotClosed);
    proof {
        assert(out@ =~= old(out)@ + viols_ps_image(*v));
    }
}

fn check_page_split(out: &mut Vec<Violation>, v: &page_split::PageSplit)
    requires
        page_split::wf_page_split(*v),
    ensures
        final(out)@ == old(out)@ + viols_page_split(*v),
{
    let n = v.image.len();
    let mut k: usize = 0;
    proof {
        assert(v.image@.take(0) =~= Seq::<page_split::Image>::empty());
        assert(out@ =~= old(out)@ + viols_ps_images(v.image@.take(0)));
    }
    while k < n
        invariant
            0 <= k <= n == v.image@.len(),
            page_split::wf_page_split(*v),
            out@ == old(out)@ + viols_ps_images(v.image@.take(k as int)),
        decreases n - k,
    {
        check_ps_image(out, &v.image[k]);
        k = k + 1;
        proof {
            viols_ps_images_snoc(v.image@.take(k - 1), v.image@[k - 1]);
            assert(v.image@.take(k - 1) + seq![v.image@[k - 1]] =~= v.image@.take(k as int));
        }
    }
    proof {
        assert(v.image@.take(n as int) =~= v.image@);
    }
}

proof fn viols_ps_images_snoc(xs: Seq<page_split::Image>, x: page_split::Image)
    ensures
        viols_ps_images(xs + seq![x]) == viols_ps_images(xs) + viols_ps_image(x),
    decreases xs.len(),
{
    assert(viols_ps_images(Seq::<page_split::Image>::empty()) =~= Seq::<Violation>::empty());
    if xs.len() == 0 {
        assert(xs + seq![x] =~= seq![x]);
        assert(seq![x].drop_first() =~= Seq::<page_split::Image>::empty());
        assert(viols_ps_images(seq![x]) =~= viols_ps_image(x));
        assert(viols_ps_images(xs + seq![x]) =~= viols_ps_images(xs) + viols_ps_image(x));
    } else {
        assert((xs + seq![x]).drop_first() =~= xs.drop_first() + seq![x]);
        viols_ps_images_snoc(xs.drop_first(), x);
        assert(viols_ps_images(xs + seq![x]) =~= viols_ps_images(xs) + viols_ps_image(x));
    }
}

// ------------------------------------------------------------------- deskew

/// An outline passes when it is empty or closes.
pub open spec fn outline_rule(o: Outline, loc: Loc) -> Seq<Violation> {
    rule(outline_closed(o), loc, ViolationKind::OutlineNotClosed)
}

fn check_outline(out: &mut Vec<Violation>, o: &Outline, loc: Loc)
    requires
        crate::filters::common::wf_outline(*o),
    ensures
        final(out)@ == old(out)@ + outline_rule(*o, loc),
{
    let closed = match o {
        Outline::Empty(_) => true,
        Outline::Filled(f) => filled_outline_closes(f),
    };
    push_rule(out, closed, loc, ViolationKind::OutlineNotClosed);
}

pub open spec fn viols_ds_page(v: deskew::Page) -> Seq<Violation> {
    rule(
        in_range(v.params.angle, -4500, 4500),
        Loc::DeskewPage(v.id),
        ViolationKind::AngleOutOfRange,
    ) + outline_rule(v.params.dependencies.page_outline, Loc::DeskewPage(v.id))
}

pub open spec fn viols_ds_pages(xs: Seq<deskew::Page>) -> Seq<Violation>
    decreases xs.len(),
{
    if xs.len() == 0 {
        Seq::<Violation>::empty()
    } else {
        viols_ds_page(xs[0]) + viols_ds_pages(xs.drop_first())
    }
}

pub open spec fn viols_deskew(v: deskew::Deskew) -> Seq<Violation> {
    viols_ds_pages(v.page@)
}

fn check_ds_page(out: &mut Vec<Violation>, v: &deskew::Page)
    requires
        deskew::wf_ds_page(*v),
    ensures
        final(out)@ == old(out)@ + viols_ds_page(*v),
{
    let ok = in_centi_range(&v.params.angle, -4500, 4500);
    push_rule(out, ok, Loc::DeskewPage(v.id), ViolationKind::AngleOutOfRange);
    check_outline(out, &v.params.dependencies.page_outline, Loc::DeskewPage(v.id));
    proof {
        assert(out@ =~= old(out)@ + viols_ds_page(*v));
    }
}

proof fn viols_ds_pages_snoc(xs: Seq<deskew::Page>, x: deskew::Page)
    ensures
        viols_ds_pages(xs + seq![x]) == viols_ds_pages(xs) + viols_ds_page(x),
    decreases xs.len(),
{
    assert(viols_ds_pages(Seq::<deskew::Page>::empty()) =~= Seq::<Violation>::empty());
    if xs.len() == 0 {
        assert(xs + seq![x] =~= seq![x]);
        assert(seq![x].drop_first() =~= Seq::<deskew::Page>::empty());
        assert(viols_ds_pages(seq![x]) =~= viols_ds_page(x));
        assert(viols_ds_pages(xs + seq![x]) =~= viols_ds_pages(xs) + viols_ds_page(x));
    } else {
        assert((xs + seq![x]).drop_first() =~= xs.drop_first() + seq![x]);
        viols_ds_pages_snoc(xs.drop_first(), x);
        assert(viols_ds_pages(xs + seq![x]) =~= viols_ds_pages(xs) + viols_ds_page(x));
    }
}

fn check_deskew(out: &mut Vec<Violation>, v: &deskew::Deskew)
    requires
        deskew::wf_deskew(*v),
    ensures
        final(out)@ == old(out)@ + viols_deskew(*v),
{
    let n = v.page.len();
    let mut k: usize = 0;
    proof {
        assert(v.page@.take(0) =~= Seq::<deskew::Page>::empty());
        assert(out@ =~= old(out)@ + viols_ds_pages(v.page@.take(0)));
    }
    while k < n
        invariant
            0 <= k <= n == v.page@.len(),
            deskew::wf_deskew(*v),
            out@ == old(out)@ + viols_ds_pages(v.page@.take(k as int)),
        decreases n - k,
    {
        check_ds_page(out, &v.page[k]);
        k = k + 1;
        proof {
            viols_ds_pages_snoc(v.page@.take(k - 1), v.page@[k - 1]);
            assert(v.page@.take(k - 1) + seq![v.page@[k - 1]] =~= v.page@.take(k as int));
        }
    }
    proof {
        assert(v.page@.take(n as int) =~= v.page@);
    }
}


// ----------------------------------------------------------- select-content

pub open spec fn pos_rect_ok(r: crate::filters::common::PositiveRegionRect) -> bool {
    non_negative(r.height) && non_negative(r.width) && non_negative(r.x) && non_negative(r.y)
}

pub open spec fn rect_ok(r: crate::filters::common::Rect) -> bool {
    non_negative(r.height) && non_negative(r.width)
}

fn check_pos_rect(out: &mut Vec<Violation>, r: &crate::filters::common::PositiveRegionRect, loc: Loc)
    requires
        crate::filters::common::wf_pos_rect(*r),
    ensures
        final(out)@ == old(out)@ + rule(pos_rect_ok(*r), loc, ViolationKind::ContentRectInvalid),
{
    let ok = decimal_centi_at_least(&r.height) && decimal_centi_at_least(&r.width)
        && decimal_centi_at_least(&r.x) && decimal_centi_at_least(&r.y);
    push_rule(out, ok, loc, ViolationKind::ContentRectInvalid);
}

/// Whether a number is at least zero.
fn decimal_centi_at_least(x: &Decimal) -> (r: bool)
    requires
        wf_decimal(*x),
    ensures
        r == non_negative(*x),
{
    let (sv, p) = crate::decimal::parts_for_rules(x);
    sv >= 0
}

pub open spec fn viols_sc_page(v: select_content::Page) -> Seq<Violation> {
    rule(
        v.params.page_detection_mode == v.params.dependencies.params.page_detection_mode,
        Loc::SelectContentPage(v.id),
        ViolationKind::PageDetectionModeMismatch,
    ) + rule(
        v.params.content_detection_mode == v.params.dependencies.params.content_detection_mode,
        Loc::SelectContentPage(v.id),
        ViolationKind::ContentDetectionModeMismatch,
    ) + rule(
        pos_rect_ok(v.params.content_rect),
        Loc::SelectContentPage(v.id),
        ViolationKind::ContentRectInvalid,
    ) + rule(
        rect_ok(v.params.page_rect),
        Loc::SelectContentPage(v.id),
        ViolationKind::PageRectInvalid,
    ) + outline_rule(v.params.dependencies.rotated_page_outline, Loc::SelectContentPage(v.id))
}

pub open spec fn viols_sc_pages(xs: Seq<select_content::Page>) -> Seq<Violation>
    decreases xs.len(),
{
    if xs.len() == 0 {
        Seq::<Violation>::empty()
    } else {
        viols_sc_page(xs[0]) + viols_sc_pages(xs.drop_first())
    }
}

pub open spec fn viols_select_content(v: select_content::SelectContent) -> Seq<Violation> {
    viols_sc_pages(v.page@)
}

fn page_mode_eq(a: select_content::PageDetectionMode, b: select_content::PageDetectionMode) -> (r:
    bool)
    ensures
        r == (a == b),
{
    match (a, b) {
        (select_content::PageDetectionMode::Disabled, select_content::PageDetectionMode::Disabled) => true,
        (select_content::PageDetectionMode::Auto, select_content::PageDetectionMode::Auto) => true,
        (select_content::PageDetectionMode::Manual, select_content::PageDetectionMode::Manual) => true,
        _ => false,
    }
}

fn content_mode_eq(
    a: select_content::ContentDetectionMode,
    b: select_content::ContentDetectionMode,
) -> (r: bool)
    ensures
        r == (a == b),
{
    match (a, b) {
        (
            select_content::ContentDetectionMode::Disabled,
            select_content::ContentDetectionMode::Disabled,
        ) => true,
        (select_content::ContentDetectionMode::Auto, select_content::ContentDetectionMode::Auto) => true,
        (
            select_content::ContentDetectionMode::Manual,
            select_content::ContentDetectionMode::Manual,
        ) => true,
        _ => false,
    }
}

fn check_sc_page(out: &mut Vec<Violation>, v: &select_content::Page)
    requires
        select_content::wf_sc_page(*v),
    ensures
        final(out)@ == old(out)@ + viols_sc_page(*v),
{
    let pm = page_mode_eq(v.params.page_detection_mode, v.params.dependencies.params.page_detection_mode);
    push_rule(out, pm, Loc::SelectContentPage(v.id), ViolationKind::PageDetectionModeMismatch);
    let cm = content_mode_eq(
        v.params.content_detection_mode,
        v.params.dependencies.params.content_detection_mode,
    );
    push_rule(out, cm, Loc::SelectContentPage(v.id), ViolationKind::ContentDetectionModeMismatch);
    check_pos_rect(out, &v.params.content_rect, Loc::SelectContentPage(v.id));
    let pr_ok = decimal_centi_at_least(&v.params.page_rect.height) && decimal_centi_at_least(
        &v.params.page_rect.width,
    );
    push_rule(out, pr_ok, Loc::SelectContentPage(v.id), ViolationKind::PageRectInvalid);
    check_outline(out, &v.params.dependencies.rotated_page_outline, Loc::SelectContentPage(v.id));
    proof {
        assert(out@ =~= old(out)@ + viols_sc_page(*v));
    }
}

proof fn viols_sc_pages_snoc(xs: Seq<select_content::Page>, x: select_content::Page)
    ensures
        viols_sc_pages(xs + seq![x]) == viols_sc_pages(xs) + viols_sc_page(x),
    decreases xs.len(),
{
    assert(viols_sc_pages(Seq::<select_content::Page>::empty()) =~= Seq::<Violation>::empty());
    if xs.len() == 0 {
        assert(xs + seq![x] =~= seq![x]);
        assert(seq![x].drop_first() =~= Seq::<select_content::Page>::empty());
        assert(viols_sc_pages(seq![x]) =~= viols_sc_page(x));
        assert(viols_sc_pages(xs + seq![x]) =~= viols_sc_pages(xs) + viols_sc_page(x));
    } else {
        assert((xs + seq![x]).drop_first() =~= xs.drop_first() + seq![x]);
        viols_sc_pages_snoc(xs.drop_first(), x);
        assert(viols_sc_pages(xs + seq![x]) =~= viols_sc_pages(xs) + viols_sc_page(x));
    }
}

fn check_select_content(out: &mut Vec<Violation>, v: &select_content::SelectContent)
    requires
        select_content::wf_select_content(*v),
    ensures
        final(out)@ == old(out)@ + viols_select_content(*v),
{
    let n = v.page.len();
    let mut k: usize = 0;
    proof {
        assert(v.page@.take(0) =~= Seq::<select_content::Page>::empty());
        assert(out@ =~= old(out)@ + viols_sc_pages(v.page@.take(0)));
    }
    while k < n
        invariant
            0 <= k <= n == v.page@.len(),
            select_content::wf_select_content(*v),
            out@ == old(out)@ + viols_sc_pages(v.page@.take(k as int)),
        decreases n - k,
    {
        check_sc_page(out, &v.page[k]);
        k = k + 1;
        proof {
            viols_sc_pages_snoc(v.page@.take(k - 1), v.page@[k - 1]);
            assert(v.page@.take(k - 1) + seq![v.page@[k - 1]] =~= v.page@.take(k as int));
        }
    }
    proof {
        assert(v.page@.take(n as int) =~= v.page@);
    }
}

// -------------------------------------------------------------- page-layout

pub open spec fn viols_pl_page(v: page_layout::Page) -> Seq<Violation> {
    rule(
        rect_ok(v.params.page_rect),
        Loc::PageLayoutPage(v.id),
        ViolationKind::PageRectInvalid,
    ) + rule(
        pos_rect_ok(v.params.content_rect),
        Loc::PageLayoutPage(v.id),
        ViolationKind::ContentRectInvalid,
    )
}

pub open spec fn viols_pl_pages(xs: Seq<page_layout::Page>) -> Seq<Violation>
    decreases xs.len(),
{
    if xs.len() == 0 {
        Seq::<Violation>::empty()
    } else {
        viols_pl_page(xs[0]) + viols_pl_pages(xs.drop_first())
    }
}

pub open spec fn viols_page_layout(v: page_layout::PageLayout) -> Seq<Violation> {
    viols_pl_pages(v.page@)
}

fn check_pl_page(out: &mut Vec<Violation>, v: &page_layout::Page)
    requires
        page_layout::wf_pl_page(*v),
    ensures
        final(out)@ == old(out)@ + viols_pl_page(*v),
{
    let pr_ok = decimal_centi_at_least(&v.params.page_rect.height) && decimal_centi_at_least(
        &v.params.page_rect.width,
    );
    push_rule(out, pr_ok, Loc::PageLayoutPage(v.id), ViolationKind::PageRectInvalid);
    check_pos_rect(out, &v.params.content_rect, Loc::PageLayoutPage(v.id));
    proof {
        assert(out@ =~= old(out)@ + viols_pl_page(*v));
    }
}

proof fn viols_pl_pages_snoc(xs: Seq<page_layout::Page>, x: page_layout::Page)
    ensures
        viols_pl_pages(xs + seq![x]) == viols_pl_pages(xs) + viols_pl_page(x),
    decreases xs.len(),
{
    assert(viols_pl_pages(Seq::<page_layout::Page>::empty()) =~= Seq::<Violation>::empty());
    if xs.len() == 0 {
        assert(xs + seq![x] =~= seq![x]);
        assert(seq![x].drop_first() =~= Seq::<page_layout::Page>::empty());
        assert(viols_pl_pages(seq![x]) =~= viols_pl_page(x));
        assert(viols_pl_pages(xs + seq![x]) =~= viols_pl_pages(xs) + viols_pl_page(x));
    } else {
        assert((xs + seq![x]).drop_first() =~= xs.drop_first() + seq![x]);
        viols_pl_pages_snoc(xs.drop_first(), x);
        assert(viols_pl_pages(xs + seq![x]) =~= viols_pl_pages(xs) + viols_pl_page(x));
    }
}

fn check_page_layout(out: &mut Vec<Violation>, v: &page_layout::PageLayout)
    requires
        page_layout::wf_page_layout(*v),
    ensures
        final(out)@ == old(out)@ + viols_page_layout(*v),
{
    let n = v.page.len();
    let mut k: usize = 0;
    proof {
        assert(v.page@.take(0) =~= Seq::<page_layout::Page>::empty());
        assert(out@ =~= old(out)@ + viols_pl_pages(v.page@.take(0)));
    }
    while k < n
        invariant
            0 <= k <= n == v.page@.len(),
            page_layout::wf_page_layout(*v),
            out@ == old(out)@ + viols_pl_pages(v.page@.take(k as int)),
        decreases n - k,
    {
        check_pl_page(out, &v.page[k]);
        k = k + 1;
        proof {
            viols_pl_pages_snoc(v.page@.take(k - 1), v.page@[k - 1]);
            assert(v.page@.take(k - 1) + seq![v.page@[k - 1]] =~= v.page@.take(k as int));
        }
    }
    proof {
        assert(v.page@.take(n as int) =~= v.page@);
    }
}


// ------------------------------------------------------------------- output

pub open spec fn viols_picture_shape(v: PictureShapeOptions, loc: Loc) -> Seq<Violation> {
    rule(v.sensitivity <= 100, loc, ViolationKind::SensitivityOutOfRange)
}

fn check_picture_shape(out: &mut Vec<Violation>, v: &PictureShapeOptions, loc: Loc)
    ensures
        final(out)@ == old(out)@ + viols_picture_shape(*v, loc),
{
    push_rule(out, v.sensitivity <= 100, loc, ViolationKind::SensitivityOutOfRange);
}

pub open spec fn viols_dewarping(v: DewarpingOptions, loc: Loc) -> Seq<Violation> {
    rule(
        in_range(v.post_deskew_angle, -4500, 4500),
        loc,
        ViolationKind::PostDeskewAngleOutOfRange,
    )
}

fn check_dewarping(out: &mut Vec<Violation>, v: &DewarpingOptions, loc: Loc)
    requires
        crate::output::dewarping_options::wf_dewarping_options(*v),
    ensures
        final(out)@ == old(out)@ + viols_dewarping(*v, loc),
{
    let ok = in_centi_range(&v.post_deskew_angle, -4500, 4500);
    push_rule(out, ok, loc, ViolationKind::PostDeskewAngleOutOfRange);
}

pub open spec fn viols_segmenter(v: ColorSegmenterOptions, loc: Loc) -> Seq<Violation> {
    rule(
        -99 <= v.blue_threshold_adjustment <= 99,
        loc,
        ViolationKind::BlueThresholdAdjustmentOutOfRange,
    ) + rule(
        -99 <= v.green_threshold_adjustment <= 99,
        loc,
        ViolationKind::GreenThresholdAdjustmentOutOfRange,
    ) + rule(v.noise_reduction <= 999, loc, ViolationKind::NoiseReductionOutOfRange) + rule(
        -99 <= v.red_threshold_adjustment <= 99,
        loc,
        ViolationKind::RedThresholdAdjustmentOutOfRange,
    )
}

fn check_segmenter(out: &mut Vec<Violation>, v: &ColorSegmenterOptions, loc: Loc)
    ensures
        final(out)@ == old(out)@ + viols_segmenter(*v, loc),
{
    push_rule(
        out,
        -99 <= v.blue_threshold_adjustment && v.blue_threshold_adjustment <= 99,
        loc,
        ViolationKind::BlueThresholdAdjustmentOutOfRange,
    );
    push_rule(
        out,
        -99 <= v.green_threshold_adjustment && v.green_threshold_adjustment <= 99,
        loc,
        ViolationKind::GreenThresholdAdjustmentOutOfRange,
    );
    push_rule(out, v.noise_reduction <= 999, loc, ViolationKind::NoiseReductionOutOfRange);
    push_rule(
        out,
        -99 <= v.red_threshold_adjustment && v.red_threshold_adjustment <= 99,
        loc,
        ViolationKind::RedThresholdAdjustmentOutOfRange,
    );
    proof {
        assert(out@ =~= old(out)@ + viols_segmenter(*v, loc));
    }
}

pub open spec fn viols_bw(v: BW, loc: Loc) -> Seq<Violation> {
    rule(in_range(v.sauvola_coeff, 1, 999), loc, ViolationKind::SauvolaCoefOutOfRange) + rule(
        -100 <= v.threshold_adj <= 100,
        loc,
        ViolationKind::ThresholdAdjOutOfRange,
    ) + rule(3 <= v.window_size <= 9999, loc, ViolationKind::WindowSizeOutOfRange) + rule(
        in_range(v.wolf_coeff, 1, 999),
        loc,
        ViolationKind::WolfCoefOutOfRange,
    ) + rule(1 <= v.wolf_lower_bound <= 254, loc, ViolationKind::WolfLowerBoundOutOfRange) + rule(
        1 <= v.wolf_upper_bound <= 254,
        loc,
        ViolationKind::WolfUpperBoundOutOfRange,
    ) + viols_segmenter(v.color_segmenter_options, loc)
}

#[verifier::rlimit(100)]
fn check_bw(out: &mut Vec<Violation>, v: &BW, loc: Loc)
    requires
        crate::output::color_params::wf_bw(*v),
    ensures
        final(out)@ == old(out)@ + viols_bw(*v, loc),
{
    let sc = in_centi_range(&v.sauvola_coeff, 1, 999);
    push_rule(out, sc, loc, ViolationKind::SauvolaCoefOutOfRange);
    push_rule(
        out,
        -100 <= v.threshold_adj && v.threshold_adj <= 100,
        loc,
        ViolationKind::ThresholdAdjOutOfRange,
    );
    push_rule(
        out,
        3 <= v.window_size && v.window_size <= 9999,
        loc,
        ViolationKind::WindowSizeOutOfRange,
    );
    let wc = in_centi_range(&v.wolf_coeff, 1, 999);
    push_rule(out, wc, loc, ViolationKind::WolfCoefOutOfRange);
    push_rule(
        out,
        1 <= v.wolf_lower_bound && v.wolf_lower_bound <= 254,
        loc,
        ViolationKind::WolfLowerBoundOutOfRange,
    );
    push_rule(
        out,
        1 <= v.wolf_upper_bound && v.wolf_upper_bound <= 254,
        loc,
        ViolationKind::WolfUpperBoundOutOfRange,
    );
    check_segmenter(out, &v.color_segmenter_options, loc);
    proof {
        assert(out@ =~= old(out)@ + viols_bw(*v, loc));
    }
}

/// The colour-parameter rules: the posterization level floor in the
/// colour/grayscale block and every range in the black/white block.
pub open spec fn viols_color_params(v: ColorParams, loc: Loc) -> Seq<Violation> {
    (match v.color_or_grayscale {
        Option::None => Seq::<Violation>::empty(),
        Option::Some(cg) => rule(
            cg.posterization_options.level >= 2,
            loc,
            ViolationKind::PosterizationLevelOutOfRange,
        ),
    }) + (match v.bw {
        Option::None => Seq::<Violation>::empty(),
        Option::Some(b) => viols_bw(b, loc),
    })
}

fn check_color_params(out: &mut Vec<Violation>, v: &ColorParams, loc: Loc)
    requires
        crate::output::color_params::wf_color_params(*v),
    ensures
        final(out)@ == old(out)@ + viols_color_params(*v, loc),
{
    let ghost prev = out@;
    match &v.color_or_grayscale {
        Option::None => {},
        Option::Some(cg) => {
            push_rule(
                out,
                cg.posterization_options.level >= 2,
                loc,
                ViolationKind::PosterizationLevelOutOfRange,
            );
        },
    }
    match &v.bw {
        Option::None => {},
        Option::Some(b) => check_bw(out, b, loc),
    }
    proof {
        assert(out@ =~= prev + viols_color_params(*v, loc));
    }
}

/// The rules of the live rendering-parameter block of a page.
pub open spec fn viols_out_params(v: OutputPageParams, loc: Loc) -> Seq<Violation> {
    rule(in_range(v.despeckle_level, 100, 300), loc, ViolationKind::DespeckleLevelOutOfRange)
        + viols_picture_shape(v.picture_shape_options, loc) + viols_dewarping(
        v.dewarping_options,
        loc,
    )
}

fn check_out_params(out: &mut Vec<Violation>, v: &OutputPageParams, loc: Loc)
    requires
        crate::output::params::wf_out_params(*v),
    ensures
        final(out)@ == old(out)@ + viols_out_params(*v, loc),
{
    let dl = in_centi_range(&v.despeckle_level, 100, 300);
    push_rule(out, dl, loc, ViolationKind::DespeckleLevelOutOfRange);
    check_picture_shape(out, &v.picture_shape_options, loc);
    check_dewarping(out, &v.dewarping_options, loc);
    proof {
        assert(out@ =~= old(out)@ + viols_out_params(*v, loc));
    }
}

/// The rules of the settings snapshot inside an output-params record.
pub open spec fn viols_op_image(v: crate::output::output_params::Image, loc: Loc) -> Seq<
    Violation,
> {
    rule(in_range(v.despeckle_level, 100, 300), loc, ViolationKind::DespeckleLevelOutOfRange)
        + rule(pos_rect_ok(v.content_rect), loc, ViolationKind::ContentRectInvalid)
        + outline_rule(v.crop_area, loc) + viols_color_params(v.color_params, loc)
        + viols_picture_shape(v.picture_shape_options, loc) + viols_dewarping(
        v.dewarping_options,
        loc,
    )
}

#[verifier::rlimit(100)]
fn check_op_image(out: &mut Vec<Violation>, v: &crate::output::output_params::Image, loc: Loc)
    requires
        crate::output::output_params::wf_op_image(*v),
    ensures
        final(out)@ == old(out)@ + viols_op_image(*v, loc),
{
    let dl = in_centi_range(&v.despeckle_level, 100, 300);
    push_rule(out, dl, loc, ViolationKind::DespeckleLevelOutOfRange);
    check_pos_rect(out, &v.content_rect, loc);
    check_outline(out, &v.crop_area, loc);
    check_color_params(out, &v.color_params, loc);
    check_picture_shape(out, &v.picture_shape_options, loc);
    check_dewarping(out, &v.dewarping_options, loc);
    proof {
        assert(out@ =~= old(out)@ + viols_op_image(*v, loc));
    }
}

pub open spec fn viols_out_page(v: output_main::Page) -> Seq<Violation> {
    viols_out_params(v.params, Loc::OutputPage(v.id)) + (match v.output_params {
        Option::None => Seq::<Violation>::empty(),
        Option::Some(op) => viols_op_image(op.image, Loc::OutputParamsImage(v.id)),
    })
}

pub open spec fn viols_out_pages(xs: Seq<output_main::Page>) -> Seq<Violation>
    decreases xs.len(),
{
    if xs.len() == 0 {
        Seq::<Violation>::empty()
    } else {
        viols_out_page(xs[0]) + viols_out_pages(xs.drop_first())
    }
}

pub open spec fn viols_output(v: output_main::Output) -> Seq<Violation> {
    viols_out_pages(v.page@)
}

fn check_out_page(out: &mut Vec<Violation>, v: &output_main::Page)
    requires
        output_main::wf_out_page(*v),
    ensures
        final(out)@ == old(out)@ + viols_out_page(*v),
{
    check_out_params(out, &v.params, Loc::OutputPage(v.id));
    let ghost mid = out@;
    match &v.output_params {
        Option::None => {},
        Option::Some(op) => check_op_image(out, &op.image, Loc::OutputParamsImage(v.id)),
    }
    proof {
        assert(out@ =~= old(out)@ + viols_out_page(*v));
    }
}

proof fn viols_out_pages_snoc(xs: Seq<output_main::Page>, x: output_main::Page)
    ensures
        viols_out_pages(xs + seq![x]) == viols_out_pages(xs) + viols_out_page(x),
    decreases xs.len(),
{
    assert(viols_out_pages(Seq::<output_main::Page>::empty()) =~= Seq::<Violation>::empty());
    if xs.len() == 0 {
        assert(xs + seq![x] =~= seq![x]);
        assert(seq![x].drop_first() =~= Seq::<output_main::Page>::empty());
        assert(viols_out_pages(seq![x]) =~= viols_out_page(x));
        assert(viols_out_pages(xs + seq![x]) =~= viols_out_pages(xs) + viols_out_page(x));
    } else {
        assert((xs + seq![x]).drop_first() =~= xs.drop_first() + seq![x]);
        viols_out_pages_snoc(xs.drop_first(), x);
        assert(viols_out_pages(xs + seq![x]) =~= viols_out_pages(xs) + viols_out_page(x));
    }
}

fn check_output(out: &mut Vec<Violation>, v: &output_main::Output)
    requires
        output_main::wf_output(*v),
    ensures
        final(out)@ == old(out)@ + viols_output(*v),
{
    let n = v.page.len();
    let mut k: usize = 0;
    proof {
        assert(v.page@.take(0) =~= Seq::<output_main::Page>::empty());
        assert(out@ =~= old(out)@ + viols_out_pages(v.page@.take(0)));
    }
    while k < n
        invariant
            0 <= k <= n == v.page@.len(),
            output_main::wf_output(*v),
            out@ == old(out)@ + viols_out_pages(v.page@.take(k as int)),
        decreases n - k,
    {
        check_out_page(out, &v.page[k]);
        k = k + 1;
        proof {
            viols_out_pages_snoc(v.page@.take(k - 1), v.page@[k - 1]);
            assert(v.page@.take(k - 1) + seq![v.page@[k - 1]] =~= v.page@.take(k as int));
        }
    }
    proof {
        assert(v.page@.take(n as int) =~= v.page@);
    }
}

// ------------------------------------------------------------------ project

/// The format version this dialect supports.
pub const SUPPORTED_VERSION: u8 = 3;

/// Every violated rule of a project, in document order.
pub open spec fn viols_project(v: ProjectXML) -> Seq<Violation> {
    rule(v.version == SUPPORTED_VERSION, Loc::Project, ViolationKind::UnsupportedVersion)
        + viols_page_split(v.filters.page_split) + viols_deskew(v.filters.deskew)
        + viols_select_content(v.filters.select_content) + viols_page_layout(
        v.filters.page_layout,
    ) + viols_output(v.filters.output)
}

/// Validate a whole parsed project: the returned report holds exactly the
/// violated rules, in document order; an empty report means every rule
/// holds.
pub fn validate_project(v: &ProjectXML) -> (r: Vec<Violation>)
    requires
        wf_project(*v),
    ensures
        r@ == viols_project(*v),
{
    let mut out: Vec<Violation> = Vec::new();
    push_rule(&mut out, v.version == SUPPORTED_VERSION, Loc::Project, ViolationKind::UnsupportedVersion);
    check_page_split(&mut out, &v.filters.page_split);
    check_deskew(&mut out, &v.filters.deskew);
    check_select_content(&mut out, &v.filters.select_content);
    check_page_layout(&mut out, &v.filters.page_layout);
    check_output(&mut out, &v.filters.output);
    proof {
        assert(out@ =~= viols_project(*v));
    }
    out
}


// --------------------------------------------------------------------- laws

/// Outline closure: an outline whose first and last points differ is
/// reported as not closed, and one that closes (or is empty) passes, at any
/// location.
pub proof fn outline_closure_law(o: Outline, loc: Loc)
    ensures
        outline_closed(o) <==> outline_rule(o, loc).len() == 0,
        !outline_closed(o) ==> outline_rule(o, loc) == seq![
            Violation { loc, kind: ViolationKind::OutlineNotClosed },
        ],
{
}

/// Cross-field consistency of a page split: the report of an image holds a
/// layout-type mismatch exactly when its declared layout type, the resolved
/// variant of its pages, and its dependency snapshot do not all agree, even
/// though such a document parses.
pub proof fn layout_type_mismatch_law(v: page_split::Image)
    ensures
        viols_ps_image(v).contains(
            Violation { loc: Loc::PageSplitImage(v.id), kind: ViolationKind::LayoutTypeMismatch },
        ) <==> !layout_types_agree(v),
{
    let m = Violation { loc: Loc::PageSplitImage(v.id), kind: ViolationKind::LayoutTypeMismatch };
    if !layout_types_agree(v) {
        assert(viols_ps_image(v)[0] == m);
    }
    if viols_ps_image(v).contains(m) {
        if layout_types_agree(v) {
            let t = choose|t: int| 0 <= t < viols_ps_image(v).len() && viols_ps_image(v)[t] == m;
            assert(viols_ps_image(v)[t].kind == ViolationKind::OutlineNotClosed);
        }
    }
}

/// Range enforcement for the despeckle level: the report of a page's
/// rendering parameters holds a despeckle violation exactly when the level
/// lies outside 1 ..= 3.
pub proof fn despeckle_range_law(v: OutputPageParams, loc: Loc)
    ensures
        viols_out_params(v, loc).contains(
            Violation { loc, kind: ViolationKind::DespeckleLevelOutOfRange },
        ) <==> !in_range(v.despeckle_level, 100, 300),
{
    let m = Violation { loc, kind: ViolationKind::DespeckleLevelOutOfRange };
    if !in_range(v.despeckle_level, 100, 300) {
        assert(viols_out_params(v, loc)[0] == m);
    }
    if viols_out_params(v, loc).contains(m) {
        if in_range(v.despeckle_level, 100, 300) {
            let t = choose|t: int|
                0 <= t < viols_out_params(v, loc).len() && viols_out_params(v, loc)[t] == m;
            assert(viols_out_params(v, loc)[t].kind == ViolationKind::SensitivityOutOfRange
                || viols_out_params(v, loc)[t].kind == ViolationKind::PostDeskewAngleOutOfRange);
        }
    }
}

proof fn ps_images_not_project(xs: Seq<page_split::Image>)
    ensures
        forall|t: int|
            0 <= t < viols_ps_images(xs).len() ==> #[trigger] viols_ps_images(xs)[t].loc
                != Loc::Project,
    decreases xs.len(),
{
    if xs.len() > 0 {
        ps_images_not_project(xs.drop_first());
    }
}

proof fn ds_pages_not_project(xs: Seq<deskew::Page>)
    ensures
        forall|t: int|
            0 <= t < viols_ds_pages(xs).len() ==> #[trigger] viols_ds_pages(xs)[t].loc
                != Loc::Project,
    decreases xs.len(),
{
    if xs.len() > 0 {
        ds_pages_not_project(xs.drop_first());
    }
}

proof fn sc_pages_not_project(xs: Seq<select_content::Page>)
    ensures
        forall|t: int|
            0 <= t < viols_sc_pages(xs).len() ==> #[trigger] viols_sc_pages(xs)[t].loc
                != Loc::Project,
    decreases xs.len(),
{
    if xs.len() > 0 {
        sc_pages_not_project(xs.drop_first());
    }
}

proof fn pl_pages_not_project(xs: Seq<page_layout::Page>)
    ensures
        forall|t: int|
            0 <= t < viols_pl_pages(xs).len() ==> #[trigger] viols_pl_pages(xs)[t].loc
                != Loc::Project,
    decreases xs.len(),
{
    if xs.len() > 0 {
        pl_pages_not_project(xs.drop_first());
    }
}

proof fn segmenter_locs(v: ColorSegmenterOptions, loc: Loc)
    ensures
        forall|t: int|
            0 <= t < viols_segmenter(v, loc).len() ==> #[trigger] viols_segmenter(v, loc)[t].loc
                == loc,
{
}

proof fn bw_locs(v: BW, loc: Loc)
    ensures
        forall|t: int|
            0 <= t < viols_bw(v, loc).len() ==> #[trigger] viols_bw(v, loc)[t].loc == loc,
{
    segmenter_locs(v.color_segmenter_options, loc);
}

proof fn color_params_locs(v: ColorParams, loc: Loc)
    ensures
        forall|t: int|
            0 <= t < viols_color_params(v, loc).len() ==> #[trigger] viols_color_params(v, loc)[
                t
            ].loc == loc,
{
    match v.bw {
        Option::None => {},
        Option::Some(b) => bw_locs(b, loc),
    }
}

proof fn op_image_locs(v: crate::output::output_params::Image, loc: Loc)
    ensures
        forall|t: int|
            0 <= t < viols_op_image(v, loc).len() ==> #[trigger] viols_op_image(v, loc)[t].loc
                == loc,
{
    color_params_locs(v.color_params, loc);
}

proof fn out_page_not_project(x: output_main::Page)
    ensures
        forall|t: int|
            0 <= t < viols_out_page(x).len() ==> #[trigger] viols_out_page(x)[t].loc
                != Loc::Project,
{
    match x.output_params {
        Option::None => {},
        Option::Some(op) => op_image_locs(op.image, Loc::OutputParamsImage(x.id)),
    }
}

proof fn out_pages_not_project(xs: Seq<output_main::Page>)
    ensures
        forall|t: int|
            0 <= t < viols_out_pages(xs).len() ==> #[trigger] viols_out_pages(xs)[t].loc
                != Loc::Project,
    decreases xs.len(),
{
    if xs.len() > 0 {
        out_page_not_project(xs[0]);
        out_pages_not_project(xs.drop_first());
    }
}

/// The format version gate: a project whose version is not the single
/// supported value is reported with a version violation, and one whose
/// version is the supported value never is — only the version rule speaks
/// at the project root.
pub proof fn version_gate_law(p: ProjectXML)
    ensures
        viols_project(p).contains(
            Violation { loc: Loc::Project, kind: ViolationKind::UnsupportedVersion },
        ) <==> p.version != SUPPORTED_VERSION,
        p.version != SUPPORTED_VERSION ==> viols_project(p).len() >= 1,
{
    let m = Violation { loc: Loc::Project, kind: ViolationKind::UnsupportedVersion };
    if p.version != SUPPORTED_VERSION {
        assert(viols_project(p)[0] == m);
    }
    if viols_project(p).contains(m) && p.version == SUPPORTED_VERSION {
        let t = choose|t: int| 0 <= t < viols_project(p).len() && viols_project(p)[t] == m;
        ps_images_not_project(p.filters.page_split.image@);
        ds_pages_not_project(p.filters.deskew.page@);
        sc_pages_not_project(p.filters.select_content.page@);
        pl_pages_not_project(p.filters.page_layout.page@);
        out_pages_not_project(p.filters.output.page@);
        assert(viols_project(p)[t].loc != Loc::Project);
    }
}

} // verus!



