//! A whole export: plan the slides, decode each slide's image and let the
//! interface draw it (filters and placement are its own, fractional work),
//! then write the document or report the first problem met.

use std::collections::HashMap;
use std::sync::Arc;
use vstd::prelude::*;
use vstd::std_specs::hash::group_hash_axioms;
use crate::export_doc::{document_ok, finish_export, lemma_same_document, same_slide, same_slides, RenderedSlide};
use crate::export_plan::{
    export_fits, ids_fit, plan_export, sheet_count, slide_available, ExportError, ExportPlan,
};
use crate::imaging::{decode_error_text, decode_rgba, decoded_rgba, RgbaPixels};
use crate::pdf_model::{pdf_bytes, PdfDocModel};
use crate::pdf_types::Orientation;

use vstd::relations::{antisymmetric, reflexive, sorted_by, strongly_connected, total_ordering, transitive};
use vstd::seq_lib::lemma_sorted_unique;

verus! {

broadcast use group_hash_axioms;

/// What the stored image of slide `k` of `plan` decodes to, if it decodes.
pub open spec fn slide_image(
    plan: ExportPlan,
    images: Map<usize, Arc<Vec<u8>>>,
    k: int,
) -> Option<(u32, u32, Seq<u8>)> {
    decoded_rgba(images[plan.order@[k]]@)
}

/// The decoder's error text for the stored image of slide `k` of `plan`.
pub open spec fn slide_decode_error(
    plan: ExportPlan,
    images: Map<usize, Arc<Vec<u8>>>,
    k: int,
) -> Seq<char> {
    decode_error_text(images[plan.order@[k]]@)
}

/// `slide` is what `render` can give for slide number `k` drawn from the
/// decoded image `image`; there is no such slide where nothing decoded.
pub open spec fn drawn_from<F: Fn(RgbaPixels, usize) -> RenderedSlide>(
    render: F,
    image: Option<(u32, u32, Seq<u8>)>,
    k: int,
    slide: RenderedSlide,
) -> bool {
    exists|img: RgbaPixels|
        image == Some((img.width, img.height, img.data@)) && call_ensures(
            render,
            (img, k as usize),
            slide,
        )
}

/// `rendered` are the first slides of `plan`, each drawn by `render` from its
/// decoded image and its number.
pub open spec fn rendered_by<F: Fn(RgbaPixels, usize) -> RenderedSlide>(
    plan: ExportPlan,
    images: Map<usize, Arc<Vec<u8>>>,
    render: F,
    rendered: Seq<RenderedSlide>,
) -> bool {
    forall|k: int|
        0 <= k < rendered.len() ==> drawn_from(render, slide_image(plan, images, k), k, #[trigger] rendered[k])
}

proof fn lemma_rendered_push<F: Fn(RgbaPixels, usize) -> RenderedSlide>(
    plan: ExportPlan,
    images: Map<usize, Arc<Vec<u8>>>,
    render: F,
    before: Seq<RenderedSlide>,
    slide: RenderedSlide,
    seen: RgbaPixels,
)
    requires
        rendered_by(plan, images, render, before),
        slide_image(plan, images, before.len() as int) == Some((seen.width, seen.height, seen.data@)),
        call_ensures(render, (seen, before.len() as usize), slide),
    ensures
        rendered_by(plan, images, render, before.push(slide)),
{
    let after = before.push(slide);
    assert forall|j: int| 0 <= j < after.len() implies drawn_from(
        render,
        slide_image(plan, images, j),
        j,
        #[trigger] after[j],
    ) by {
        if j < before.len() {
            assert(after[j] == before[j]);
        } else {
            assert(call_ensures(render, (seen, j as usize), after[j]));
        }
    }
}

/// Decodes and draws the reachable slides of `plan` in order, stopping at
/// the first image that does not decode; gives the drawn slides and, if it
/// stopped, the decoder's error text for that image.
pub fn render_slides<F: Fn(RgbaPixels, usize) -> RenderedSlide>(
    plan: &ExportPlan,
    page_count: usize,
    images: &HashMap<usize, Arc<Vec<u8>>>,
    render: F,
) -> (r: (Vec<RenderedSlide>, Option<String>))
    requires
        plan.wf(page_count, images@.dom()),
        forall|img: RgbaPixels, k: usize| img.wf() ==> call_requires(render, (img, k)),
    ensures
        rendered_by(*plan, images@, render, r.0@),
        r.0@.len() <= plan.reachable,
        r.1 is None ==> r.0@.len() == plan.reachable,
        r.1 is Some ==> r.0@.len() < plan.reachable && slide_image(
            *plan,
            images@,
            r.0@.len() as int,
        ) is None,
        r.1 matches Some(cause) ==> cause@ == slide_decode_error(*plan, images@, r.0@.len() as int),
{
    let mut rendered: Vec<RenderedSlide> = Vec::new();
    let mut k: usize = 0;
    while k < plan.reachable
        invariant
            plan.wf(page_count, images@.dom()),
            forall|img: RgbaPixels, j: usize| img.wf() ==> call_requires(render, (img, j)),
            k <= plan.reachable,
            rendered@.len() == k,
            rendered_by(*plan, images@, render, rendered@),
        decreases plan.reachable - k,
    {
        let idx = plan.order[k];
        assert(images@.dom().contains(idx));
        let stored = images.get(&idx).unwrap();
        let bytes: &Vec<u8> = &**stored;
        match decode_rgba(bytes.as_slice()) {
            Ok(img) => {
                let ghost seen = img;
                let slide = render(img, k);
                let ghost before = rendered@;
                let ghost drawn = slide;
                rendered.push(slide);
                proof {
                    lemma_rendered_push(*plan, images@, render, before, drawn, seen);
                }
            },
            Err(cause) => {
                return (rendered, Some(cause));
            },
        }
        k += 1;
    }
    (rendered, None)
}

/// The export outcome `r` for a plan whose first `rendered` slides were drawn:
/// a decoding failure, reported with the decoder's error text, stops it
/// before the plan's missing page or image, and
/// only a plan with neither yields the written document.
pub open spec fn export_outcome<F: Fn(RgbaPixels, usize) -> RenderedSlide>(
    plan: ExportPlan,
    images: Map<usize, Arc<Vec<u8>>>,
    render: F,
    rendered: Seq<RenderedSlide>,
    orientation: Orientation,
    r: Result<Vec<u8>, ExportError>,
) -> bool {
    &&& rendered_by(plan, images, render, rendered)
    &&& rendered.len() <= plan.reachable
    &&& rendered.len() < plan.reachable ==> {
        &&& slide_image(plan, images, rendered.len() as int) is None
        &&& r is Err && r->Err_0 is DecodeFailed
        &&& r->Err_0->DecodeFailed_0@ == slide_decode_error(plan, images, rendered.len() as int)
    }
    &&& rendered.len() == plan.reachable ==> match plan.stop {
        Some(e) => r == Err::<Vec<u8>, ExportError>(e),
        None => {
            &&& r is Ok ==> exists|doc: PdfDocModel|
                document_ok(doc, rendered, plan.layout as nat, orientation) && r->Ok_0@
                    == pdf_bytes(doc)
            &&& r is Ok
        },
    }
}

proof fn lemma_export_fits_smaller(m: nat, n: nat, layout: nat)
    requires
        layout > 0,
        m <= n,
        export_fits(n, layout),
    ensures
        export_fits(m, layout),
{
    vstd::arithmetic::div_mod::lemma_div_is_ordered(
        (m + layout - 1) as int,
        (n + layout - 1) as int,
        layout as int,
    );
    assert(sheet_count(m, layout) * layout <= sheet_count(n, layout) * layout) by (nonlinear_arith)
        requires
            sheet_count(m, layout) <= sheet_count(n, layout),
    ;
    assert(sheet_count(m, layout) * (layout + 2) <= sheet_count(n, layout) * (layout + 2)) by (nonlinear_arith)
        requires
            sheet_count(m, layout) <= sheet_count(n, layout),
    ;
    if m > 0 {
        assert(n > 0);
    }
}

/// `r` is what exporting `selected` gives: an empty selection is refused;
/// otherwise the selection's plan (its pages in ascending order, each as
/// often as selected) is drawn slide by slide and ends as `export_outcome`
/// says.
pub open spec fn exported<F: Fn(RgbaPixels, usize) -> RenderedSlide>(
    selected: Seq<usize>,
    page_count: usize,
    images: Map<usize, Arc<Vec<u8>>>,
    layout: u32,
    orientation: Orientation,
    render: F,
    r: Result<Vec<u8>, ExportError>,
) -> bool {
    &&& selected.len() == 0 <==> r == Err::<Vec<u8>, ExportError>(ExportError::NoPagesSelected)
    &&& selected.len() > 0 ==> exists|plan: ExportPlan, rendered: Seq<RenderedSlide>|
        {
            &&& plan.wf(page_count, images.dom())
            &&& plan.order@.to_multiset() == selected.to_multiset()
            &&& plan.layout == layout
            &&& export_outcome(plan, images, render, rendered, orientation, r)
        }
}

/// Exports the selected pages: the slides in ascending page order, `layout`
/// to a sheet, each drawn by `render` from its decoded image. An empty
/// selection is refused; otherwise the first undecodable image, then the
/// first missing page or image, stops the export, and without either the
/// document is written.
pub fn export_pdf<F: Fn(RgbaPixels, usize) -> RenderedSlide>(
    selected: Vec<usize>,
    page_count: usize,
    images: &HashMap<usize, Arc<Vec<u8>>>,
    layout: u32,
    orientation: Orientation,
    render: F,
) -> (r: Result<Vec<u8>, ExportError>)
    requires
        selected@.len() > 0 ==> layout > 0 && export_fits(selected@.len(), layout as nat),
        forall|img: RgbaPixels, k: usize| img.wf() ==> call_requires(render, (img, k)),
    ensures
        exported(selected@, page_count, images@, layout, orientation, render, r),
{
    let ghost count = selected@.len();
    let ghost chosen = selected@;
    let plan = match plan_export(selected, page_count, images, layout) {
        Ok(p) => p,
        Err(e) => {
            return Err(e);
        },
    };
    let (rendered, decode_error) = render_slides(&plan, page_count, images, render);
    proof {
        vstd::seq_lib::to_multiset_len(plan.order@);
        vstd::seq_lib::to_multiset_len(chosen);
        if decode_error is None && plan.stop is None {
            lemma_export_fits_smaller(rendered@.len(), count, layout as nat);
        }
    }
    let ghost drawn = rendered@;
    let ghost kept = plan;
    let r = finish_export(plan, &rendered, decode_error, orientation);
    proof {
        assert(export_outcome(kept, images@, render, drawn, orientation, r));
        assert(kept.order@.to_multiset() == chosen.to_multiset());
    }
    r
}

/// The order in which pages were selected does not change an export: plans
/// of two selections holding the same pages, each as often, list the same
/// slides, reach as far and stop at the same error, so they admit exactly the
/// same outcomes.
pub proof fn lemma_selection_order_irrelevant<F: Fn(RgbaPixels, usize) -> RenderedSlide>(
    p1: ExportPlan,
    p2: ExportPlan,
    page_count: usize,
    images: Map<usize, Arc<Vec<u8>>>,
    render: F,
    rendered: Seq<RenderedSlide>,
    orientation: Orientation,
    r: Result<Vec<u8>, ExportError>,
)
    requires
        p1.wf(page_count, images.dom()),
        p2.wf(page_count, images.dom()),
        p1.order@.to_multiset() == p2.order@.to_multiset(),
        p1.layout == p2.layout,
    ensures
        p1.order@ == p2.order@,
        p1.reachable == p2.reachable,
        p1.stop == p2.stop,
        export_outcome(p1, images, render, rendered, orientation, r) == export_outcome(
            p2,
            images,
            render,
            rendered,
            orientation,
            r,
        ),
{
    let leq = |a: usize, b: usize| a <= b;
    assert(total_ordering(leq)) by {
        assert(reflexive(leq));
        assert(antisymmetric(leq));
        assert(transitive(leq));
        assert(strongly_connected(leq));
    }
    assert(sorted_by(p1.order@, leq));
    assert(sorted_by(p2.order@, leq));
    lemma_sorted_unique(p1.order@, p2.order@, leq);
    let dom = images.dom();
    if p1.reachable < p2.reachable {
        assert(slide_available(p2.order@[p1.reachable as int], page_count, dom));
    } else if p2.reachable < p1.reachable {
        assert(slide_available(p1.order@[p2.reachable as int], page_count, dom));
    }
}


/// `render` draws the same slide whenever it is given the same picture and
/// the same slide number.
pub open spec fn render_deterministic<F: Fn(RgbaPixels, usize) -> RenderedSlide>(render: F) -> bool {
    forall|a: RgbaPixels, b: RgbaPixels, k: usize, s: RenderedSlide, t: RenderedSlide|
        #![trigger call_ensures(render, (a, k), s), call_ensures(render, (b, k), t)]
        a.width == b.width && a.height == b.height && a.data@ == b.data@ && call_ensures(
            render,
            (a, k),
            s,
        ) && call_ensures(render, (b, k), t) ==> same_slide(s, t)
}

/// Two export results are alike: the same bytes, or the same error with the
/// same text.
pub open spec fn same_outcome(r1: Result<Vec<u8>, ExportError>, r2: Result<Vec<u8>, ExportError>) -> bool {
    match (r1, r2) {
        (Ok(b1), Ok(b2)) => b1@ == b2@,
        (Err(ExportError::DecodeFailed(c1)), Err(ExportError::DecodeFailed(c2))) => c1@ == c2@,
        (Err(ExportError::SaveFailed(c1)), Err(ExportError::SaveFailed(c2))) => c1@ == c2@,
        (Err(e1), Err(e2)) => e1 == e2,
        _ => false,
    }
}

/// The order in which pages were selected does not change an export: when
/// the interface draws each slide deterministically, exporting two
/// selections that hold the same pages, each as often, gives the same bytes
/// or the same error.
pub proof fn lemma_export_order_irrelevant<F: Fn(RgbaPixels, usize) -> RenderedSlide>(
    sel1: Seq<usize>,
    sel2: Seq<usize>,
    page_count: usize,
    images: Map<usize, Arc<Vec<u8>>>,
    layout: u32,
    orientation: Orientation,
    render: F,
    r1: Result<Vec<u8>, ExportError>,
    r2: Result<Vec<u8>, ExportError>,
)
    requires
        sel1.to_multiset() == sel2.to_multiset(),
        render_deterministic(render),
        exported(sel1, page_count, images, layout, orientation, render, r1),
        exported(sel2, page_count, images, layout, orientation, render, r2),
    ensures
        same_outcome(r1, r2),
{
    vstd::seq_lib::to_multiset_len(sel1);
    vstd::seq_lib::to_multiset_len(sel2);
    if sel1.len() == 0 {
        return;
    }
    let (p1, d1) = choose|plan: ExportPlan, rendered: Seq<RenderedSlide>|
        {
            &&& plan.wf(page_count, images.dom())
            &&& plan.order@.to_multiset() == sel1.to_multiset()
            &&& plan.layout == layout
            &&& export_outcome(plan, images, render, rendered, orientation, r1)
        };
    let (p2, d2) = choose|plan: ExportPlan, rendered: Seq<RenderedSlide>|
        {
            &&& plan.wf(page_count, images.dom())
            &&& plan.order@.to_multiset() == sel2.to_multiset()
            &&& plan.layout == layout
            &&& export_outcome(plan, images, render, rendered, orientation, r2)
        };
    lemma_selection_order_irrelevant(p1, p2, page_count, images, render, d1, orientation, r1);
    assert(forall|k: int| #[trigger] slide_image(p1, images, k) == slide_image(p2, images, k));
    assert(forall|k: int| #[trigger] slide_decode_error(p1, images, k) == slide_decode_error(p2, images, k));
    if d1.len() < d2.len() {
        assert(drawn_from(render, slide_image(p2, images, d1.len() as int), d1.len() as int, d2[d1.len() as int]));
    }
    if d2.len() < d1.len() {
        assert(drawn_from(render, slide_image(p1, images, d2.len() as int), d2.len() as int, d1[d2.len() as int]));
    }
    assert(d1.len() == d2.len());
    assert forall|k: int| 0 <= k < d1.len() implies same_slide(#[trigger] d1[k], d2[k]) by {
        assert(drawn_from(render, slide_image(p1, images, k), k, d1[k]));
        assert(drawn_from(render, slide_image(p2, images, k), k, d2[k]));
        let a = choose|img: RgbaPixels|
            slide_image(p1, images, k) == Some((img.width, img.height, img.data@)) && call_ensures(
                render,
                (img, k as usize),
                d1[k],
            );
        let b = choose|img: RgbaPixels|
            slide_image(p2, images, k) == Some((img.width, img.height, img.data@)) && call_ensures(
                render,
                (img, k as usize),
                d2[k],
            );
        assert(call_ensures(render, (a, k as usize), d1[k]) && call_ensures(render, (b, k as usize), d2[k]));
    }
    assert(same_slides(d1, d2));
    if d1.len() == p1.reachable && p1.stop is None {
        let doc1 = choose|doc: PdfDocModel|
            document_ok(doc, d1, p1.layout as nat, orientation) && r1->Ok_0@ == pdf_bytes(doc);
        let doc2 = choose|doc: PdfDocModel|
            document_ok(doc, d2, p2.layout as nat, orientation) && r2->Ok_0@ == pdf_bytes(doc);
        lemma_same_document(doc1, doc2, d1, d2, layout as nat, orientation);
    }
}

} // verus!
