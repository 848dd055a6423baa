//! Planning an export: which selected pages go on which output sheet, in
//! which grid cell, under which PDF object numbers, and which problem (if any)
//! stops the export before the document is assembled.

use std::collections::HashMap;
use std::sync::Arc;
use vstd::prelude::*;
use vstd::std_specs::hash::group_hash_axioms;
use crate::text::{ascii_chars, ascii_string, concat_strings, decimal_bytes, decimal_u64, lemma_decimal_ascii};

verus! {

broadcast use group_hash_axioms;

/// Why an export produced no document.
#[derive(Clone, Debug, PartialEq, Eq)]
pub enum ExportError {
    /// The selection is empty.
    NoPagesSelected,
    /// A selected page index is not below the number of loaded pages.
    PageNotFound(usize),
    /// A selected page has no full-size image.
    ImageNotFound(usize),
    /// The image of a selected page could not be decoded; holds the cause.
    DecodeFailed(String),
    /// The PDF writer failed; holds the cause.
    SaveFailed(String),
}

/// The text of an export error, as the interface shows it.
pub open spec fn export_error_text(e: ExportError) -> Seq<char> {
    match e {
        ExportError::NoPagesSelected => "No pages selected"@,
        ExportError::PageNotFound(i) => "Page "@ + ascii_chars(decimal_bytes(i as nat))
            + " not found"@,
        ExportError::ImageNotFound(i) => "Image data not found for page "@ + ascii_chars(
            decimal_bytes(i as nat),
        ),
        ExportError::DecodeFailed(cause) => "Failed to decode image: "@ + cause@,
        ExportError::SaveFailed(cause) => "Failed to save PDF: "@ + cause@,
    }
}

impl ExportError {
    /// The message of this error: `"Page 7 not found"`, `"No pages selected"`, ...
    pub fn message(&self) -> (s: String)
        ensures
            s@ == export_error_text(*self),
    {
        match self {
            ExportError::NoPagesSelected => String::from_str("No pages selected"),
            ExportError::PageNotFound(i) => {
                proof {
                    lemma_decimal_ascii(*i as nat);
                }
                let number = ascii_string(decimal_u64(*i as u64));
                let head = concat_strings("Page ", number.as_str());
                concat_strings(head.as_str(), " not found")
            },
            ExportError::ImageNotFound(i) => {
                proof {
                    lemma_decimal_ascii(*i as nat);
                }
                let number = ascii_string(decimal_u64(*i as u64));
                concat_strings("Image data not found for page ", number.as_str())
            },
            ExportError::DecodeFailed(cause) => concat_strings(
                "Failed to decode image: ",
                cause.as_str(),
            ),
            ExportError::SaveFailed(cause) => concat_strings("Failed to save PDF: ", cause.as_str()),
        }
    }
}

/// Columns and rows of the grid on each sheet for a slides-per-sheet choice.
/// Choices other than 1, 2, 3, 4 and 6 use a single cell.
pub open spec fn grid_of(layout: u32) -> (u32, u32) {
    if layout == 1 {
        (1, 1)
    } else if layout == 2 {
        (1, 2)
    } else if layout == 3 {
        (1, 3)
    } else if layout == 4 {
        (2, 2)
    } else if layout == 6 {
        (2, 3)
    } else {
        (1, 1)
    }
}

/// Columns and rows of the grid for a slides-per-sheet choice.
pub fn grid_for_layout(layout: u32) -> (g: (u32, u32))
    ensures
        g == grid_of(layout),
{
    match layout {
        1 => (1, 1),
        2 => (1, 2),
        3 => (1, 3),
        4 => (2, 2),
        6 => (2, 3),
        _ => (1, 1),
    }
}

/// Number of sheets needed for `n` slides, `layout` to a sheet.
pub open spec fn sheet_count(n: nat, layout: nat) -> nat
    recommends
        layout > 0,
{
    ((n + layout - 1) as nat) / layout
}

/// The classic numbering of an export of `n` slides, `layout` to a sheet,
/// serves while it cannot collide (at most 99 sheets of at most 100 slides):
/// the page dictionary of sheet `p` is `10 * (p + 1)`, its content stream the
/// next number, and its images `1000 + 100 * p` on. Past that, from 3 on,
/// each sheet has a block of `layout + 2` numbers: its page dictionary, its
/// content stream, then its images.
pub open spec fn classic_numbering(n: nat, layout: nat) -> bool {
    sheet_count(n, layout) <= 99 && layout <= 100
}

/// Object number of the page dictionary of sheet `sheet`.
pub open spec fn page_object_id(n: nat, layout: nat, sheet: nat) -> nat {
    if classic_numbering(n, layout) {
        (sheet + 1) * 10
    } else {
        3 + sheet * (layout + 2)
    }
}

/// Object number of the content stream of sheet `sheet`.
pub open spec fn content_object_id(n: nat, layout: nat, sheet: nat) -> nat {
    page_object_id(n, layout, sheet) + 1
}

/// Object number of the image of the slide at `position` on sheet `sheet`.
pub open spec fn image_object_id(n: nat, layout: nat, sheet: nat, position: nat) -> nat {
    if classic_numbering(n, layout) {
        sheet * 100 + position + 1000
    } else {
        page_object_id(n, layout, sheet) + 2 + position
    }
}

/// Object number of the page tree root.
pub open spec fn pages_object_id() -> nat {
    2
}

/// Object number of the document catalog.
pub open spec fn catalog_object_id() -> nat {
    1
}

/// Every object number of an export of `n` slides, `layout` to a sheet, is
/// below the largest 32-bit number (the writer numbers objects with `u32`
/// and gives the cross-reference stream the number after the largest): the
/// classic numbering always is, and the last block of the other ends at
/// `2 + sheets * (layout + 2)`.
pub open spec fn ids_fit(n: nat, layout: nat) -> bool {
    classic_numbering(n, layout) || (n > 0 ==> 2 + sheet_count(n, layout) * (layout + 2) < u32::MAX)
}

/// The indices in `s` are in ascending order.
pub open spec fn ascending(s: Seq<usize>) -> bool {
    forall|i: int, j: int| 0 <= i <= j < s.len() ==> s[i] <= s[j]
}

/// A selected page can be placed: it is a loaded page and has an image.
pub open spec fn slide_available(idx: usize, page_count: usize, images: Set<usize>) -> bool {
    idx < page_count && images.contains(idx)
}

/// The error that stops an export at slide `at` of `order` (none if `at`
/// is past the end).
pub open spec fn stop_at(order: Seq<usize>, page_count: usize, at: nat) -> Option<ExportError> {
    if at >= order.len() {
        None
    } else if order[at as int] >= page_count {
        Some(ExportError::PageNotFound(order[at as int]))
    } else {
        Some(ExportError::ImageNotFound(order[at as int]))
    }
}

/// What an export will place, decided before any image is decoded.
#[derive(Clone, Debug)]
pub struct ExportPlan {
    /// The selected page indices in ascending order; slide `k` shows page `order[k]`.
    pub order: Vec<usize>,
    /// Slides per sheet.
    pub layout: u32,
    /// Grid columns on a sheet.
    pub columns: u32,
    /// Grid rows on a sheet.
    pub rows: u32,
    /// Number of leading slides whose page and image exist.
    pub reachable: usize,
    /// The error met at slide `reachable`, if any.
    pub stop: Option<ExportError>,
}

impl ExportPlan {
    /// The plan holds together: slides are ascending, the grid is the one of
    /// the layout, and `reachable`/`stop` describe the first missing slide.
    pub open spec fn wf(&self, page_count: usize, images: Set<usize>) -> bool {
        &&& self.layout > 0
        &&& ascending(self.order@)
        &&& (self.columns, self.rows) == grid_of(self.layout)
        &&& self.reachable <= self.order@.len()
        &&& forall|k: int|
            0 <= k < self.reachable ==> slide_available(
                #[trigger] self.order@[k],
                page_count,
                images,
            )
        &&& self.reachable < self.order@.len() ==> !slide_available(
            self.order@[self.reachable as int],
            page_count,
            images,
        )
        &&& self.stop == stop_at(self.order@, page_count, self.reachable as nat)
    }

    /// Sheet (from 0) that slide `k` goes on.
    pub fn slide_sheet(&self, k: usize) -> (s: usize)
        requires
            self.layout > 0,
        ensures
            s == (k as nat) / (self.layout as nat),
    {
        k / (self.layout as usize)
    }

    /// Grid cell `(column, row)` of slide `k` on its sheet.
    pub fn slide_cell(&self, k: usize) -> (cell: (usize, usize))
        requires
            self.layout > 0,
            self.columns > 0,
        ensures
            cell.0 == ((k as nat) % (self.layout as nat)) % (self.columns as nat),
            cell.1 == ((k as nat) % (self.layout as nat)) / (self.columns as nat),
    {
        let position = k % (self.layout as usize);
        (position % (self.columns as usize), position / (self.columns as usize))
    }
}

/// Grid cell `(column, row)` of slide `k` on its sheet, for `layout` slides
/// to a sheet.
pub fn slide_cell_for(layout: u32, k: usize) -> (cell: (usize, usize))
    requires
        layout > 0,
    ensures
        cell.0 == ((k as nat) % (layout as nat)) % (grid_of(layout).0 as nat),
        cell.1 == ((k as nat) % (layout as nat)) / (grid_of(layout).0 as nat),
{
    let (columns, _rows) = grid_for_layout(layout);
    let position = k % (layout as usize);
    (position % (columns as usize), position / (columns as usize))
}

/// `slice::sort` from std: afterwards the vector is in ascending order and
/// holds the same values as many times as before.
#[verifier::external_body]
fn sort_ascending(v: &mut Vec<usize>)
    ensures
        ascending(final(v)@),
        final(v)@.to_multiset() == old(v)@.to_multiset(),
{
    v.sort();
}

/// Decides what an export of `selected` will hold: the slides in ascending
/// page order, the grid, and the first selected page that is missing or has
/// no image. An empty selection is refused.
pub fn plan_export(
    selected: Vec<usize>,
    page_count: usize,
    images: &HashMap<usize, Arc<Vec<u8>>>,
    layout: u32,
) -> (r: Result<ExportPlan, ExportError>)
    requires
        selected@.len() > 0 ==> layout > 0,
    ensures
        selected@.len() == 0 <==> r == Err::<ExportPlan, ExportError>(ExportError::NoPagesSelected),
        selected@.len() > 0 <==> r is Ok,
        r is Ok ==> {
            let plan = r->Ok_0;
            &&& plan.wf(page_count, images@.dom())
            &&& plan.order@.to_multiset() == selected@.to_multiset()
            &&& plan.layout == layout
        },
{
    if selected.len() == 0 {
        return Err(ExportError::NoPagesSelected);
    }
    let mut order = selected;
    sort_ascending(&mut order);
    let (columns, rows) = grid_for_layout(layout);
    let mut reachable: usize = 0;
    let mut stop: Option<ExportError> = None;
    while reachable < order.len()
        invariant_except_break
            reachable <= order@.len(),
            forall|k: int|
                0 <= k < reachable ==> slide_available(
                    #[trigger] order@[k],
                    page_count,
                    images@.dom(),
                ),
            stop is None,
        ensures
            reachable <= order@.len(),
            forall|k: int|
                0 <= k < reachable ==> slide_available(
                    #[trigger] order@[k],
                    page_count,
                    images@.dom(),
                ),
            stop == stop_at(order@, page_count, reachable as nat),
            reachable < order@.len() ==> !slide_available(
                order@[reachable as int],
                page_count,
                images@.dom(),
            ),
        decreases order@.len() - reachable,
    {
        let idx = order[reachable];
        if idx >= page_count {
            stop = Some(ExportError::PageNotFound(idx));
            break;
        }
        if !images.contains_key(&idx) {
            stop = Some(ExportError::ImageNotFound(idx));
            break;
        }
        reachable += 1;
    }
    proof {
        assert(selected@.len() > 0);
        assert(order@.len() > 0) by {
            vstd::seq_lib::to_multiset_len(order@);
            vstd::seq_lib::to_multiset_len(selected@);
        }
    }
    Ok(ExportPlan { order, layout, columns, rows, reachable, stop })
}

/// An export of `n` slides, `layout` to a sheet, stays within machine
/// integers: its object numbers fit in 32 bits and its slide counter in a
/// `usize`.
pub open spec fn export_fits(n: nat, layout: nat) -> bool {
    &&& ids_fit(n, layout)
    &&& sheet_count(n, layout) * layout <= usize::MAX
}

/// Whether an export of `n` slides, `layout` to a sheet, stays within
/// machine integers (see `export_fits`).
pub fn export_ids_fit(n: usize, layout: u32) -> (b: bool)
    requires
        layout > 0,
    ensures
        b == export_fits(n as nat, layout as nat),
{
    let layout_n = layout as u128;
    let sheets: u128 = ((n as u128) + layout_n - 1) / layout_n;
    proof {
        assert(sheets == sheet_count(n as nat, layout as nat));
        assert(sheets <= 18446744073709551616) by (nonlinear_arith)
            requires
                sheets == ((n as u128) + layout_n - 1) as int / (layout_n as int),
                layout_n >= 1,
                n <= 18446744073709551615,
        ;
        assert(sheets * (layout_n + 2) <= 18446744073709551616 * 4294967297) by (nonlinear_arith)
            requires
                sheets <= 18446744073709551616,
                layout_n <= 4294967295,
        ;
        assert(sheets * layout_n <= 18446744073709551616 * 4294967295) by (nonlinear_arith)
            requires
                sheets <= 18446744073709551616,
                layout_n <= 4294967295,
        ;
    }
    let classic = sheets <= 99 && layout_n <= 100;
    (classic || n == 0 || 2 + sheets * (layout_n + 2) < 4294967295) && sheets * layout_n
        <= usize::MAX as u128
}

} // verus!
