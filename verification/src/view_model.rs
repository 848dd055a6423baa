//! What the page preview shows: the loaded pages grouped by file, which of
//! them are selected, and the counts and labels around them.

use std::collections::HashSet;
use vstd::prelude::*;
use vstd::std_specs::hash::group_hash_axioms;
use crate::app_state::AppState;
use crate::pdf_types::PdfPage;
use crate::text::{ascii_chars, ascii_string, concat_strings, decimal_bytes, decimal_u64, lemma_decimal_ascii};

verus! {

broadcast use {group_hash_axioms, vstd::seq_lib::group_seq_properties};

/// The page at position `j` has the id `id`.
pub open spec fn id_at(pages: Seq<PdfPage>, id: Seq<char>, j: int) -> bool {
    0 <= j < pages.len() && pages[j].id@ == id
}

/// `j` is the first position of a page with the id `id`.
pub open spec fn first_id_at(pages: Seq<PdfPage>, id: Seq<char>, j: int) -> bool {
    &&& id_at(pages, id, j)
    &&& forall|k: int| 0 <= k < j ==> !#[trigger] id_at(pages, id, k)
}

/// Position of the first page whose id is `id`, or 0 when no page has it.
pub open spec fn position_of_id(pages: Seq<PdfPage>, id: Seq<char>) -> int {
    if exists|j: int| first_id_at(pages, id, j) {
        choose|j: int| first_id_at(pages, id, j)
    } else {
        0
    }
}

/// The position by which the preview finds a page again: that of the first
/// page with its id.
pub open spec fn position_by_id(pages: Seq<PdfPage>) -> spec_fn(PdfPage) -> usize {
    |p: PdfPage| position_of_id(pages, p.id@) as usize
}

/// The page belongs to the file numbered `k`.
pub open spec fn in_file(k: int) -> spec_fn(PdfPage) -> bool {
    |p: PdfPage| p.pdf_index == k
}

/// The pages of the file numbered `k`, in order.
pub open spec fn file_pages(pages: Seq<PdfPage>, k: int) -> Seq<PdfPage> {
    pages.filter(in_file(k))
}

/// The position is selected.
pub open spec fn is_selected(selected: Set<usize>) -> spec_fn(usize) -> bool {
    |g: usize| selected.contains(g)
}

/// How many of the positions are selected (a position counts as often as it
/// occurs).
pub open spec fn selected_among(positions: Seq<usize>, selected: Set<usize>) -> nat {
    positions.filter(is_selected(selected)).len()
}

/// The file numbered `k` has pages.
pub open spec fn has_pages(pages: Seq<PdfPage>) -> spec_fn(usize) -> bool {
    |k: usize| file_pages(pages, k as int).len() > 0
}

/// The numbers (from 1) of the files that get a group: those among the first
/// `file_count` that have pages, in order.
pub open spec fn listed_files(pages: Seq<PdfPage>, file_count: nat) -> Seq<usize> {
    Seq::new(file_count, |f: int| (f + 1) as usize).filter(has_pages(pages))
}

/// The pages of one file as the preview shows them.
pub struct PdfGroup {
    /// Number of the file, from 1.
    pub pdf_index: usize,
    /// For each page of the file, in order, the position it is toggled by.
    pub page_positions: Vec<usize>,
    /// For each page of the file, in order, its page number.
    pub page_numbers: Vec<u32>,
    /// How many of `page_positions` are selected.
    pub selected_count: usize,
    /// Every page of the file counts as selected.
    pub all_selected: bool,
}

/// `g` describes the file numbered `g.pdf_index` among `pages`.
pub open spec fn group_ok(g: PdfGroup, pages: Seq<PdfPage>, selected: Set<usize>) -> bool {
    let fp = file_pages(pages, g.pdf_index as int);
    &&& g.page_positions@ == fp.map_values(position_by_id(pages))
    &&& g.page_numbers@ == fp.map_values(|p: PdfPage| p.page_number)
    &&& g.selected_count == selected_among(g.page_positions@, selected)
    &&& g.all_selected == (g.selected_count == g.page_positions@.len())
}

/// The position of the first page whose id is `id`, or 0.
pub fn find_position_of_id(pages: &Vec<PdfPage>, id: &String) -> (r: usize)
    ensures
        r == position_of_id(pages@, id@),
{
    let mut j: usize = 0;
    while j < pages.len()
        invariant
            j <= pages@.len(),
            forall|k: int| 0 <= k < j ==> !#[trigger] id_at(pages@, id@, k),
        decreases pages@.len() - j,
    {
        if pages[j].id == *id {
            proof {
                assert(first_id_at(pages@, id@, j as int));
                let c = choose|x: int| first_id_at(pages@, id@, x);
                assert(first_id_at(pages@, id@, c));
                if c < j {
                    assert(!id_at(pages@, id@, c));
                } else if c > j {
                    assert(!id_at(pages@, id@, j as int));
                }
            }
            return j;
        }
        j += 1;
    }
    proof {
        assert forall|x: int| !first_id_at(pages@, id@, x) by {
            if first_id_at(pages@, id@, x) {
                assert(id_at(pages@, id@, x));
            }
        }
    }
    0
}

/// The preview group of the file numbered `pdf_index`.
pub fn file_group(pages: &Vec<PdfPage>, selected: &HashSet<usize>, pdf_index: usize) -> (g: PdfGroup)
    ensures
        g.pdf_index == pdf_index,
        group_ok(g, pages@, selected@),
{
    let ghost all = pages@;
    let ghost pos = position_by_id(all);
    let ghost num = |p: PdfPage| p.page_number;
    let ghost pred = in_file(pdf_index as int);
    let mut positions: Vec<usize> = Vec::new();
    let mut numbers: Vec<u32> = Vec::new();
    let mut count: usize = 0;
    let mut i: usize = 0;
    while i < pages.len()
        invariant
            i <= all.len(),
            all == pages@,
            pos == position_by_id(all),
            num == (|p: PdfPage| p.page_number),
            pred == in_file(pdf_index as int),
            positions@ == all.take(i as int).filter(pred).map_values(pos),
            numbers@ == all.take(i as int).filter(pred).map_values(num),
            count == selected_among(positions@, selected@),
            count <= positions@.len() <= i,
        decreases all.len() - i,
    {
        let ghost before = all.take(i as int);
        proof {
            assert(all.take(i + 1) == before.push(all[i as int]));
            before.lemma_filter_push(all[i as int], pred);
        }
        if pages[i].pdf_index == pdf_index {
            let p = find_position_of_id(pages, &pages[i].id);
            let ghost old_positions = positions@;
            positions.push(p);
            numbers.push(pages[i].page_number);
            proof {
                old_positions.lemma_filter_push(p, is_selected(selected@));
                assert(positions@ =~= before.push(all[i as int]).filter(pred).map_values(pos));
                assert(numbers@ =~= before.push(all[i as int]).filter(pred).map_values(num));
            }
            if selected.contains(&p) {
                count += 1;
            }
        }
        i += 1;
    }
    proof {
        assert(all.take(all.len() as int) == all);
    }
    let all_selected = count == positions.len();
    PdfGroup { pdf_index, page_positions: positions, page_numbers: numbers, selected_count: count, all_selected }
}

/// The preview groups of the first `file_count` files: one for each file
/// that has pages, in file order.
pub fn pdf_groups(pages: &Vec<PdfPage>, selected: &HashSet<usize>, file_count: usize) -> (r: Vec<PdfGroup>)
    requires
        file_count < usize::MAX,
    ensures
        r@.map_values(|g: PdfGroup| g.pdf_index) == listed_files(pages@, file_count as nat),
        forall|j: int| 0 <= j < r@.len() ==> group_ok(#[trigger] r@[j], pages@, selected@),
{
    let ghost keep = has_pages(pages@);
    let ghost index_of = |g: PdfGroup| g.pdf_index;
    let mut r: Vec<PdfGroup> = Vec::new();
    let mut f: usize = 0;
    while f < file_count
        invariant
            f <= file_count < usize::MAX,
            keep == has_pages(pages@),
            index_of == (|g: PdfGroup| g.pdf_index),
            r@.map_values(index_of) == Seq::new(f as nat, |x: int| (x + 1) as usize).filter(keep),
            forall|j: int| 0 <= j < r@.len() ==> group_ok(#[trigger] r@[j], pages@, selected@),
        decreases file_count - f,
    {
        let ghost before = Seq::new(f as nat, |x: int| (x + 1) as usize);
        let ghost old_r = r@;
        let g = file_group(pages, selected, f + 1);
        proof {
            assert(Seq::new((f + 1) as nat, |x: int| (x + 1) as usize) == before.push((f + 1) as usize));
            before.lemma_filter_push((f + 1) as usize, keep);
            assert(g.page_positions@.len() == file_pages(pages@, (f + 1) as int).len());
        }
        if g.page_positions.len() > 0 {
            r.push(g);
            proof {
                assert(r@.map_values(index_of) =~= old_r.map_values(index_of).push((f + 1) as usize));
            }
        }
        f += 1;
    }
    r
}

/// Decimal notation of `n` as a string.
fn decimal_text(n: u64) -> (s: String)
    ensures
        s@ == ascii_chars(decimal_bytes(n as nat)),
{
    proof {
        lemma_decimal_ascii(n as nat);
    }
    ascii_string(decimal_u64(n))
}

/// `"<selected> of <total> selected"`, the count above the preview.
pub fn selection_summary(selected: usize, total: usize) -> (s: String)
    ensures
        s@ == ascii_chars(decimal_bytes(selected as nat)) + " of "@ + ascii_chars(
            decimal_bytes(total as nat),
        ) + " selected"@,
{
    let a = decimal_text(selected as u64);
    let b = concat_strings(a.as_str(), " of ");
    let c = decimal_text(total as u64);
    let d = concat_strings(b.as_str(), c.as_str());
    concat_strings(d.as_str(), " selected")
}

/// `"<selected> of <total> pages selected"`, the count in a file's header.
pub fn file_selection_summary(selected: usize, total: usize) -> (s: String)
    ensures
        s@ == ascii_chars(decimal_bytes(selected as nat)) + " of "@ + ascii_chars(
            decimal_bytes(total as nat),
        ) + " pages selected"@,
{
    let a = decimal_text(selected as u64);
    let b = concat_strings(a.as_str(), " of ");
    let c = decimal_text(total as u64);
    let d = concat_strings(b.as_str(), c.as_str());
    concat_strings(d.as_str(), " pages selected")
}

/// `"<count> pages will be processed with your selected options"`.
pub fn export_summary(count: usize) -> (s: String)
    ensures
        s@ == ascii_chars(decimal_bytes(count as nat))
            + " pages will be processed with your selected options"@,
{
    let a = decimal_text(count as u64);
    concat_strings(a.as_str(), " pages will be processed with your selected options")
}

/// The label of a layout button: `"1 slide"`, else `"<n> slides"`.
pub fn layout_label(slides: u32) -> (s: String)
    ensures
        s@ == ascii_chars(decimal_bytes(slides as nat)) + (if slides == 1 {
            " slide"@
        } else {
            " slides"@
        }),
{
    let a = decimal_text(slides as u64);
    if slides == 1 {
        concat_strings(a.as_str(), " slide")
    } else {
        concat_strings(a.as_str(), " slides")
    }
}

/// The label under a thumbnail: `"P<page number>"`.
pub fn page_label(page_number: u32) -> (s: String)
    ensures
        s@ == "P"@ + ascii_chars(decimal_bytes(page_number as nat)),
{
    let a = decimal_text(page_number as u64);
    concat_strings("P", a.as_str())
}

impl AppState {
    /// The export button is active: some page is selected and no export runs.
    pub fn can_export(&self) -> (b: bool)
        ensures
            b == (!self@.selected.is_empty() && !self@.is_processing),
    {
        !self.selected_pages.is_empty() && !self.is_processing
    }

    /// The preview groups of the loaded files.
    pub fn preview_groups(&self) -> (r: Vec<PdfGroup>)
        requires
            self@.pdf_files.len() < usize::MAX,
        ensures
            r@.map_values(|g: PdfGroup| g.pdf_index) == listed_files(
                self@.all_pages,
                self@.pdf_files.len(),
            ),
            forall|j: int|
                0 <= j < r@.len() ==> group_ok(#[trigger] r@[j], self@.all_pages, self@.selected),
    {
        pdf_groups(&self.all_pages, &self.selected_pages, self.pdf_files.len())
    }
}

} // verus!
