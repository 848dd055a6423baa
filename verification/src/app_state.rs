//! The state of the interface and how each user action or finished task
//! changes it: a transition function from state and message to next state
//! and the outside work to start.

use std::collections::{HashMap, HashSet};
use std::sync::Arc;
use vstd::prelude::*;
use vstd::std_specs::hash::group_hash_axioms;
use crate::catalog::Catalog;
use crate::pdf_types::{FilterOptions, Orientation, PdfDocument, PdfPage};
use crate::selection::{
    all_indices, contains_all, indices_below, insert_all, move_entries, remove_all, remove_keys_from,
    set_to_vec,
};
use crate::text::concat_strings;

verus! {

broadcast use {group_hash_axioms, vstd::seq_lib::group_seq_properties};

/// What the interface knows, except for the margin and the progress bar,
/// which are fractional values kept by the interface itself.
pub struct AppState {
    /// Loaded files, in the order they were added.
    pub pdf_files: Vec<PdfDocument>,
    /// Pages of all loaded files.
    pub all_pages: Vec<PdfPage>,
    /// Indices (into `all_pages`) of the pages chosen for export.
    pub selected_pages: HashSet<usize>,
    pub filters: FilterOptions,
    /// Slides per output sheet.
    pub layout: u32,
    pub orientation: Orientation,
    /// An export is running.
    pub is_processing: bool,
    /// Status line under the progress bar.
    pub progress_status: String,
    pub dark_mode: bool,
    /// Preview images by page index.
    pub thumbnail_cache: HashMap<usize, Arc<Vec<u8>>>,
    /// Full-size images by page index.
    pub image_cache: HashMap<usize, Arc<Vec<u8>>>,
}

/// The abstract value of an `AppState`.
#[verifier::ext_equal]
pub struct AppStateView {
    pub pdf_files: Seq<PdfDocument>,
    pub all_pages: Seq<PdfPage>,
    pub selected: Set<usize>,
    pub filters: FilterOptions,
    pub layout: u32,
    pub orientation: Orientation,
    pub is_processing: bool,
    pub progress_status: Seq<char>,
    pub dark_mode: bool,
    pub thumbnail_cache: Map<usize, Arc<Vec<u8>>>,
    pub image_cache: Map<usize, Arc<Vec<u8>>>,
}

impl View for AppState {
    type V = AppStateView;

    open spec fn view(&self) -> AppStateView {
        AppStateView {
            pdf_files: self.pdf_files@,
            all_pages: self.all_pages@,
            selected: self.selected_pages@,
            filters: self.filters,
            layout: self.layout,
            orientation: self.orientation,
            is_processing: self.is_processing,
            progress_status: self.progress_status@,
            dark_mode: self.dark_mode,
            thumbnail_cache: self.thumbnail_cache@,
            image_cache: self.image_cache@,
        }
    }
}

/// Something the user did, or a finished piece of outside work.
#[derive(Debug)]
pub enum Message {
    /// A key was pressed: the text of a character key, and whether Control was held.
    KeyPressed { text: String, control: bool },
    /// Any other window event.
    OtherWindowEvent,
    /// Paths of files to load; none means "ask the user".
    FilesSelected(Vec<String>),
    /// The paths the user chose in the file picker; none when it was cancelled.
    FilesPicked(Vec<String>),
    /// Loading the chosen files finished: their catalogue, or an error text.
    FilesLoaded(Result<Catalog, String>),
    /// Remove the file at this position of the file list.
    RemovePdfFile(usize),
    ClearAll,
    TogglePageSelection(usize),
    SelectAllPages,
    DeselectAllPages,
    /// Select or deselect every page of the file numbered this (from 1).
    SelectByPdf(usize),
    ToggleInvert(bool),
    ToggleClearBackground(bool),
    ToggleGrayscale(bool),
    SetLayout(u32),
    SetOrientation(Orientation),
    ExportPdf,
    /// The export finished with the document bytes or an error text.
    ExportComplete(Result<Vec<u8>, String>),
    /// Writing the exported file finished: where it was written, if it was.
    ExportSaved(Option<String>),
    /// New status text from a running task (its percentage is kept by the interface).
    ProgressUpdate(String),
    ToggleDarkMode,
    ThemeLoaded(bool),
    OpenFileDialog,
}

/// Outside work the interface starts after a message.
#[derive(Debug)]
pub enum Action {
    /// Nothing to do.
    Nothing,
    /// Dispatch `FilesSelected` with no paths.
    RequestFiles,
    /// Show the file picker; its choice comes back as `FilesPicked`.
    PickFiles,
    /// Set the progress to 10 percent and load the files, numbering them on
    /// from the files and pages already loaded; the outcome comes back as
    /// `FilesLoaded`.
    LoadFiles { paths: Vec<String>, existing_file_count: usize, existing_page_count: usize },
    /// Export the selected pages; the outcome comes back as `ExportComplete`.
    Export {
        selected: Vec<usize>,
        page_count: usize,
        filters: FilterOptions,
        layout: u32,
        orientation: Orientation,
    },
    /// Write the exported document to a file; the outcome comes back as `ExportSaved`.
    SaveExport(Vec<u8>),
    /// Set the progress to 0.
    ResetProgress,
    /// Set the margin and the progress to 0.
    ResetMarginAndProgress,
    /// Store the dark-mode preference.
    SaveTheme(bool),
    /// Close the window and quit.
    Quit,
}

/// Indices of the pages that belong to the file numbered `pdf_index`.
pub open spec fn pages_of_pdf(pages: Seq<PdfPage>, pdf_index: int) -> Set<usize> {
    Set::new(|i: usize| i < pages.len() && pages[i as int].pdf_index == pdf_index)
}

/// The page does not belong to the file numbered `pdf_index`.
pub open spec fn not_of_pdf(pdf_index: int) -> spec_fn(PdfPage) -> bool {
    |p: PdfPage| p.pdf_index != pdf_index
}

/// The state after `msg`; `progress_positive` tells whether the interface's
/// progress is above 0.
pub open spec fn next_state(v: AppStateView, msg: Message, progress_positive: bool) -> AppStateView {
    match msg {
        Message::FilesSelected(paths) => if paths@.len() == 0 {
            v
        } else {
            AppStateView { progress_status: "Loading PDFs..."@, ..v }
        },
        Message::FilesPicked(paths) => if paths@.len() == 0 {
            v
        } else {
            AppStateView { progress_status: "Loading PDFs..."@, ..v }
        },
        Message::FilesLoaded(outcome) => match outcome {
            Ok(c) => AppStateView {
                pdf_files: v.pdf_files + c.documents@,
                all_pages: v.all_pages + c.pages@,
                image_cache: v.image_cache.union_prefer_right(c.images@),
                progress_status: Seq::empty(),
                ..v
            },
            Err(e) => AppStateView { progress_status: "Error: "@ + e@, ..v },
        },
        Message::RemovePdfFile(index) => {
            let removed = pages_of_pdf(v.all_pages, index + 1);
            AppStateView {
                pdf_files: if index < v.pdf_files.len() {
                    v.pdf_files.remove(index as int)
                } else {
                    v.pdf_files
                },
                all_pages: v.all_pages.filter(not_of_pdf(index + 1)),
                selected: v.selected.difference(removed),
                thumbnail_cache: v.thumbnail_cache.remove_keys(removed),
                image_cache: v.image_cache.remove_keys(removed),
                ..v
            }
        },
        Message::ClearAll => AppStateView {
            pdf_files: Seq::empty(),
            all_pages: Seq::empty(),
            selected: Set::empty(),
            thumbnail_cache: Map::empty(),
            image_cache: Map::empty(),
            filters: FilterOptions { invert: false, clear_background: false, grayscale: false },
            layout: 1,
            orientation: Orientation::Portrait,
            is_processing: false,
            progress_status: Seq::empty(),
            ..v
        },
        Message::TogglePageSelection(i) => AppStateView {
            selected: if v.selected.contains(i) {
                v.selected.remove(i)
            } else {
                v.selected.insert(i)
            },
            ..v
        },
        Message::SelectAllPages => AppStateView {
            selected: indices_below(v.all_pages.len()),
            ..v
        },
        Message::DeselectAllPages => AppStateView { selected: Set::empty(), ..v },
        Message::SelectByPdf(pdf_index) => {
            let group = pages_of_pdf(v.all_pages, pdf_index as int);
            AppStateView {
                selected: if group.subset_of(v.selected) {
                    v.selected.difference(group)
                } else {
                    v.selected.union(group)
                },
                ..v
            }
        },
        Message::ToggleInvert(b) => AppStateView {
            filters: FilterOptions { invert: b, ..v.filters },
            ..v
        },
        Message::ToggleClearBackground(b) => AppStateView {
            filters: FilterOptions { clear_background: b, ..v.filters },
            ..v
        },
        Message::ToggleGrayscale(b) => AppStateView {
            filters: FilterOptions { grayscale: b, ..v.filters },
            ..v
        },
        Message::SetLayout(l) => AppStateView { layout: l, ..v },
        Message::SetOrientation(o) => AppStateView { orientation: o, ..v },
        Message::ExportPdf => if v.selected.is_empty() {
            v
        } else {
            AppStateView { is_processing: true, progress_status: "Processing PDF..."@, ..v }
        },
        Message::ExportComplete(result) => match result {
            Ok(_) => AppStateView { is_processing: false, ..v },
            Err(e) => AppStateView {
                is_processing: false,
                progress_status: if progress_positive {
                    Seq::empty()
                } else {
                    "Error: "@ + e@
                },
                ..v
            },
        },
        Message::ExportSaved(path) => match path {
            Some(_) => AppStateView { progress_status: Seq::empty(), ..v },
            None => AppStateView {
                progress_status: if progress_positive {
                    Seq::empty()
                } else {
                    "Failed to save file"@
                },
                ..v
            },
        },
        Message::ProgressUpdate(status) => AppStateView { progress_status: status@, ..v },
        Message::ToggleDarkMode => AppStateView { dark_mode: !v.dark_mode, ..v },
        Message::ThemeLoaded(b) => AppStateView { dark_mode: b, ..v },
        _ => v,
    }
}

/// `a` asks to load `paths`, numbered on from what `v` has loaded.
pub open spec fn load_requested(v: AppStateView, paths: Seq<String>, a: Action) -> bool {
    a matches Action::LoadFiles { paths: p, existing_file_count: f, existing_page_count: c }
        && p@ == paths && f == v.pdf_files.len() && c == v.all_pages.len()
}

/// `a` is the outside work `msg` starts from state `v`.
pub open spec fn action_ok(v: AppStateView, msg: Message, progress_positive: bool, a: Action) -> bool {
    match msg {
        Message::KeyPressed { text, control } => if text@ == "o"@ && control {
            a is RequestFiles
        } else if text@ == "q"@ && control {
            a is Quit
        } else {
            a is Nothing
        },
        Message::OpenFileDialog => a is RequestFiles,
        Message::FilesSelected(paths) => if paths@.len() == 0 {
            a is PickFiles
        } else {
            load_requested(v, paths@, a)
        },
        Message::FilesPicked(paths) => if paths@.len() == 0 {
            a is Nothing
        } else {
            load_requested(v, paths@, a)
        },
        Message::FilesLoaded(_) => a is ResetProgress,
        Message::ClearAll => a is ResetMarginAndProgress,
        Message::ExportPdf => if v.selected.is_empty() {
            a is Nothing
        } else {
            a matches Action::Export { selected, page_count, filters, layout, orientation } && {
                &&& selected@.to_set() == v.selected
                &&& selected@.no_duplicates()
                &&& page_count == v.all_pages.len()
                &&& filters == v.filters
                &&& layout == v.layout
                &&& orientation == v.orientation
            }
        },
        Message::ExportComplete(result) => match result {
            Ok(bytes) => a matches Action::SaveExport(b) && b@ == bytes@,
            Err(_) => if progress_positive {
                a is ResetProgress
            } else {
                a is Nothing
            },
        },
        Message::ExportSaved(path) => match path {
            Some(_) => a is ResetProgress,
            None => if progress_positive {
                a is ResetProgress
            } else {
                a is Nothing
            },
        },
        Message::ToggleDarkMode => a == Action::SaveTheme(!v.dark_mode),
        _ => a is Nothing,
    }
}


/// Indices of the pages of `pages` that belong to the file numbered `pdf_index`,
/// ascending.
pub fn page_indices_of_pdf(pages: &Vec<PdfPage>, pdf_index: usize) -> (r: Vec<usize>)
    ensures
        r@.to_set() == pages_of_pdf(pages@, pdf_index as int),
        r@.no_duplicates(),
        forall|j: int| 0 <= j < r@.len() ==> #[trigger] r@[j] < pages@.len(),
{
    let mut r: Vec<usize> = Vec::new();
    let mut i: usize = 0;
    while i < pages.len()
        invariant
            i <= pages@.len(),
            r@.to_set() == Set::new(
                |j: usize| j < i && pages@[j as int].pdf_index == pdf_index,
            ),
            r@.no_duplicates(),
            forall|j: int| 0 <= j < r@.len() ==> #[trigger] r@[j] < i,
        decreases pages@.len() - i,
    {
        let ghost before = r@;
        if pages[i].pdf_index == pdf_index {
            r.push(i);
            proof {
                before.lemma_push_to_set_commute(i);
            }
        }
        i += 1;
        assert(r@.to_set() =~= Set::new(
            |j: usize| j < i && pages@[j as int].pdf_index == pdf_index,
        ));
    }
    assert(r@.to_set() =~= pages_of_pdf(pages@, pdf_index as int));
    r
}

/// The pages not belonging to the file numbered `pdf_index`, in order.
fn pages_not_of_pdf(pages: Vec<PdfPage>, pdf_index: usize) -> (r: Vec<PdfPage>)
    ensures
        r@ == pages@.filter(not_of_pdf(pdf_index as int)),
{
    let ghost all = pages@;
    let mut r: Vec<PdfPage> = Vec::new();
    for p in it: pages.into_iter()
        invariant
            it.seq() == all,
            r@ == all.take(it.index() as int).filter(not_of_pdf(pdf_index as int)),
    {
        proof {
            assert(all.take(it.index() + 1) == all.take(it.index() as int).push(p));
            all.take(it.index() as int).lemma_filter_push(p, not_of_pdf(pdf_index as int));
        }
        if p.pdf_index != pdf_index {
            r.push(p);
        }
    }
    assert(all.take(all.len() as int) == all);
    r
}

/// Whether `text` is the single character `letter`.
fn is_letter(text: &String, letter: char) -> (b: bool)
    ensures
        b == (text@ == seq![letter]),
{
    let s = text.as_str();
    if s.unicode_len() != 1 {
        return false;
    }
    let c = s.get_char(0);
    proof {
        if c == letter {
            assert(text@ =~= seq![letter]);
        }
    }
    c == letter
}

impl AppState {
    /// The state at start: nothing loaded, no filters, one slide per sheet,
    /// portrait, light mode.
    pub fn new() -> (s: Self)
        ensures
            s@ == (AppStateView {
                pdf_files: Seq::empty(),
                all_pages: Seq::empty(),
                selected: Set::empty(),
                filters: FilterOptions { invert: false, clear_background: false, grayscale: false },
                layout: 1,
                orientation: Orientation::Portrait,
                is_processing: false,
                progress_status: Seq::empty(),
                dark_mode: false,
                thumbnail_cache: Map::empty(),
                image_cache: Map::empty(),
            }),
    {
        AppState {
            pdf_files: Vec::new(),
            all_pages: Vec::new(),
            selected_pages: HashSet::new(),
            filters: FilterOptions::default(),
            layout: 1,
            orientation: Orientation::Portrait,
            is_processing: false,
            progress_status: String::new(),
            dark_mode: false,
            thumbnail_cache: HashMap::new(),
            image_cache: HashMap::new(),
        }
    }

    /// Applies a message: the state becomes `next_state` of the old one, and
    /// the returned action is the outside work the message starts
    /// (`action_ok`). `progress_positive` tells whether the interface's
    /// progress is above 0.
    #[verifier::spinoff_prover]
    #[verifier::rlimit(40)]
    pub fn update(&mut self, msg: Message, progress_positive: bool) -> (a: Action)
        requires
            msg matches Message::RemovePdfFile(index) ==> index < usize::MAX,
        ensures
            final(self)@ == next_state(old(self)@, msg, progress_positive),
            action_ok(old(self)@, msg, progress_positive, a),
    {
        match msg {
            Message::KeyPressed { text, control } => {
                proof {
                    reveal_strlit("o");
                    reveal_strlit("q");
                    assert("o"@ =~= seq!['o']);
                    assert("q"@ =~= seq!['q']);
                }
                if is_letter(&text, 'o') && control {
                    Action::RequestFiles
                } else if is_letter(&text, 'q') && control {
                    Action::Quit
                } else {
                    Action::Nothing
                }
            },
            Message::OtherWindowEvent => Action::Nothing,
            Message::FilesSelected(paths) => {
                if paths.len() == 0 {
                    Action::PickFiles
                } else {
                    self.progress_status = String::from_str("Loading PDFs...");
                    Action::LoadFiles {
                        paths,
                        existing_file_count: self.pdf_files.len(),
                        existing_page_count: self.all_pages.len(),
                    }
                }
            },
            Message::FilesPicked(paths) => {
                if paths.len() == 0 {
                    Action::Nothing
                } else {
                    self.progress_status = String::from_str("Loading PDFs...");
                    Action::LoadFiles {
                        paths,
                        existing_file_count: self.pdf_files.len(),
                        existing_page_count: self.all_pages.len(),
                    }
                }
            },
            Message::FilesLoaded(outcome) => {
                match outcome {
                    Ok(c) => self.add_catalog(c),
                    Err(e) => {
                        self.progress_status = concat_strings("Error: ", e.as_str());
                    },
                }
                Action::ResetProgress
            },
            Message::RemovePdfFile(index) => {
                self.remove_pdf_file(index);
                Action::Nothing
            },
            Message::ClearAll => {
                self.clear_all();
                Action::ResetMarginAndProgress
            },
            Message::TogglePageSelection(i) => {
                if self.selected_pages.contains(&i) {
                    self.selected_pages.remove(&i);
                } else {
                    self.selected_pages.insert(i);
                }
                Action::Nothing
            },
            Message::SelectAllPages => {
                self.selected_pages = all_indices(self.all_pages.len());
                Action::Nothing
            },
            Message::DeselectAllPages => {
                self.selected_pages.clear();
                Action::Nothing
            },
            Message::SelectByPdf(pdf_index) => {
                self.select_by_pdf(pdf_index);
                Action::Nothing
            },
            Message::ToggleInvert(b) => {
                self.filters.invert = b;
                Action::Nothing
            },
            Message::ToggleClearBackground(b) => {
                self.filters.clear_background = b;
                Action::Nothing
            },
            Message::ToggleGrayscale(b) => {
                self.filters.grayscale = b;
                Action::Nothing
            },
            Message::SetLayout(l) => {
                self.layout = l;
                Action::Nothing
            },
            Message::SetOrientation(o) => {
                self.orientation = o;
                Action::Nothing
            },
            Message::ExportPdf => {
                if self.selected_pages.is_empty() {
                    Action::Nothing
                } else {
                    self.is_processing = true;
                    self.progress_status = String::from_str("Processing PDF...");
                    Action::Export {
                        selected: set_to_vec(&self.selected_pages),
                        page_count: self.all_pages.len(),
                        filters: self.filters,
                        layout: self.layout,
                        orientation: self.orientation,
                    }
                }
            },
            Message::ExportComplete(result) => {
                self.is_processing = false;
                match result {
                    Ok(bytes) => Action::SaveExport(bytes),
                    Err(e) => {
                        self.progress_status = concat_strings("Error: ", e.as_str());
                        if progress_positive {
                            self.progress_status = String::new();
                            Action::ResetProgress
                        } else {
                            Action::Nothing
                        }
                    },
                }
            },
            Message::ExportSaved(path) => {
                match path {
                    Some(_) => {
                        self.progress_status = String::new();
                        Action::ResetProgress
                    },
                    None => {
                        self.progress_status = String::from_str("Failed to save file");
                        if progress_positive {
                            self.progress_status = String::new();
                            Action::ResetProgress
                        } else {
                            Action::Nothing
                        }
                    },
                }
            },
            Message::ProgressUpdate(status) => {
                self.progress_status = status;
                Action::Nothing
            },
            Message::ToggleDarkMode => {
                self.dark_mode = !self.dark_mode;
                Action::SaveTheme(self.dark_mode)
            },
            Message::ThemeLoaded(b) => {
                self.dark_mode = b;
                Action::Nothing
            },
            Message::OpenFileDialog => Action::RequestFiles,
        }
    }

    fn remove_pdf_file(&mut self, index: usize)
        requires
            index < usize::MAX,
        ensures
            final(self)@ == next_state(old(self)@, Message::RemovePdfFile(index), false),
    {
        let pdf_index = index + 1;
        let removed = page_indices_of_pdf(&self.all_pages, pdf_index);
        remove_keys_from(&mut self.thumbnail_cache, &removed);
        remove_keys_from(&mut self.image_cache, &removed);
        let mut pages: Vec<PdfPage> = Vec::new();
        std::mem::swap(&mut pages, &mut self.all_pages);
        self.all_pages = pages_not_of_pdf(pages, pdf_index);
        if index < self.pdf_files.len() {
            self.pdf_files.remove(index);
        }
        remove_all(&mut self.selected_pages, &removed);
    }

    /// Adds a loaded catalogue: its documents and pages after the loaded
    /// ones, its images into the image cache; the status line is cleared.
    fn add_catalog(&mut self, c: Catalog)
        ensures
            final(self)@ == next_state(old(self)@, Message::FilesLoaded(Ok(c)), false),
    {
        let Catalog { documents, pages: new_pages, images } = c;
        let mut documents = documents;
        let mut new_pages = new_pages;
        self.pdf_files.append(&mut documents);
        self.all_pages.append(&mut new_pages);
        move_entries(&mut self.image_cache, images);
        self.progress_status = String::new();
        proof {
            assert(self@ =~= next_state(old(self)@, Message::FilesLoaded(Ok(c)), false));
        }
    }

    fn clear_all(&mut self)
        ensures
            final(self)@ == next_state(old(self)@, Message::ClearAll, false),
    {
        self.pdf_files.clear();
        self.all_pages.clear();
        self.selected_pages.clear();
        self.thumbnail_cache.clear();
        self.image_cache.clear();
        self.filters = FilterOptions::default();
        self.layout = 1;
        self.orientation = Orientation::Portrait;
        self.is_processing = false;
        self.progress_status = String::new();
    }

    fn select_by_pdf(&mut self, pdf_index: usize)
        ensures
            final(self)@ == next_state(old(self)@, Message::SelectByPdf(pdf_index), false),
    {
        let group = page_indices_of_pdf(&self.all_pages, pdf_index);
        if contains_all(&self.selected_pages, &group) {
            remove_all(&mut self.selected_pages, &group);
        } else {
            insert_all(&mut self.selected_pages, &group);
        }
    }
}


/// Loading files keeps everything loaded before, in front, and adds the
/// catalogue's documents and pages after it.
pub proof fn lemma_load_appends(v: AppStateView, c: Catalog, progress_positive: bool)
    ensures
        ({
            let w = next_state(v, Message::FilesLoaded(Ok(c)), progress_positive);
            &&& w.pdf_files.len() == v.pdf_files.len() + c.documents@.len()
            &&& w.pdf_files.subrange(0, v.pdf_files.len() as int) == v.pdf_files
            &&& w.all_pages.len() == v.all_pages.len() + c.pages@.len()
            &&& w.all_pages.subrange(0, v.all_pages.len() as int) == v.all_pages
            &&& forall|i: int| 0 <= i < c.pages@.len() ==> w.all_pages[v.all_pages.len() + i]
                == c.pages@[i]
            &&& forall|k: usize| #[trigger] c.images@.contains_key(k) ==> w.image_cache[k] == c.images@[k]
            &&& w.selected == v.selected
        }),
{
    let w = next_state(v, Message::FilesLoaded(Ok(c)), progress_positive);
    assert(w.pdf_files.subrange(0, v.pdf_files.len() as int) =~= v.pdf_files);
    assert(w.all_pages.subrange(0, v.all_pages.len() as int) =~= v.all_pages);
}

/// Toggling the same page twice gives back the state one started from.
pub proof fn lemma_toggle_twice(v: AppStateView, i: usize, progress_positive: bool)
    ensures
        next_state(
            next_state(v, Message::TogglePageSelection(i), progress_positive),
            Message::TogglePageSelection(i),
            progress_positive,
        ) == v,
{
    let w = next_state(v, Message::TogglePageSelection(i), progress_positive);
    let u = next_state(w, Message::TogglePageSelection(i), progress_positive);
    if v.selected.contains(i) {
        assert(u.selected =~= v.selected);
    } else {
        assert(u.selected =~= v.selected);
    }
    assert(u =~= v);
}

/// After selecting by file, the pages of that file are either all selected
/// or all unselected, and no other page changed.
pub proof fn lemma_select_by_pdf_all_or_none(v: AppStateView, pdf_index: usize, progress_positive: bool)
    ensures
        ({
            let group = pages_of_pdf(v.all_pages, pdf_index as int);
            let w = next_state(v, Message::SelectByPdf(pdf_index), progress_positive).selected;
            &&& group.subset_of(w) || group.disjoint(w)
            &&& forall|i: usize| !group.contains(i) ==> (w.contains(i) <==> v.selected.contains(i))
        }),
{
}

/// Selecting by file twice restores the selection when the file's pages
/// started all selected or all unselected and the file has pages.
pub proof fn lemma_select_by_pdf_twice(v: AppStateView, pdf_index: usize, progress_positive: bool)
    requires
        pages_of_pdf(v.all_pages, pdf_index as int) != Set::<usize>::empty(),
        pages_of_pdf(v.all_pages, pdf_index as int).subset_of(v.selected) || pages_of_pdf(
            v.all_pages,
            pdf_index as int,
        ).disjoint(v.selected),
    ensures
        next_state(
            next_state(v, Message::SelectByPdf(pdf_index), progress_positive),
            Message::SelectByPdf(pdf_index),
            progress_positive,
        ) == v,
{
    let group = pages_of_pdf(v.all_pages, pdf_index as int);
    let w = next_state(v, Message::SelectByPdf(pdf_index), progress_positive);
    let u = next_state(w, Message::SelectByPdf(pdf_index), progress_positive);
    let x = choose|x: usize| group.contains(x);
    assert(group.contains(x)) by {
        assert(!(group =~= Set::<usize>::empty()));
    }
    if group.subset_of(v.selected) {
        assert(!group.subset_of(w.selected));
        assert(u.selected =~= v.selected);
    } else {
        assert(group.subset_of(w.selected));
        assert(u.selected =~= v.selected);
    }
    assert(u =~= v);
}

/// Removing a file leaves no page of it, unselects exactly its pages and
/// drops exactly their cached images.
pub proof fn lemma_remove_pdf_file(v: AppStateView, index: usize, progress_positive: bool)
    requires
        index < usize::MAX,
    ensures
        ({
            let w = next_state(v, Message::RemovePdfFile(index), progress_positive);
            let removed = pages_of_pdf(v.all_pages, index + 1);
            &&& forall|j: int| 0 <= j < w.all_pages.len() ==> (#[trigger] w.all_pages[j]).pdf_index
                != index + 1
            &&& w.selected.disjoint(removed)
            &&& forall|i: usize| !removed.contains(i) ==> (w.selected.contains(i) <==> v.selected.contains(i))
            &&& forall|i: usize| #[trigger] w.image_cache.contains_key(i) <==> (v.image_cache.contains_key(i) && !removed.contains(i))
        }),
        ({
            let w = next_state(v, Message::RemovePdfFile(index), progress_positive);
            &&& index < v.pdf_files.len() ==> {
                &&& w.pdf_files.len() == v.pdf_files.len() - 1
                &&& forall|j: int| 0 <= j < index ==> #[trigger] w.pdf_files[j] == v.pdf_files[j]
                &&& forall|j: int| index <= j < w.pdf_files.len() ==> #[trigger] w.pdf_files[j]
                    == v.pdf_files[j + 1]
            }
            &&& index >= v.pdf_files.len() ==> w.pdf_files == v.pdf_files
        }),
{
    let w = next_state(v, Message::RemovePdfFile(index), progress_positive);
    let pred = not_of_pdf(index + 1);
    assert forall|j: int| 0 <= j < w.all_pages.len() implies (#[trigger] w.all_pages[j]).pdf_index
        != index + 1 by {
        v.all_pages.lemma_filter_pred(pred, j);
    }
}

/// An export is started exactly when some page is selected, and it is asked
/// for exactly the selected pages, each once, with the chosen filters, slides
/// per sheet and orientation.
pub proof fn lemma_export_request(v: AppStateView, a: Action, progress_positive: bool)
    requires
        action_ok(v, Message::ExportPdf, progress_positive, a),
    ensures
        a is Export <==> !v.selected.is_empty(),
        a matches Action::Export { selected, .. } ==> selected@.to_set() == v.selected
            && selected@.no_duplicates(),
        a matches Action::Export { filters, layout, orientation, .. } ==> filters == v.filters
            && layout == v.layout && orientation == v.orientation,
{
}

/// Clearing everything keeps the dark-mode preference and leaves nothing
/// loaded or selected.
pub proof fn lemma_clear_all(v: AppStateView, progress_positive: bool)
    ensures
        ({
            let w = next_state(v, Message::ClearAll, progress_positive);
            &&& w.dark_mode == v.dark_mode
            &&& w.pdf_files.len() == 0
            &&& w.all_pages.len() == 0
            &&& w.selected.is_empty()
            &&& w.layout == 1
        }),
{
}


/// The selection and option messages do what their names say and touch
/// nothing else: toggling a page flips exactly that page's selection,
/// selecting all selects exactly the loaded pages, deselecting all empties
/// the selection, each filter switch sets exactly its own filter, and the
/// layout, orientation and theme messages set exactly their own setting.
pub proof fn lemma_settings_messages(v: AppStateView, progress_positive: bool)
    ensures
        forall|i: usize, j: usize|
            #[trigger] next_state(v, Message::TogglePageSelection(i), progress_positive).selected.contains(j)
                <==> (if j == i { !v.selected.contains(j) } else { v.selected.contains(j) }),
        forall|i: usize|
            next_state(v, Message::TogglePageSelection(i), progress_positive).all_pages == v.all_pages,
        forall|j: usize|
            #[trigger] next_state(v, Message::SelectAllPages, progress_positive).selected.contains(j) <==> j
                < v.all_pages.len(),
        forall|j: usize| !#[trigger] next_state(v, Message::DeselectAllPages, progress_positive).selected.contains(j),
        forall|b: bool|
            #[trigger] next_state(v, Message::ToggleInvert(b), progress_positive).filters == (FilterOptions {
                invert: b,
                clear_background: v.filters.clear_background,
                grayscale: v.filters.grayscale,
            }),
        forall|b: bool|
            #[trigger] next_state(v, Message::ToggleClearBackground(b), progress_positive).filters == (FilterOptions {
                invert: v.filters.invert,
                clear_background: b,
                grayscale: v.filters.grayscale,
            }),
        forall|b: bool|
            #[trigger] next_state(v, Message::ToggleGrayscale(b), progress_positive).filters == (FilterOptions {
                invert: v.filters.invert,
                clear_background: v.filters.clear_background,
                grayscale: b,
            }),
        forall|l: u32|
            #[trigger] next_state(v, Message::SetLayout(l), progress_positive).layout == l
                && next_state(v, Message::SetLayout(l), progress_positive).orientation == v.orientation
                && next_state(v, Message::SetLayout(l), progress_positive).filters == v.filters,
        forall|o: Orientation|
            #[trigger] next_state(v, Message::SetOrientation(o), progress_positive).orientation == o
                && next_state(v, Message::SetOrientation(o), progress_positive).layout == v.layout,
        next_state(v, Message::ToggleDarkMode, progress_positive).dark_mode == !v.dark_mode,
        forall|b: bool| #[trigger] next_state(v, Message::ThemeLoaded(b), progress_positive).dark_mode == b,
{
}

/// The pages a file-wide selection acts on are exactly the loaded pages of
/// that file.
pub proof fn lemma_pages_of_pdf(pages: Seq<PdfPage>, pdf_index: int)
    ensures
        forall|i: usize|
            #[trigger] pages_of_pdf(pages, pdf_index).contains(i) <==> (i < pages.len()
                && pages[i as int].pdf_index == pdf_index),
{
}

} // verus!
