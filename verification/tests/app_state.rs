use notecypher::app_state::{page_indices_of_pdf, Action, AppState, Message};
use notecypher::catalog::Catalog;
use std::collections::HashMap;
use notecypher::pdf_types::{FilterOptions, Orientation, PdfDocument, PdfPage};
use std::collections::HashSet;
use std::sync::Arc;

fn page(id: &str, pdf_index: usize, number: u32, page_index: usize) -> PdfPage {
    PdfPage {
        id: id.to_string(),
        page_number: number,
        pdf_index,
        file_name: format!("file{}.pdf", pdf_index),
        page_number_in_pdf: number,
        page_index,
        thumbnail_data: Arc::new(vec![1]),
        image_data: Arc::new(vec![2]),
        width: 1200,
        height: 1600,
    }
}

fn doc(name: &str) -> PdfDocument {
    PdfDocument { name: name.to_string(), size: 10, path: Some(name.to_string()) }
}

/// Two files: the first with pages 0 and 1, the second with pages 2, 3, 4.
fn loaded() -> AppState {
    let mut s = AppState::new();
    s.pdf_files = vec![doc("a.pdf"), doc("b.pdf")];
    s.all_pages = vec![
        page("p0", 1, 1, 0),
        page("p1", 1, 2, 1),
        page("p2", 2, 1, 2),
        page("p3", 2, 2, 3),
        page("p4", 2, 3, 4),
    ];
    for i in 0..5 {
        s.image_cache.insert(i, Arc::new(vec![i as u8]));
        s.thumbnail_cache.insert(i, Arc::new(vec![i as u8]));
    }
    s
}

fn selected(s: &AppState) -> Vec<usize> {
    let mut v: Vec<usize> = s.selected_pages.iter().copied().collect();
    v.sort();
    v
}

#[test]
fn starts_empty_in_light_mode() {
    let s = AppState::new();
    assert!(s.pdf_files.is_empty());
    assert!(s.all_pages.is_empty());
    assert!(s.selected_pages.is_empty());
    assert_eq!(s.filters, FilterOptions { invert: false, clear_background: false, grayscale: false });
    assert_eq!(s.layout, 1);
    assert_eq!(s.orientation, Orientation::Portrait);
    assert!(!s.is_processing);
    assert!(!s.dark_mode);
    assert_eq!(s.progress_status, "");
}

#[test]
fn control_o_asks_for_files() {
    let mut s = AppState::new();
    let a = s.update(Message::KeyPressed { text: "o".to_string(), control: true }, false);
    assert!(matches!(a, Action::RequestFiles));
    let a = s.update(Message::KeyPressed { text: "o".to_string(), control: false }, false);
    assert!(matches!(a, Action::Nothing));
    let a = s.update(Message::KeyPressed { text: "p".to_string(), control: true }, false);
    assert!(matches!(a, Action::Nothing));
}

#[test]
fn control_q_quits() {
    let mut s = AppState::new();
    let a = s.update(Message::KeyPressed { text: "q".to_string(), control: true }, false);
    assert!(matches!(a, Action::Quit));
    let a = s.update(Message::KeyPressed { text: "q".to_string(), control: false }, false);
    assert!(matches!(a, Action::Nothing));
}

#[test]
fn upload_area_asks_for_files() {
    let mut s = loaded();
    let a = s.update(Message::OpenFileDialog, false);
    assert!(matches!(a, Action::RequestFiles));
    assert_eq!(s.all_pages.len(), 5);
}

#[test]
fn cancelled_picker_does_nothing() {
    let mut s = loaded();
    let a = s.update(Message::FilesPicked(vec![]), false);
    assert!(matches!(a, Action::Nothing));
    assert_eq!(s.progress_status, "");
}

#[test]
fn picked_files_start_loading() {
    let mut s = loaded();
    let a = s.update(Message::FilesPicked(vec!["/tmp/y.pdf".to_string()]), false);
    match a {
        Action::LoadFiles { paths, existing_file_count, existing_page_count } => {
            assert_eq!(paths, vec!["/tmp/y.pdf".to_string()]);
            assert_eq!(existing_file_count, 2);
            assert_eq!(existing_page_count, 5);
        }
        _ => panic!("expected LoadFiles"),
    }
    assert_eq!(s.progress_status, "Loading PDFs...");
}

#[test]
fn no_paths_opens_the_picker() {
    let mut s = AppState::new();
    let a = s.update(Message::FilesSelected(vec![]), false);
    assert!(matches!(a, Action::PickFiles));
    assert_eq!(s.progress_status, "");
}

#[test]
fn paths_start_loading() {
    let mut s = loaded();
    let a = s.update(Message::FilesSelected(vec!["/tmp/x.pdf".to_string()]), false);
    match a {
        Action::LoadFiles { paths, existing_file_count, existing_page_count } => {
            assert_eq!(paths, vec!["/tmp/x.pdf".to_string()]);
            assert_eq!(existing_file_count, 2);
            assert_eq!(existing_page_count, 5);
        }
        _ => panic!("expected LoadFiles"),
    }
    assert_eq!(s.progress_status, "Loading PDFs...");
}

#[test]
fn loaded_files_are_added() {
    let mut s = loaded();
    s.update(Message::TogglePageSelection(1), false);
    s.progress_status = "Loading PDFs...".to_string();
    let mut images = HashMap::new();
    images.insert(5usize, Arc::new(vec![9u8]));
    images.insert(6usize, Arc::new(vec![8u8]));
    let c = Catalog {
        documents: vec![doc("c.pdf")],
        pages: vec![page("p5", 3, 1, 5), page("p6", 3, 2, 6)],
        images,
    };
    let a = s.update(Message::FilesLoaded(Ok(c)), true);
    assert!(matches!(a, Action::ResetProgress));
    let names: Vec<&str> = s.pdf_files.iter().map(|d| d.name.as_str()).collect();
    assert_eq!(names, vec!["a.pdf", "b.pdf", "c.pdf"]);
    let ids: Vec<&str> = s.all_pages.iter().map(|p| p.id.as_str()).collect();
    assert_eq!(ids, vec!["p0", "p1", "p2", "p3", "p4", "p5", "p6"]);
    assert_eq!(*s.image_cache[&6], vec![8u8]);
    assert_eq!(s.image_cache.len(), 7);
    assert_eq!(selected(&s), vec![1]);
    assert_eq!(s.progress_status, "");
}

#[test]
fn failed_loading_shows_its_error() {
    let mut s = loaded();
    let a = s.update(Message::FilesLoaded(Err("Failed to read PDF /x: gone".to_string())), true);
    assert!(matches!(a, Action::ResetProgress));
    assert_eq!(s.progress_status, "Error: Failed to read PDF /x: gone");
    assert_eq!(s.pdf_files.len(), 2);
}

#[test]
fn toggling_a_page_twice_restores_the_selection() {
    let mut s = loaded();
    s.update(Message::TogglePageSelection(3), false);
    assert_eq!(selected(&s), vec![3]);
    s.update(Message::TogglePageSelection(3), false);
    assert_eq!(selected(&s), Vec::<usize>::new());
}

#[test]
fn select_all_and_deselect_all() {
    let mut s = loaded();
    s.update(Message::SelectAllPages, false);
    assert_eq!(selected(&s), vec![0, 1, 2, 3, 4]);
    s.update(Message::DeselectAllPages, false);
    assert!(s.selected_pages.is_empty());
}

#[test]
fn select_by_pdf_selects_then_deselects_the_whole_file() {
    let mut s = loaded();
    s.update(Message::TogglePageSelection(0), false);
    s.update(Message::TogglePageSelection(3), false);
    s.update(Message::SelectByPdf(2), false);
    assert_eq!(selected(&s), vec![0, 2, 3, 4]);
    s.update(Message::SelectByPdf(2), false);
    assert_eq!(selected(&s), vec![0]);
    s.update(Message::SelectByPdf(2), false);
    assert_eq!(selected(&s), vec![0, 2, 3, 4]);
}

#[test]
fn select_by_pdf_of_a_file_without_pages_changes_nothing() {
    let mut s = loaded();
    s.update(Message::TogglePageSelection(1), false);
    s.update(Message::SelectByPdf(9), false);
    assert_eq!(selected(&s), vec![1]);
}

#[test]
fn removing_a_file_drops_its_pages_selection_and_images() {
    let mut s = loaded();
    s.update(Message::SelectAllPages, false);
    let a = s.update(Message::RemovePdfFile(0), false);
    assert!(matches!(a, Action::Nothing));
    assert_eq!(s.pdf_files.len(), 1);
    assert_eq!(s.pdf_files[0].name, "b.pdf");
    let ids: Vec<&str> = s.all_pages.iter().map(|p| p.id.as_str()).collect();
    assert_eq!(ids, vec!["p2", "p3", "p4"]);
    assert_eq!(selected(&s), vec![2, 3, 4]);
    let mut keys: Vec<usize> = s.image_cache.keys().copied().collect();
    keys.sort();
    assert_eq!(keys, vec![2, 3, 4]);
    let mut keys: Vec<usize> = s.thumbnail_cache.keys().copied().collect();
    keys.sort();
    assert_eq!(keys, vec![2, 3, 4]);
}

#[test]
fn removing_a_file_past_the_list_keeps_the_files() {
    let mut s = loaded();
    s.update(Message::RemovePdfFile(5), false);
    assert_eq!(s.pdf_files.len(), 2);
    assert_eq!(s.all_pages.len(), 5);
}

#[test]
fn clear_all_resets_everything_but_the_theme() {
    let mut s = loaded();
    s.dark_mode = true;
    s.update(Message::SelectAllPages, false);
    s.update(Message::ToggleInvert(true), false);
    s.update(Message::SetLayout(4), false);
    s.update(Message::SetOrientation(Orientation::Landscape), false);
    let a = s.update(Message::ClearAll, false);
    assert!(matches!(a, Action::ResetMarginAndProgress));
    assert!(s.pdf_files.is_empty());
    assert!(s.all_pages.is_empty());
    assert!(s.selected_pages.is_empty());
    assert!(s.image_cache.is_empty());
    assert!(s.thumbnail_cache.is_empty());
    assert_eq!(s.filters, FilterOptions::default());
    assert_eq!(s.layout, 1);
    assert_eq!(s.orientation, Orientation::Portrait);
    assert!(s.dark_mode);
}

#[test]
fn options_are_set() {
    let mut s = AppState::new();
    s.update(Message::ToggleInvert(true), false);
    s.update(Message::ToggleClearBackground(true), false);
    s.update(Message::ToggleGrayscale(true), false);
    s.update(Message::ToggleClearBackground(false), false);
    assert_eq!(s.filters, FilterOptions { invert: true, clear_background: false, grayscale: true });
    s.update(Message::SetLayout(6), false);
    assert_eq!(s.layout, 6);
    s.update(Message::SetOrientation(Orientation::Landscape), false);
    assert_eq!(s.orientation, Orientation::Landscape);
}

#[test]
fn export_without_selection_does_nothing() {
    let mut s = loaded();
    let a = s.update(Message::ExportPdf, false);
    assert!(matches!(a, Action::Nothing));
    assert!(!s.is_processing);
}

#[test]
fn export_asks_for_exactly_the_selected_pages() {
    let mut s = loaded();
    s.update(Message::SetLayout(2), false);
    s.update(Message::TogglePageSelection(4), false);
    s.update(Message::TogglePageSelection(1), false);
    let a = s.update(Message::ExportPdf, false);
    assert!(s.is_processing);
    assert_eq!(s.progress_status, "Processing PDF...");
    match a {
        Action::Export { selected, page_count, filters, layout, orientation } => {
            let mut got = selected.clone();
            got.sort();
            assert_eq!(got, vec![1, 4]);
            let unique: HashSet<usize> = selected.iter().copied().collect();
            assert_eq!(unique.len(), selected.len());
            assert_eq!(page_count, 5);
            assert_eq!(filters, FilterOptions::default());
            assert_eq!(layout, 2);
            assert_eq!(orientation, Orientation::Portrait);
        }
        _ => panic!("expected Export"),
    }
}

#[test]
fn finished_export_is_saved() {
    let mut s = loaded();
    s.is_processing = true;
    let a = s.update(Message::ExportComplete(Ok(vec![1, 2, 3])), false);
    assert!(!s.is_processing);
    assert!(matches!(a, Action::SaveExport(ref b) if b == &vec![1, 2, 3]));
}

#[test]
fn failed_export_shows_its_error() {
    let mut s = loaded();
    s.is_processing = true;
    let a = s.update(Message::ExportComplete(Err("Page 9 not found".to_string())), false);
    assert!(!s.is_processing);
    assert!(matches!(a, Action::Nothing));
    assert_eq!(s.progress_status, "Error: Page 9 not found");
}

#[test]
fn failed_export_with_progress_resets_it() {
    let mut s = loaded();
    let a = s.update(Message::ExportComplete(Err("x".to_string())), true);
    assert!(matches!(a, Action::ResetProgress));
    assert_eq!(s.progress_status, "");
}

#[test]
fn saved_export_resets_the_progress() {
    let mut s = loaded();
    let a = s.update(Message::ExportSaved(Some("/tmp/out.pdf".to_string())), true);
    assert!(matches!(a, Action::ResetProgress));
    assert_eq!(s.progress_status, "");
}

#[test]
fn unsaved_export_says_so() {
    let mut s = loaded();
    let a = s.update(Message::ExportSaved(None), false);
    assert!(matches!(a, Action::Nothing));
    assert_eq!(s.progress_status, "Failed to save file");
}

#[test]
fn progress_text_and_theme() {
    let mut s = AppState::new();
    s.update(Message::ProgressUpdate("Halfway".to_string()), false);
    assert_eq!(s.progress_status, "Halfway");
    let a = s.update(Message::ToggleDarkMode, false);
    assert!(s.dark_mode);
    assert!(matches!(a, Action::SaveTheme(true)));
    let a = s.update(Message::ToggleDarkMode, false);
    assert!(!s.dark_mode);
    assert!(matches!(a, Action::SaveTheme(false)));
    s.update(Message::ThemeLoaded(true), false);
    assert!(s.dark_mode);
}

#[test]
fn other_events_change_nothing() {
    let mut s = loaded();
    let a = s.update(Message::OtherWindowEvent, false);
    assert!(matches!(a, Action::Nothing));
    assert_eq!(s.all_pages.len(), 5);
}

#[test]
fn page_indices_of_a_file() {
    let s = loaded();
    assert_eq!(page_indices_of_pdf(&s.all_pages, 2), vec![2, 3, 4]);
    assert_eq!(page_indices_of_pdf(&s.all_pages, 1), vec![0, 1]);
    assert_eq!(page_indices_of_pdf(&s.all_pages, 3), Vec::<usize>::new());
}
