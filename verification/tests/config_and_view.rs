use notecypher::app_state::AppState;
use notecypher::config::{dark_mode_after_load, dark_mode_from_config, theme_config_text};
use notecypher::pdf_types::{PdfDocument, PdfPage};
use notecypher::view_model::{
    export_summary, file_group, file_selection_summary, find_position_of_id, layout_label,
    page_label, pdf_groups, selection_summary,
};
use std::collections::HashSet;
use std::sync::Arc;

fn page(id: &str, pdf_index: usize, number: u32) -> PdfPage {
    PdfPage {
        id: id.to_string(),
        page_number: number,
        pdf_index,
        file_name: String::new(),
        page_number_in_pdf: number,
        page_index: 0,
        thumbnail_data: Arc::new(vec![]),
        image_data: Arc::new(vec![]),
        width: 1200,
        height: 1600,
    }
}

#[test]
fn theme_config_texts() {
    assert_eq!(theme_config_text(true), "{\n  \"dark_mode\": true\n}");
    assert_eq!(theme_config_text(false), "{\n  \"dark_mode\": false\n}");
}

#[test]
fn stored_theme_reads_back() {
    for stored in [true, false] {
        for current in [true, false] {
            let text = theme_config_text(stored);
            assert_eq!(dark_mode_from_config(&text, current), stored);
        }
    }
}

#[test]
fn theme_from_config_files() {
    assert!(dark_mode_from_config("{\"dark_mode\": true, \"other\": 3}", false));
    assert!(!dark_mode_from_config("{\"dark_mode\": false}", true));
    assert!(dark_mode_from_config("{\"dark_mode\": \"yes\"}", true));
    assert!(!dark_mode_from_config("{\"dark_mode\": 1}", false));
    assert!(dark_mode_from_config("{}", true));
    assert!(!dark_mode_from_config("not json", false));
    assert!(dark_mode_from_config("[true]", true));
}

#[test]
fn theme_after_load() {
    assert!(dark_mode_after_load(Some(true), false));
    assert!(!dark_mode_after_load(Some(false), true));
    assert!(dark_mode_after_load(None, true));
    assert!(!dark_mode_after_load(None, false));
}

#[test]
fn positions_by_id() {
    let pages = vec![page("a", 1, 1), page("b", 1, 2), page("a", 2, 1)];
    assert_eq!(find_position_of_id(&pages, &"b".to_string()), 1);
    assert_eq!(find_position_of_id(&pages, &"a".to_string()), 0);
    assert_eq!(find_position_of_id(&pages, &"zzz".to_string()), 0);
}

#[test]
fn groups_of_the_preview() {
    let pages = vec![page("p0", 1, 1), page("p1", 2, 1), page("p2", 1, 2), page("p3", 3, 1)];
    let selected: HashSet<usize> = [0usize, 2].into_iter().collect();
    let groups = pdf_groups(&pages, &selected, 3);
    let files: Vec<usize> = groups.iter().map(|g| g.pdf_index).collect();
    assert_eq!(files, vec![1, 2, 3]);
    assert_eq!(groups[0].page_positions, vec![0, 2]);
    assert_eq!(groups[0].page_numbers, vec![1, 2]);
    assert_eq!(groups[0].selected_count, 2);
    assert!(groups[0].all_selected);
    assert_eq!(groups[1].page_positions, vec![1]);
    assert_eq!(groups[1].selected_count, 0);
    assert!(!groups[1].all_selected);
}

#[test]
fn files_without_pages_get_no_group() {
    let pages = vec![page("p0", 2, 1)];
    let groups = pdf_groups(&pages, &HashSet::new(), 3);
    let files: Vec<usize> = groups.iter().map(|g| g.pdf_index).collect();
    assert_eq!(files, vec![2]);
    assert!(pdf_groups(&pages, &HashSet::new(), 1).is_empty());
}

#[test]
fn duplicate_ids_are_found_at_their_first_page() {
    let pages = vec![page("same", 1, 1), page("same", 2, 1)];
    let selected: HashSet<usize> = [0usize].into_iter().collect();
    let g = file_group(&pages, &selected, 2);
    assert_eq!(g.page_positions, vec![0]);
    assert_eq!(g.selected_count, 1);
    assert!(g.all_selected);
}

#[test]
fn labels() {
    assert_eq!(selection_summary(3, 12), "3 of 12 selected");
    assert_eq!(file_selection_summary(0, 4), "0 of 4 pages selected");
    assert_eq!(export_summary(7), "7 pages will be processed with your selected options");
    assert_eq!(layout_label(1), "1 slide");
    assert_eq!(layout_label(6), "6 slides");
    assert_eq!(page_label(12), "P12");
}

#[test]
fn export_button_state() {
    let mut s = AppState::new();
    assert!(!s.can_export());
    s.selected_pages.insert(0);
    assert!(s.can_export());
    s.is_processing = true;
    assert!(!s.can_export());
}

#[test]
fn preview_groups_of_the_state() {
    let mut s = AppState::new();
    s.pdf_files = vec![PdfDocument { name: "a".to_string(), size: 1, path: None }];
    s.all_pages = vec![page("x", 1, 1), page("y", 1, 2)];
    s.selected_pages.insert(1);
    let groups = s.preview_groups();
    assert_eq!(groups.len(), 1);
    assert_eq!(groups[0].selected_count, 1);
    assert!(!groups[0].all_selected);
}
