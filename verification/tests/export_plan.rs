use notecypher::export_plan::{export_ids_fit, grid_for_layout, plan_export, slide_cell_for, ExportError};
use std::collections::HashMap;
use std::sync::Arc;

fn images_for(indices: &[usize]) -> HashMap<usize, Arc<Vec<u8>>> {
    let mut images = HashMap::new();
    for &i in indices {
        images.insert(i, Arc::new(vec![i as u8]));
    }
    images
}

#[test]
fn empty_selection_is_refused() {
    let images = images_for(&[0, 1]);
    let r = plan_export(vec![], 2, &images, 1);
    assert_eq!(r.unwrap_err(), ExportError::NoPagesSelected);
}

#[test]
fn empty_selection_is_refused_whatever_the_layout() {
    let images = images_for(&[]);
    let r = plan_export(vec![], 0, &images, 0);
    assert_eq!(r.unwrap_err(), ExportError::NoPagesSelected);
}

#[test]
fn slides_come_in_ascending_page_order() {
    let images = images_for(&[0, 1, 2, 3]);
    let plan = plan_export(vec![3, 0, 2, 1], 4, &images, 4).unwrap();
    assert_eq!(plan.order, vec![0, 1, 2, 3]);
    assert_eq!(plan.reachable, 4);
    assert_eq!(plan.stop, None);
    assert_eq!((plan.columns, plan.rows), (2, 2));
    assert_eq!(plan.layout, 4);
}

#[test]
fn a_missing_page_stops_the_export() {
    let images = images_for(&[1, 5]);
    let plan = plan_export(vec![5, 1], 3, &images, 2).unwrap();
    assert_eq!(plan.order, vec![1, 5]);
    assert_eq!(plan.reachable, 1);
    assert_eq!(plan.stop, Some(ExportError::PageNotFound(5)));
}

#[test]
fn a_missing_image_stops_the_export() {
    let images = images_for(&[0]);
    let plan = plan_export(vec![1, 0, 2], 3, &images, 1).unwrap();
    assert_eq!(plan.order, vec![0, 1, 2]);
    assert_eq!(plan.reachable, 1);
    assert_eq!(plan.stop, Some(ExportError::ImageNotFound(1)));
}

#[test]
fn grids_of_the_layout_choices() {
    assert_eq!(grid_for_layout(1), (1, 1));
    assert_eq!(grid_for_layout(2), (1, 2));
    assert_eq!(grid_for_layout(3), (1, 3));
    assert_eq!(grid_for_layout(4), (2, 2));
    assert_eq!(grid_for_layout(6), (2, 3));
    assert_eq!(grid_for_layout(5), (1, 1));
    assert_eq!(grid_for_layout(0), (1, 1));
}

#[test]
fn slide_positions_on_sheets() {
    let images = images_for(&[0, 1, 2, 3, 4, 5, 6, 7]);
    let plan = plan_export((0..8).collect(), 8, &images, 6).unwrap();
    assert_eq!(plan.slide_sheet(7), 1);
    assert_eq!(plan.slide_cell(7), (1, 0));
    assert_eq!(plan.slide_sheet(4), 0);
    assert_eq!(plan.slide_cell(4), (0, 2));
    assert_eq!(plan.slide_cell(5), (1, 2));
}

#[test]
fn error_messages() {
    assert_eq!(ExportError::NoPagesSelected.message(), "No pages selected");
    assert_eq!(ExportError::PageNotFound(7).message(), "Page 7 not found");
    assert_eq!(ExportError::ImageNotFound(31).message(), "Image data not found for page 31");
    assert_eq!(
        ExportError::DecodeFailed("bad header".to_string()).message(),
        "Failed to decode image: bad header"
    );
    assert_eq!(
        ExportError::SaveFailed("disk full".to_string()).message(),
        "Failed to save PDF: disk full"
    );
}

#[test]
fn object_numbers_fit_for_ordinary_exports() {
    assert!(export_ids_fit(0, 1));
    assert!(export_ids_fit(10, 1));
    assert!(export_ids_fit(1000, 6));
}

#[test]
fn object_numbers_stop_fitting_at_the_limit() {
    // With one slide per sheet, each sheet takes three numbers from 3 on.
    assert!(export_ids_fit(1_431_655_764, 1));
    assert!(!export_ids_fit(1_431_655_765, 1));
}

#[test]
fn cells_of_slides_by_layout() {
    assert_eq!(slide_cell_for(6, 7), (1, 0));
    assert_eq!(slide_cell_for(6, 5), (1, 2));
    assert_eq!(slide_cell_for(4, 3), (1, 1));
    assert_eq!(slide_cell_for(3, 2), (0, 2));
    assert_eq!(slide_cell_for(5, 9), (0, 4));
    assert_eq!(slide_cell_for(1, 9), (0, 0));
}
