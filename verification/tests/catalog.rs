use notecypher::catalog::{listed_page_total, page_id, process_pdf, PageImages, SourceFile};
use notecypher::imaging::{decode_rgba, RgbPixels, RgbaPixels};

fn preview() -> RgbaPixels {
    RgbaPixels { width: 2, height: 2, data: vec![0, 0, 100, 255, 10, 20, 130, 255, 5, 6, 120, 255, 9, 9, 150, 255] }
}

/// A full-size picture whose shade tells the file and page apart.
fn drawn(file: usize, page: usize) -> PageImages {
    let shade = (file * 10 + page) as u8;
    PageImages { preview: preview(), full: RgbPixels { width: 3, height: 2, data: vec![shade; 18] } }
}

fn empty_pictures(_file: usize, _page: usize) -> PageImages {
    PageImages { preview: RgbaPixels { width: 0, height: 0, data: vec![] }, full: RgbPixels { width: 0, height: 0, data: vec![] } }
}

fn file(path: &str, name: Option<&str>, size: Option<u64>, pages: Option<usize>) -> SourceFile {
    SourceFile {
        path: path.to_string(),
        file_name: name.map(|n| n.to_string()),
        size,
        read_error: None,
        page_count: pages,
    }
}

#[test]
fn page_identifiers() {
    assert_eq!(page_id(1700000000123456789, 4, 2), "page-1700000000123456789-4-2");
    assert_eq!(page_id(0, 0, 1), "page-0-0-1");
    assert_eq!(page_id(-42, 10, 3), "page--42-10-3");
}

#[test]
fn files_become_documents_and_pages() {
    let files = vec![
        file("/d/a.pdf", Some("a.pdf"), Some(1234), Some(2)),
        file("/d/b", None, None, None),
    ];
    let c = process_pdf(&files, 4, 3, 77, drawn).unwrap();
    assert_eq!(c.documents.len(), 2);
    assert_eq!(c.documents[0].name, "a.pdf");
    assert_eq!(c.documents[0].size, 1234);
    assert_eq!(c.documents[0].path, Some("/d/a.pdf".to_string()));
    assert_eq!(c.documents[1].name, "unknown.pdf");
    assert_eq!(c.documents[1].size, 0);
    assert_eq!(c.pages.len(), 3);
    let summary: Vec<(usize, u32, usize, &str, &str)> = c
        .pages
        .iter()
        .map(|p| (p.pdf_index, p.page_number, p.page_index, p.file_name.as_str(), p.id.as_str()))
        .collect();
    assert_eq!(
        summary,
        vec![
            (5, 1, 3, "a.pdf", "page-77-3-1"),
            (5, 2, 4, "a.pdf", "page-77-4-2"),
            (6, 1, 5, "unknown.pdf", "page-77-5-1"),
        ]
    );
    for p in &c.pages {
        assert_eq!(p.page_number_in_pdf, p.page_number);
        assert_eq!((p.width, p.height), (3, 2));
    }
    let mut keys: Vec<usize> = c.images.keys().copied().collect();
    keys.sort();
    assert_eq!(keys, vec![3, 4, 5]);
    assert_eq!(*c.images[&4], *c.pages[1].image_data);
}

#[test]
fn page_images_are_what_the_renderer_drew() {
    let files = vec![file("/d/a.pdf", Some("a.pdf"), Some(1), Some(2)), file("/d/b.pdf", None, None, Some(1))];
    let c = process_pdf(&files, 0, 0, 0, drawn).unwrap();
    let full = decode_rgba(&c.pages[1].image_data).unwrap();
    assert_eq!((full.width, full.height), (3, 2));
    assert_eq!(full.data, [2u8, 2, 2, 255].repeat(6));
    let full = decode_rgba(&c.pages[2].image_data).unwrap();
    assert_eq!(full.data, [11u8, 11, 11, 255].repeat(6));
    let small = decode_rgba(&c.pages[0].thumbnail_data).unwrap();
    assert_eq!((small.width, small.height), (2, 2));
    assert_eq!(small.data, preview().data);
}

#[test]
fn an_unreadable_file_stops_with_its_message() {
    let mut bad = file("/d/bad.pdf", Some("bad.pdf"), Some(5), Some(1));
    bad.read_error = Some("permission denied".to_string());
    let files = vec![file("/d/a.pdf", Some("a.pdf"), Some(1), Some(1)), bad];
    let r = process_pdf(&files, 0, 0, 0, drawn);
    assert_eq!(r.err().unwrap(), "Failed to read PDF /d/bad.pdf: permission denied");
}

#[test]
fn pictures_without_pixels_do_not_encode() {
    let files = vec![file("/d/a.pdf", Some("a.pdf"), Some(1), Some(1))];
    let r = process_pdf(&files, 0, 0, 0, empty_pictures);
    assert!(r.err().unwrap().starts_with("Failed to encode thumbnail: "));
}

#[test]
fn no_files_give_an_empty_catalog() {
    let c = process_pdf(&vec![], 2, 7, 0, drawn).unwrap();
    assert!(c.documents.is_empty());
    assert!(c.pages.is_empty());
    assert!(c.images.is_empty());
}

#[test]
fn listed_page_totals() {
    let files = vec![file("a", None, None, Some(4)), file("b", None, None, None), file("c", None, None, Some(0))];
    assert_eq!(listed_page_total(&files), Some(5));
    assert_eq!(listed_page_total(&vec![]), Some(0));
    let huge = vec![file("a", None, None, Some(usize::MAX)), file("b", None, None, Some(1))];
    assert_eq!(listed_page_total(&huge), None);
}
