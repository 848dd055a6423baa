use notecypher::export_doc::{assemble_pdf, build_document, finish_export, page_size_points, RenderedSlide};
use notecypher::export_plan::{plan_export, ExportError};
use notecypher::imaging::RgbPixels;
use notecypher::pdf_model::{compress_image_data, save_pdf, PdfDict, PdfDocModel, PdfObj};
use notecypher::pdf_types::Orientation;
use std::collections::HashMap;
use std::sync::Arc;

fn slide(shade: u8) -> RenderedSlide {
    RenderedSlide {
        image: RgbPixels { width: 2, height: 1, data: vec![shade; 6] },
        draw_width: b"100.5".to_vec(),
        draw_height: b"50".to_vec(),
        x: b"10".to_vec(),
        y: b"20.25".to_vec(),
    }
}

fn stream_content(o: &PdfObj) -> Vec<u8> {
    match o {
        PdfObj::Stream(s) => s.content.clone(),
        _ => panic!("not a stream"),
    }
}

#[test]
fn a4_sheet_sizes() {
    assert_eq!(page_size_points(Orientation::Portrait), (595, 842));
    assert_eq!(page_size_points(Orientation::Landscape), (842, 595));
}

#[test]
fn document_has_one_part_per_sheet_and_the_page_tree() {
    let slides = vec![slide(1), slide(2), slide(3)];
    let doc = build_document(&slides, 2, Orientation::Portrait);
    assert_eq!(doc.version, "1.7");
    assert_eq!(doc.parts.len(), 3);
    let ids: Vec<u32> = doc.parts[0].iter().map(|(id, _)| *id).collect();
    assert_eq!(ids, vec![1000, 1001, 11, 10]);
    let ids: Vec<u32> = doc.parts[1].iter().map(|(id, _)| *id).collect();
    assert_eq!(ids, vec![1100, 21, 20]);
    let ids: Vec<u32> = doc.parts[2].iter().map(|(id, _)| *id).collect();
    assert_eq!(ids, vec![2, 1]);
    assert_eq!(doc.trailer.entries.len(), 1);
    assert_eq!(doc.trailer.entries[0].0, b"Root".to_vec());
}

#[test]
fn content_stream_draws_each_slide_in_its_cell() {
    let slides = vec![slide(1), slide(2)];
    let doc = build_document(&slides, 2, Orientation::Portrait);
    let content = stream_content(&doc.parts[0][2].1);
    let one = "q \n100.5 0 0 50 10 20.25 \ncm \n/Img1000 Do \nQ \n";
    let two = "q \n100.5 0 0 50 10 20.25 \ncm \n/Img1001 Do \nQ \n";
    assert_eq!(String::from_utf8(content).unwrap(), format!("{}{}", one, two));
}

#[test]
fn image_streams_hold_the_compressed_pixels() {
    let slides = vec![slide(7)];
    let doc = build_document(&slides, 1, Orientation::Landscape);
    let content = stream_content(&doc.parts[0][0].1);
    assert_eq!(content, compress_image_data(&vec![7u8; 6]));
    let plain = miniz_oxide::inflate::decompress_to_vec_zlib(&content).unwrap();
    assert_eq!(plain, vec![7u8; 6]);
}

#[test]
fn compression_changes_the_bytes_and_inflates_back() {
    let data: Vec<u8> = (0..200u32).map(|i| (i % 7) as u8).collect();
    let packed = compress_image_data(&data);
    assert_ne!(packed, data);
    assert_eq!(miniz_oxide::inflate::decompress_to_vec_zlib(&packed).unwrap(), data);
}

#[test]
fn written_document_reads_back_with_its_sheets() {
    let slides = vec![slide(1), slide(2), slide(3), slide(4), slide(5)];
    let bytes = assemble_pdf(&slides, 2, Orientation::Portrait).unwrap();
    assert!(bytes.starts_with(b"%PDF-1.7"));
    assert!(contains(&bytes, b"1 0 obj\n<</Type/Catalog/Pages 2 0 R>>"));
    assert!(contains(&bytes, b"/Type/Pages"));
    assert!(contains(&bytes, b"/Count 3"));
    assert!(contains(&bytes, b"\n10 0 obj"));
    assert!(contains(&bytes, b"\n30 0 obj"));
    assert!(contains(&bytes, b"\n1200 0 obj"));
    assert!(!contains(&bytes, b"/Img1201"));
    assert!(contains(&bytes, b"/Kids[10 0 R 20 0 R 30 0 R]"));
    assert!(contains(&bytes, b"/Img1000 Do"));
    assert!(contains(&bytes, b"/Root 1 0 R"));
    // The cross-reference stream takes the number after the largest object.
    assert!(contains(&bytes, b"\n1201 0 obj"));
    assert!(contains(&bytes, b"/Size 1202"));
    assert_eq!(notecypher::pdf_model::pdf_page_count(&bytes), Some(3));
    let reread = lopdf::Document::load_mem(&bytes).unwrap();
    assert_eq!(reread.catalog().unwrap().get(b"Type").unwrap().as_name().unwrap(), b"Catalog");
}

#[test]
fn the_largest_object_number_is_found() {
    let slides = vec![slide(1), slide(2), slide(3)];
    let doc = build_document(&slides, 2, Orientation::Portrait);
    assert_eq!(notecypher::pdf_model::largest_object_id(&doc), 1100);
    let bare = PdfDocModel { version: "1.7".to_string(), parts: vec![], trailer: PdfDict { entries: vec![] } };
    assert_eq!(notecypher::pdf_model::largest_object_id(&bare), 0);
    let full = PdfDocModel {
        version: "1.7".to_string(),
        parts: vec![vec![(u32::MAX, PdfObj::Integer(1))]],
        trailer: PdfDict { entries: vec![] },
    };
    assert!(save_pdf(&full).is_err());
}

fn contains(hay: &[u8], needle: &[u8]) -> bool {
    hay.windows(needle.len()).any(|w| w == needle)
}

#[test]
fn decode_failure_is_reported_first() {
    let mut images = HashMap::new();
    images.insert(0usize, Arc::new(vec![1u8]));
    let plan = plan_export(vec![0, 4], 2, &images, 1).unwrap();
    assert_eq!(plan.reachable, 1);
    let r = finish_export(plan, &vec![], Some("broken".to_string()), Orientation::Portrait);
    assert_eq!(r.unwrap_err(), ExportError::DecodeFailed("broken".to_string()));
}

#[test]
fn missing_page_is_reported_after_rendering() {
    let mut images = HashMap::new();
    images.insert(0usize, Arc::new(vec![1u8]));
    let plan = plan_export(vec![0, 4], 2, &images, 1).unwrap();
    let r = finish_export(plan, &vec![slide(1)], None, Orientation::Portrait);
    assert_eq!(r.unwrap_err(), ExportError::PageNotFound(4));
}

#[test]
fn complete_export_writes_the_document() {
    let mut images = HashMap::new();
    images.insert(0usize, Arc::new(vec![1u8]));
    images.insert(1usize, Arc::new(vec![2u8]));
    let plan = plan_export(vec![1, 0], 2, &images, 1).unwrap();
    let r = finish_export(plan, &vec![slide(1), slide(2)], None, Orientation::Landscape);
    let bytes = r.unwrap();
    assert!(bytes.starts_with(b"%PDF-1.7"));
    assert!(contains(&bytes, b"/MediaBox[0 0 842 595]"));
    assert!(contains(&bytes, b"\n1100 0 obj"));
}

fn png_of(shade: u8) -> Arc<Vec<u8>> {
    let img = RgbPixels { width: 2, height: 2, data: vec![shade; 12] };
    Arc::new(notecypher::imaging::encode_png_rgb(&img).unwrap())
}

fn draw(img: notecypher::imaging::RgbaPixels, k: usize) -> RenderedSlide {
    RenderedSlide {
        image: notecypher::imaging::to_rgb(img),
        draw_width: b"100".to_vec(),
        draw_height: b"100".to_vec(),
        x: k.to_string().into_bytes(),
        y: b"0".to_vec(),
    }
}

#[test]
fn export_of_nothing_is_refused() {
    let images = HashMap::new();
    let r = notecypher::export_run::export_pdf(vec![], 0, &images, 0, Orientation::Portrait, draw);
    assert_eq!(r.unwrap_err(), ExportError::NoPagesSelected);
}

#[test]
fn export_draws_each_decoded_slide() {
    let mut images = HashMap::new();
    images.insert(0usize, png_of(10));
    images.insert(1usize, png_of(200));
    let plan = plan_export(vec![1, 0], 2, &images, 2).unwrap();
    let (slides, failure) = notecypher::export_run::render_slides(&plan, 2, &images, draw);
    assert!(failure.is_none());
    assert_eq!(slides.len(), 2);
    assert_eq!(slides[0].image.data, vec![10u8; 12]);
    assert_eq!(slides[1].image.data, vec![200u8; 12]);
    assert_eq!(slides[1].x, b"1".to_vec());
    let bytes = notecypher::export_run::export_pdf(vec![1, 0], 2, &images, 2, Orientation::Portrait, draw).unwrap();
    assert!(bytes.starts_with(b"%PDF-1.7"));
    assert!(contains(&bytes, b"/Img1001 Do"));
}

#[test]
fn export_stops_at_an_undecodable_image() {
    let mut images = HashMap::new();
    images.insert(0usize, png_of(10));
    images.insert(1usize, Arc::new(vec![1, 2, 3]));
    let plan = plan_export(vec![0, 1, 7], 2, &images, 1).unwrap();
    let (slides, failure) = notecypher::export_run::render_slides(&plan, 2, &images, draw);
    assert_eq!(slides.len(), 1);
    let cause = image::load_from_memory(&[1, 2, 3]).unwrap_err().to_string();
    assert_eq!(failure, Some(cause.clone()));
    let r = notecypher::export_run::export_pdf(vec![0, 1, 7], 2, &images, 1, Orientation::Portrait, draw);
    assert_eq!(r.unwrap_err(), ExportError::DecodeFailed(cause.clone()));
    assert_eq!(ExportError::DecodeFailed(cause.clone()).message(), format!("Failed to decode image: {}", cause));
}

#[test]
fn export_reports_a_missing_page_after_the_decodable_ones() {
    let mut images = HashMap::new();
    images.insert(0usize, png_of(10));
    let r = notecypher::export_run::export_pdf(vec![0, 7], 2, &images, 1, Orientation::Portrait, draw);
    assert_eq!(r.unwrap_err(), ExportError::PageNotFound(7));
    let r = notecypher::export_run::export_pdf(vec![0, 1], 2, &images, 1, Orientation::Portrait, draw);
    assert_eq!(r.unwrap_err(), ExportError::ImageNotFound(1));
}

#[test]
fn saving_a_bare_model_succeeds() {
    let doc = PdfDocModel {
        version: "1.7".to_string(),
        parts: vec![vec![(1, PdfObj::Dictionary(PdfDict { entries: vec![(b"Type".to_vec(), PdfObj::Name(b"Catalog".to_vec()))] }))]],
        trailer: PdfDict { entries: vec![(b"Root".to_vec(), PdfObj::Reference(1))] },
    };
    let bytes = save_pdf(&doc).unwrap();
    assert!(bytes.starts_with(b"%PDF-1.7"));
}

#[test]
fn selection_order_does_not_change_the_export() {
    let mut images = HashMap::new();
    images.insert(0usize, png_of(10));
    images.insert(1usize, png_of(90));
    images.insert(2usize, png_of(200));
    let a = notecypher::export_run::export_pdf(vec![2, 0, 1], 3, &images, 2, Orientation::Portrait, draw).unwrap();
    let b = notecypher::export_run::export_pdf(vec![0, 1, 2], 3, &images, 2, Orientation::Portrait, draw).unwrap();
    assert_eq!(a, b);
}

#[test]
fn page_counts_of_pdf_bytes() {
    assert_eq!(notecypher::pdf_model::pdf_page_count(b"not a pdf"), None);
    let bytes = assemble_pdf(&vec![slide(1)], 1, Orientation::Portrait).unwrap();
    assert!(notecypher::pdf_model::pdf_page_count(&bytes).is_some());
}

#[test]
fn numbering_switches_to_blocks_past_99_sheets() {
    let slides: Vec<RenderedSlide> = (0..99).map(|i| slide(i as u8)).collect();
    let doc = build_document(&slides, 1, Orientation::Portrait);
    let ids: Vec<u32> = doc.parts[98].iter().map(|(id, _)| *id).collect();
    assert_eq!(ids, vec![10800, 991, 990]);
    let slides: Vec<RenderedSlide> = (0..100).map(|i| slide(i as u8)).collect();
    let doc = build_document(&slides, 1, Orientation::Portrait);
    let ids: Vec<u32> = doc.parts[0].iter().map(|(id, _)| *id).collect();
    assert_eq!(ids, vec![5, 4, 3]);
    let ids: Vec<u32> = doc.parts[99].iter().map(|(id, _)| *id).collect();
    assert_eq!(ids, vec![302, 301, 300]);
}

#[test]
fn permuted_selections_export_alike() {
    let mut images = HashMap::new();
    for i in 0..5usize {
        images.insert(i, png_of(40 * i as u8));
    }
    let a = notecypher::export_run::export_pdf(vec![4, 0, 2, 2, 1], 5, &images, 2, Orientation::Landscape, draw).unwrap();
    let b = notecypher::export_run::export_pdf(vec![2, 1, 4, 2, 0], 5, &images, 2, Orientation::Landscape, draw).unwrap();
    assert_eq!(a, b);
    let e1 = notecypher::export_run::export_pdf(vec![9, 0], 5, &images, 2, Orientation::Landscape, draw);
    let e2 = notecypher::export_run::export_pdf(vec![0, 9], 5, &images, 2, Orientation::Landscape, draw);
    assert_eq!(e1, e2);
    assert_eq!(e1.unwrap_err(), ExportError::PageNotFound(9));
}
