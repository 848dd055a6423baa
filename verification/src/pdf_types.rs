//! The records the tool keeps about loaded PDF files and their pages, and the
//! export options.

use std::sync::Arc;
use vstd::prelude::*;

verus! {

/// A PDF file the user loaded.
#[derive(Clone, Debug)]
pub struct PdfDocument {
    /// File name shown in the file list.
    pub name: String,
    /// Size of the file in bytes.
    pub size: u64,
    /// Where the file was read from (its path, as text).
    pub path: Option<String>,
}

/// One page of a loaded PDF file, with its preview images.
#[derive(Clone, Debug)]
pub struct PdfPage {
    /// Identifier of the page: `page-<timestamp>-<page_index>-<page_number>`.
    pub id: String,
    /// Page number within its file, from 1.
    pub page_number: u32,
    /// Position of its file in the file list, from 1.
    pub pdf_index: usize,
    /// Name of its file.
    pub file_name: String,
    /// Page number within its file, from 1.
    pub page_number_in_pdf: u32,
    /// Position of the page among all loaded pages, from 0.
    pub page_index: usize,
    /// PNG bytes of the small preview.
    pub thumbnail_data: Arc<Vec<u8>>,
    /// PNG bytes of the full-size image used on export.
    pub image_data: Arc<Vec<u8>>,
    /// Width of the full-size image in pixels.
    pub width: u32,
    /// Height of the full-size image in pixels.
    pub height: u32,
}

/// Image filters applied to every slide on export.
#[derive(Clone, Copy, Debug, PartialEq, Eq, Structural)]
pub struct FilterOptions {
    /// Replace each colour channel `c` by `255 - c`.
    pub invert: bool,
    /// Turn near-white pixels pure white.
    pub clear_background: bool,
    /// Convert to luma grey.
    pub grayscale: bool,
}

impl Default for FilterOptions {
    /// All filters off.
    fn default() -> (r: Self)
        ensures
            r == (FilterOptions { invert: false, clear_background: false, grayscale: false }),
    {
        FilterOptions { invert: false, clear_background: false, grayscale: false }
    }
}

/// Orientation of the output sheets.
#[derive(Clone, Copy, Debug, PartialEq, Eq, Structural)]
pub enum Orientation {
    Portrait,
    Landscape,
}

impl Default for Orientation {
    /// Portrait.
    fn default() -> (r: Self)
        ensures
            r == Orientation::Portrait,
    {
        Orientation::Portrait
    }
}

} // verus!
