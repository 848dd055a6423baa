//! Page selection, layout planning and PDF assembly for a desktop tool that
//! rearranges slides from PDF files into N-up print sheets.

pub mod text;
pub mod size_format;
pub mod pdf_types;
pub mod styles;
pub mod export_plan;
pub mod pdf_model;
pub mod imaging;
pub mod export_doc;
pub mod selection;
pub mod app_state;
pub mod catalog;
pub mod config;
pub mod view_model;
pub mod export_run;
