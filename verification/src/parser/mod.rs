//! Parsers for the Office formats: the decisions that map Office markup onto
//! the intermediate representation.

pub mod cond_fmt;
pub mod docx_lists;
pub mod docx_media;
pub mod docx_numbering;
pub mod docx_tables;
pub mod docx_text;
pub mod format;
pub mod pptx_defaults;
pub mod pptx_list_style;
pub mod pptx_lists;
pub mod pptx_placeholders;
pub mod pptx_shape_elements;
pub mod pptx_shapes;
pub mod pptx_slide_reader;
pub mod pptx_slides;
pub mod pptx_smartart;
pub mod pptx_text;
pub mod pptx_theme;
