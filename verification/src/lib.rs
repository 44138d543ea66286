//! Verified core of an Office (DOCX/PPTX/XLSX) to PDF converter: the
//! intermediate-representation types and the format decisions that map
//! Office markup onto them.

pub mod error;
pub mod ir;
pub mod text_util;
pub mod xml;
pub mod parser;
