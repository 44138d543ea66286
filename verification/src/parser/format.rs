//! The interface every input format's parser offers.

use vstd::prelude::*;

use crate::error::{ConvertError, ConvertWarning};

verus! {

/// Parsing an input file format into a document.
pub trait Parser {
    /// What a parse is configured by.
    type Options;
    /// What a parse produces.
    type Document;

    /// Parse raw file bytes into a document and any non-fatal warnings.
    fn parse(&self, data: &[u8], options: &Self::Options) -> Result<(Self::Document, Vec<ConvertWarning>), ConvertError>;
}

/// Parser for PPTX (Office Open XML PowerPoint) presentations.
#[derive(Debug, Clone, Copy, PartialEq, Eq, Structural)]
pub struct PptxParser;

} // verus!
