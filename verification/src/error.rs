//! Errors and warnings of a conversion.

use vstd::prelude::*;

verus! {

/// A conversion that could not be carried out.
#[derive(Debug)]
pub enum ConvertError {
    /// The input could not be parsed.
    Parse(String),
    /// The input is an encrypted (OLE2 compound file) document.
    UnsupportedEncryption,
}

/// A non-fatal problem met during a conversion.
#[derive(Debug, Clone)]
pub enum ConvertWarning {
    /// An element was rendered through a simpler fallback.
    FallbackUsed { format: String, from: String, to: String },
    /// A part of the input could not be parsed and was skipped.
    ParseSkipped { format: String, reason: String },
    /// Part of an element was left out.
    PartialElement { format: String, element: String, detail: String },
    /// An element was left out.
    UnsupportedElement { format: String, element: String },
}

/// The text a warning holds.
pub ghost enum WarningView {
    FallbackUsed { format: Seq<char>, from: Seq<char>, to: Seq<char> },
    ParseSkipped { format: Seq<char>, reason: Seq<char> },
    PartialElement { format: Seq<char>, element: Seq<char>, detail: Seq<char> },
    UnsupportedElement { format: Seq<char>, element: Seq<char> },
}

impl View for ConvertWarning {
    type V = WarningView;

    open spec fn view(&self) -> WarningView {
        match self {
            ConvertWarning::FallbackUsed { format, from, to } => WarningView::FallbackUsed {
                format: format@,
                from: from@,
                to: to@,
            },
            ConvertWarning::ParseSkipped { format, reason } => WarningView::ParseSkipped {
                format: format@,
                reason: reason@,
            },
            ConvertWarning::PartialElement { format, element, detail } => WarningView::PartialElement {
                format: format@,
                element: element@,
                detail: detail@,
            },
            ConvertWarning::UnsupportedElement { format, element } => WarningView::UnsupportedElement {
                format: format@,
                element: element@,
            },
        }
    }
}

/// The text of each warning.
pub open spec fn warnings_view(warnings: Seq<ConvertWarning>) -> Seq<WarningView> {
    warnings.map_values(|w: ConvertWarning| w@)
}

/// Build a parse error from anything that displays: its message is what
/// `ToString` gives for `msg`.
pub fn parse_err<T: std::fmt::Display>(msg: T) -> (err: ConvertError)
    ensures
        err is Parse,
        vstd::string::to_string_from_display_ensures::<T>(&msg, err->Parse_0),
{
    ConvertError::Parse(msg.to_string())
}

/// The eight magic bytes that open an OLE2 compound file.
pub open spec fn ole2_magic() -> Seq<u8> {
    seq![0xD0u8, 0xCFu8, 0x11u8, 0xE0u8, 0xA1u8, 0xB1u8, 0x1Au8, 0xE1u8]
}

/// Whether the data starts with the OLE2 compound file signature, which is
/// how encrypted Office documents are stored.
pub fn is_ole2(data: &[u8]) -> (r: bool)
    ensures
        r == (data@.len() >= 8 && data@.take(8) == ole2_magic()),
{
    if data.len() < 8 {
        return false;
    }
    let magic: [u8; 8] = [0xD0, 0xCF, 0x11, 0xE0, 0xA1, 0xB1, 0x1A, 0xE1];
    let mut i: usize = 0;
    while i < 8
        invariant
            0 <= i <= 8,
            data@.len() >= 8,
            magic@ == ole2_magic(),
            forall|j: int| 0 <= j < i ==> data@[j] == ole2_magic()[j],
        decreases 8 - i,
    {
        if data[i] != magic[i] {
            assert(data@.take(8)[i as int] != ole2_magic()[i as int]);
            return false;
        }
        i = i + 1;
    }
    assert(data@.take(8) =~= ole2_magic());
    true
}

} // verus!
