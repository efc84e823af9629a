//! Choosing how a document becomes a line-oriented text stream.
//!
//! The conversion itself — opening files, spawning converters — is outside
//! work; the decision of which converter serves a given file extension is
//! the engine's rule, fixed here.

use vstd::prelude::*;
use vstd::string::StringExecFns;

verus! {

/// The converter that turns one document into text, keyed by extension.
#[derive(Clone, Copy, Debug, PartialEq, Eq, Structural)]
pub enum ConversionKind {
    /// Plain text: the file is read directly.
    PlainText,
    /// A PDF: text is extracted through an external converter process.
    PdfExtract,
    /// A DOCX document: converted through an external converter process.
    DocxConvert,
    /// Unknown or missing extension: the bytes are read as text.
    RawFallback,
}

/// Picks the converter for a file extension (already lower-cased by the
/// caller): the known document formats go to their converters, everything
/// else falls back to a raw text read.
pub fn conversion_kind(ext: &String) -> (k: ConversionKind)
    ensures
        k is PlainText <==> ext@ == "txt"@,
        k is PdfExtract <==> ext@ == "pdf"@,
        k is DocxConvert <==> ext@ == "docx"@,
        k is RawFallback <==> (ext@ != "txt"@ && ext@ != "pdf"@ && ext@ != "docx"@),
{
    proof {
        reveal_strlit("txt");
        reveal_strlit("pdf");
        reveal_strlit("docx");
        assert("txt"@[0] == 't' && "pdf"@[0] == 'p' && "docx"@[0] == 'd');
    }
    if *ext == String::from_str("txt") {
        ConversionKind::PlainText
    } else if *ext == String::from_str("pdf") {
        ConversionKind::PdfExtract
    } else if *ext == String::from_str("docx") {
        ConversionKind::DocxConvert
    } else {
        ConversionKind::RawFallback
    }
}

} // verus!
