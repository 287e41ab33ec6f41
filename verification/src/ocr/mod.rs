//! Reading receipts: image checks, text extraction and receipt parsing.
pub mod image_processor;
pub mod models;
pub mod receipt_parser;
pub mod text_extractor;

use vstd::prelude::*;
use crate::text::owned;

verus! {

broadcast use vstd::string::group_string_axioms;

/// Failures while reading a receipt.
#[derive(Debug)]
pub enum OcrError {
    ImageProcessing(String),
    TextExtraction(String),
    ReceiptParsing(String),
    UnsupportedFormat(String),
    FileNotFound(String),
}

/// The text an OCR error shows.
pub open spec fn ocr_error_text(e: OcrError) -> Seq<char> {
    match e {
        OcrError::ImageProcessing(m) => "Image processing failed: "@ + m@,
        OcrError::TextExtraction(m) => "Text extraction failed: "@ + m@,
        OcrError::ReceiptParsing(m) => "Receipt parsing failed: "@ + m@,
        OcrError::UnsupportedFormat(m) => "Unsupported image format: "@ + m@,
        OcrError::FileNotFound(m) => "File not found: "@ + m@,
    }
}

impl OcrError {
    /// The displayed text of the error.
    pub fn message(&self) -> (r: String)
        ensures
            r@ == ocr_error_text(*self),
    {
        let (prefix, detail) = match self {
            OcrError::ImageProcessing(m) => ("Image processing failed: ", m.as_str()),
            OcrError::TextExtraction(m) => ("Text extraction failed: ", m.as_str()),
            OcrError::ReceiptParsing(m) => ("Receipt parsing failed: ", m.as_str()),
            OcrError::UnsupportedFormat(m) => ("Unsupported image format: ", m.as_str()),
            OcrError::FileNotFound(m) => ("File not found: ", m.as_str()),
        };
        let mut s = owned(prefix);
        s.append(detail);
        s
    }
}

} // verus!
