//! Reading settings.
use vstd::prelude::*;
use crate::text::owned;

verus! {

/// The language to read and the confidence a reading needs, in thousandths.
#[derive(Debug, Clone)]
pub struct OcrConfig {
    pub language: String,
    pub confidence_threshold: u32,
}

impl Default for OcrConfig {
    fn default() -> (r: Self)
        ensures
            r.language@ == "eng"@,
            r.confidence_threshold == 500,
    {
        OcrConfig { language: owned("eng"), confidence_threshold: 500 }
    }
}

} // verus!
