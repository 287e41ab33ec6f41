//! Checking image formats and preparing images for reading. Confidences are
//! in thousandths.
use vstd::prelude::*;
use crate::ocr::OcrError;
use crate::table::views_of;
use crate::text::{owned, str_eq, to_lowercase, unicode_to_lowercase};
use crate::utils::file_utils::{get_file_extension, path_extension};

verus! {

broadcast use vstd::string::group_string_axioms;

/// The image formats read, by lower-case extension.
pub open spec fn supported_format(lower: Seq<char>) -> bool {
    lower == "jpg"@ || lower == "jpeg"@ || lower == "png"@ || lower == "bmp"@ || lower == "tiff"@ || lower
        == "webp"@
}

/// Image preparation settings.
#[derive(Debug, Clone)]
pub struct ImageProcessor {
    pub quality_threshold: u32,
    pub noise_reduction: bool,
    pub contrast_enhancement: bool,
}

/// An image ready for reading.
#[derive(Debug, Clone)]
pub struct ProcessedImage {
    pub original_path: String,
    pub processed_data: Vec<u8>,
    pub width: u32,
    pub height: u32,
    pub confidence: u32,
    pub preprocessing_applied: Vec<String>,
}

impl Default for ImageProcessor {
    fn default() -> (r: Self)
        ensures
            r.quality_threshold == 700,
            r.noise_reduction,
            r.contrast_enhancement,
    {
        ImageProcessor { quality_threshold: 700, noise_reduction: true, contrast_enhancement: true }
    }
}

/// `items` joined with `sep` between neighbours.
pub open spec fn joined_with(items: Seq<Seq<char>>, sep: Seq<char>) -> Seq<char>
    decreases items.len(),
{
    if items.len() == 0 {
        Seq::empty()
    } else if items.len() == 1 {
        items[0]
    } else {
        joined_with(items.drop_last(), sep) + sep + items.last()
    }
}

/// A copy of a byte slice.
fn copy_bytes(data: &[u8]) -> (r: Vec<u8>)
    ensures
        r@ == data@,
{
    let mut v: Vec<u8> = Vec::new();
    let mut i: usize = 0;
    while i < data.len()
        invariant
            i <= data@.len(),
            v@ == data@.subrange(0, i as int),
        decreases data.len() - i,
    {
        v.push(data[i]);
        i = i + 1;
    }
    v
}

impl ImageProcessor {
    /// The default settings.
    pub fn new() -> (r: Self)
        ensures
            r.quality_threshold == 700,
            r.noise_reduction,
            r.contrast_enhancement,
    {
        Self::default()
    }

    /// Settings from their parts.
    pub fn with_config(quality_threshold: u32, noise_reduction: bool, contrast_enhancement: bool) -> (r: Self)
        ensures
            r.quality_threshold == quality_threshold,
            r.noise_reduction == noise_reduction,
            r.contrast_enhancement == contrast_enhancement,
    {
        ImageProcessor { quality_threshold, noise_reduction, contrast_enhancement }
    }

    /// Prepare the image at a path: refused without an extension or with an
    /// unsupported one; otherwise an 800×600 stand-in of 1024 zero bytes with
    /// confidence 0.85 and the steps these settings apply.
    pub fn process_image_file(&self, image_path: &str) -> (r: Result<ProcessedImage, OcrError>)
        ensures
            match path_extension(image_path@) {
                None => r matches Err(OcrError::ImageProcessing(m)) && m@ == "Unable to determine file extension"@,
                Some(e) => if !supported_format(unicode_to_lowercase(e)) {
                    r matches Err(OcrError::UnsupportedFormat(m)) && m@ == e
                } else {
                    r matches Ok(p) && p.original_path@ == image_path@ && p.processed_data@ == Seq::new(
                        1024,
                        |i: int| 0u8,
                    ) && p.width == 800 && p.height == 600 && p.confidence == 850 && views_of(
                        p.preprocessing_applied@,
                    ) == seq![
                        if self.noise_reduction { "noise_reduction"@ } else { "none"@ },
                        if self.contrast_enhancement { "contrast_enhancement"@ } else { "none"@ },
                        "grayscale_conversion"@,
                        "binarization"@,
                    ]
                },
            },
    {
        let ext = match get_file_extension(image_path) {
            Some(e) => e,
            None => {
                return Err(OcrError::ImageProcessing(owned("Unable to determine file extension")));
            },
        };
        if !self.is_supported_format(ext.as_str()) {
            return Err(OcrError::UnsupportedFormat(ext));
        }
        let mut data: Vec<u8> = Vec::new();
        while data.len() < 1024
            invariant
                data@.len() <= 1024,
                data@ == Seq::new(data@.len(), |i: int| 0u8),
            decreases 1024 - data.len(),
        {
            data.push(0);
            assert(data@ =~= Seq::new(data@.len(), |i: int| 0u8));
        }
        let mut steps: Vec<String> = Vec::new();
        steps.push(
            if self.noise_reduction {
                owned("noise_reduction")
            } else {
                owned("none")
            },
        );
        steps.push(
            if self.contrast_enhancement {
                owned("contrast_enhancement")
            } else {
                owned("none")
            },
        );
        steps.push(owned("grayscale_conversion"));
        steps.push(owned("binarization"));
        let p = ProcessedImage {
            original_path: owned(image_path),
            processed_data: data,
            width: 800,
            height: 600,
            confidence: 850,
            preprocessing_applied: steps,
        };
        assert(views_of(p.preprocessing_applied@) =~= seq![
            if self.noise_reduction { "noise_reduction"@ } else { "none"@ },
            if self.contrast_enhancement { "contrast_enhancement"@ } else { "none"@ },
            "grayscale_conversion"@,
            "binarization"@,
        ]);
        Ok(p)
    }

    /// Prepare image bytes of a named format: refused for an unsupported
    /// format; otherwise the bytes as they are, 800×600, confidence 0.8.
    pub fn process_image_data(&self, image_data: &[u8], format: &str) -> (r: Result<ProcessedImage, OcrError>)
        ensures
            !supported_format(unicode_to_lowercase(format@)) ==> (r matches Err(OcrError::UnsupportedFormat(m))
                && m@ == format@),
            supported_format(unicode_to_lowercase(format@)) ==> (r matches Ok(p) && p.original_path@ == "memory"@
                && p.processed_data@ == image_data@ && p.width == 800 && p.height == 600 && p.confidence == 800
                && views_of(p.preprocessing_applied@) == seq![
                "noise_reduction"@,
                "contrast_enhancement"@,
                "grayscale_conversion"@,
                "binarization"@,
            ]),
    {
        if !self.is_supported_format(format) {
            return Err(OcrError::UnsupportedFormat(owned(format)));
        }
        let mut steps: Vec<String> = Vec::new();
        steps.push(owned("noise_reduction"));
        steps.push(owned("contrast_enhancement"));
        steps.push(owned("grayscale_conversion"));
        steps.push(owned("binarization"));
        let p = ProcessedImage {
            original_path: owned("memory"),
            processed_data: copy_bytes(image_data),
            width: 800,
            height: 600,
            confidence: 800,
            preprocessing_applied: steps,
        };
        assert(views_of(p.preprocessing_applied@) =~= seq![
            "noise_reduction"@,
            "contrast_enhancement"@,
            "grayscale_conversion"@,
            "binarization"@,
        ]);
        Ok(p)
    }

    /// Whether a format (any case) is read.
    pub fn is_supported_format(&self, format: &str) -> (b: bool)
        ensures
            b == supported_format(unicode_to_lowercase(format@)),
    {
        let l = to_lowercase(format);
        let f = l.as_str();
        str_eq(f, "jpg") || str_eq(f, "jpeg") || str_eq(f, "png") || str_eq(f, "bmp") || str_eq(f, "tiff")
            || str_eq(f, "webp")
    }

    /// The rotation found in an image, in degrees: always none.
    pub fn detect_rotation(&self, image_data: &[u8]) -> (r: Result<i32, OcrError>)
        ensures
            r matches Ok(a) && a == 0,
    {
        Ok(0)
    }

    /// The image turned back by an angle; the bytes are kept as they are.
    pub fn correct_rotation(&self, image_data: &[u8], angle: i32) -> (r: Result<Vec<u8>, OcrError>)
        ensures
            r matches Ok(v) && v@ == image_data@,
    {
        Ok(copy_bytes(image_data))
    }
}

impl ProcessedImage {
    /// Whether the image is good enough for a threshold in thousandths.
    pub fn is_quality_sufficient(&self, threshold: u32) -> (b: bool)
        ensures
            b == (self.confidence >= threshold),
    {
        self.confidence >= threshold
    }

    /// The steps applied, joined by `, `.
    pub fn get_preprocessing_summary(&self) -> (r: String)
        ensures
            r@ == joined_with(views_of(self.preprocessing_applied@), ", "@),
    {
        let ghost items = views_of(self.preprocessing_applied@);
        let mut s = String::new();
        let mut i: usize = 0;
        while i < self.preprocessing_applied.len()
            invariant
                items == views_of(self.preprocessing_applied@),
                i <= items.len(),
                s@ == joined_with(items.subrange(0, i as int), ", "@),
            decreases self.preprocessing_applied.len() - i,
        {
            assert(items.subrange(0, i + 1).drop_last() =~= items.subrange(0, i as int));
            if i > 0 {
                s.append(", ");
            } else {
                assert(s@ =~= Seq::<char>::empty());
            }
            s.append(self.preprocessing_applied[i].as_str());
            i = i + 1;
        }
        assert(items.subrange(0, items.len() as int) =~= items);
        s
    }

    /// Width and height.
    pub fn dimensions(&self) -> (r: (u32, u32))
        ensures
            r == (self.width, self.height),
    {
        (self.width, self.height)
    }
}

} // verus!
