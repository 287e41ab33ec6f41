//! Camera state, scanner errors and barcode kinds.
pub mod barcode_decoder;
pub mod camera_manager;
pub mod models;
pub mod product_matcher;

use vstd::prelude::*;
use crate::models::{same_product, Product};
use crate::scanner::barcode_decoder::{decode_outcome, BarcodeDecoder};
use crate::scanner::camera_manager::{is_mock_frame, CameraInfo, CameraManager};
use crate::scanner::product_matcher::{made_up_for, valid_code, ProductMatcher};
use crate::table::{has_key, key_index};
use crate::text::owned;

verus! {

broadcast use vstd::string::group_string_axioms;

/// Scanner failures.
#[derive(Debug)]
pub enum ScannerError {
    CameraAccess(String),
    BarcodeDetection(String),
    ProductMatching(String),
    UnsupportedBarcodeType(String),
    NoCameraAvailable,
}

impl ScannerError {
    /// The displayed text of the error.
    pub fn message(&self) -> (r: String)
        ensures
            self matches ScannerError::CameraAccess(m) ==> r@ == "Camera access failed: "@ + m@,
            self matches ScannerError::BarcodeDetection(m) ==> r@ == "Barcode detection failed: "@ + m@,
            self matches ScannerError::ProductMatching(m) ==> r@ == "Product matching failed: "@ + m@,
            self matches ScannerError::UnsupportedBarcodeType(m) ==> r@ == "Unsupported barcode type: "@
                + m@,
            self is NoCameraAvailable ==> r@ == "No camera available"@,
    {
        let (prefix, detail) = match self {
            ScannerError::CameraAccess(m) => ("Camera access failed: ", m.as_str()),
            ScannerError::BarcodeDetection(m) => ("Barcode detection failed: ", m.as_str()),
            ScannerError::ProductMatching(m) => ("Product matching failed: ", m.as_str()),
            ScannerError::UnsupportedBarcodeType(m) => ("Unsupported barcode type: ", m.as_str()),
            ScannerError::NoCameraAvailable => {
                return owned("No camera available");
            },
        };
        let mut s = owned(prefix);
        s.append(detail);
        s
    }
}

/// What looking up code `code` in matcher `m` may give: the known product,
/// one made up for a well-formed code, or none.
pub open spec fn lookup_result(m: ProductMatcher, code: Seq<char>, o: Option<Product>) -> bool {
    if has_key(m.cache(), code) {
        o matches Some(p) && same_product(p, m.cache()[key_index(m.cache(), code)].product)
    } else if valid_code(code) {
        o matches Some(p) && made_up_for(p, code)
    } else {
        o is None
    }
}

/// Camera, decoder and matcher together.
pub struct ScannerService {
    camera_manager: CameraManager,
    barcode_decoder: BarcodeDecoder,
    product_matcher: ProductMatcher,
}

impl ScannerService {
    /// The camera state.
    pub closed spec fn camera_view(&self) -> CameraManager {
        self.camera_manager
    }

    /// The decoder.
    pub closed spec fn decoder_view(&self) -> BarcodeDecoder {
        self.barcode_decoder
    }

    /// The matcher.
    pub closed spec fn matcher_view(&self) -> ProductMatcher {
        self.product_matcher
    }

    /// The matcher's invariant holds.
    pub closed spec fn wf(&self) -> bool {
        self.product_matcher.wf()
    }

    /// A stopped default camera, the default decoder and the sample matcher.
    pub fn new() -> (r: Self)
        ensures
            r.wf(),
            !r.camera_view().running(),
            r.decoder_view().threshold() == 700,
            r.matcher_view().cache().len() == 3,
    {
        ScannerService {
            camera_manager: CameraManager::new(),
            barcode_decoder: BarcodeDecoder::new(),
            product_matcher: ProductMatcher::new(),
        }
    }

    /// Turn the camera on.
    pub fn start_camera(&mut self) -> (r: Result<(), ScannerError>)
        ensures
            old(self).camera_view().running() ==> (r matches Err(e) && camera_manager::camera_error(
                e,
                "Camera is already running"@,
            )),
            !old(self).camera_view().running() ==> r is Ok,
            final(self).camera_view().running(),
            final(self).decoder_view() == old(self).decoder_view(),
            final(self).matcher_view() == old(self).matcher_view(),
            final(self).wf() == old(self).wf(),
    {
        self.camera_manager.start_camera()
    }

    /// Turn the camera off.
    pub fn stop_camera(&mut self) -> (r: Result<(), ScannerError>)
        ensures
            r is Ok,
            !final(self).camera_view().running(),
            final(self).decoder_view() == old(self).decoder_view(),
            final(self).matcher_view() == old(self).matcher_view(),
            final(self).wf() == old(self).wf(),
    {
        self.camera_manager.stop_camera()
    }

    /// Capture a frame (the device's, when it gave one), read its barcode
    /// and look the code up. Each step's error is wrapped with its text.
    pub fn scan_and_match(&self, real_frame: Option<Vec<u8>>) -> (r: Result<Option<Product>, ScannerError>)
        requires
            self.wf(),
        ensures
            !self.camera_view().running() ==> (r matches Err(ScannerError::CameraAccess(m)) && m@
                == "Camera access failed: Camera is not running"@),
            self.camera_view().running() ==> exists|frame: Seq<u8>|
                {
                    &&& (real_frame matches Some(f) ==> frame == f@)
                    &&& (real_frame is None ==> is_mock_frame(frame))
                    &&& match #[trigger] decode_outcome(frame, self.decoder_view().threshold() as int) {
                        Err(msg) => r matches Err(ScannerError::BarcodeDetection(m)) && m@
                            == "Barcode detection failed: "@ + msg,
                        Ok(b) => r matches Ok(o) && lookup_result(self.matcher_view(), b.0, o),
                    }
                },
    {
        let frame = match self.camera_manager.capture_frame(real_frame) {
            Ok(f) => f,
            Err(e) => {
                proof {
                    reveal_strlit("Camera access failed: ");
                    reveal_strlit("Camera is not running");
                    reveal_strlit("Camera access failed: Camera is not running");
                }
                return Err(ScannerError::CameraAccess(e.message()));
            },
        };
        let scan = match self.barcode_decoder.decode(frame.as_slice()) {
            Ok(s) => s,
            Err(e) => {
                let r = Err(ScannerError::BarcodeDetection(e.message()));
                assert(decode_outcome(frame@, self.decoder_view().threshold() as int) matches Err(msg) && (r matches Err(
                    ScannerError::BarcodeDetection(m),
                ) && m@ == "Barcode detection failed: "@ + msg));
                return r;
            },
        };
        let r = match self.product_matcher.find_product_by_scan(&scan) {
            Ok(p) => Ok(p),
            Err(e) => Err(ScannerError::ProductMatching(e.message())),
        };
        assert(decode_outcome(frame@, self.decoder_view().threshold() as int) matches Ok(b) && (r matches Ok(o)
            && lookup_result(self.matcher_view(), b.0, o)));
        r
    }

    /// Whether the camera is on.
    pub fn is_camera_running(&self) -> (b: bool)
        ensures
            b == self.camera_view().running(),
    {
        self.camera_manager.is_running()
    }

    /// The cameras to offer, from what the system reported.
    pub fn list_cameras(&self, reported: Option<Vec<CameraInfo>>) -> (r: Vec<CameraInfo>)
        ensures
            reported is Some ==> r == reported.unwrap(),
            reported is None ==> r@.len() == 1 && r@[0].name@ == "Mock Camera 1"@,
    {
        CameraManager::list_cameras(reported)
    }

    /// The camera.
    pub fn camera(&self) -> (r: &CameraManager)
        ensures
            *r == self.camera_view(),
    {
        &self.camera_manager
    }

    /// The decoder.
    pub fn decoder(&self) -> (r: &BarcodeDecoder)
        ensures
            *r == self.decoder_view(),
    {
        &self.barcode_decoder
    }

    /// The matcher.
    pub fn matcher(&self) -> (r: &ProductMatcher)
        ensures
            *r == self.matcher_view(),
    {
        &self.product_matcher
    }
}

impl Default for ScannerService {
    fn default() -> (r: Self)
        ensures
            r.wf(),
            !r.camera_view().running(),
    {
        Self::new()
    }
}

} // verus!
