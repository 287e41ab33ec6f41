//! Barcode kinds and camera configuration.
use vstd::prelude::*;

verus! {

/// Barcode symbologies the scanner distinguishes.
#[derive(Debug, Clone, Copy, PartialEq, Eq, Structural, Hash)]
pub enum BarcodeType {
    Ean13,
    Ean8,
    Code128,
    QrCode,
    Unknown,
}

/// Requested capture size and rate.
#[derive(Debug, Clone, Copy, PartialEq, Eq, Structural)]
pub struct CameraConfig {
    pub width: u32,
    pub height: u32,
    pub fps: u32,
}

impl Default for CameraConfig {
    fn default() -> (r: Self)
        ensures
            r.width == 640,
            r.height == 480,
            r.fps == 30,
    {
        CameraConfig { width: 640, height: 480, fps: 30 }
    }
}

} // verus!
