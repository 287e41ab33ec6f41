//! Camera on/off state, configuration and frame hand-out.
//!
//! Talking to the camera device happens around this type: the caller probes
//! the device when starting and reads a real frame when capturing, and hands
//! the outcome in; this type decides what the application sees.
use vstd::prelude::*;
use crate::scanner::models::CameraConfig;
use crate::scanner::ScannerError;
use crate::text::owned;

verus! {

broadcast use vstd::string::group_string_axioms;

/// Width of the stand-in frame.
pub const MOCK_WIDTH: usize = 640;

/// Height of the stand-in frame.
pub const MOCK_HEIGHT: usize = 480;

/// Grey level of the stand-in frame at column `x`, row `y`: a checkerboard
/// of 50-pixel squares, light (200) where the square indices sum to an even
/// number, dark (100) elsewhere.
pub open spec fn mock_pixel(x: int, y: int) -> u8 {
    if (x / 50 + y / 50) % 2 == 0 {
        200
    } else {
        100
    }
}

/// The stand-in frame, row by row.
pub open spec fn is_mock_frame(f: Seq<u8>) -> bool {
    f.len() == MOCK_WIDTH * MOCK_HEIGHT && forall|i: int|
        0 <= i < f.len() ==> #[trigger] f[i] == mock_pixel(i % 640, i / 640)
}

/// Camera state.
pub struct CameraManager {
    config: CameraConfig,
    is_running: bool,
}

/// A camera the system reports.
#[derive(Debug)]
pub struct CameraInfo {
    pub id: u32,
    pub name: String,
    pub description: String,
    pub supported_resolutions: Vec<(u32, u32)>,
}

/// The error text for a camera-state refusal.
pub open spec fn camera_error(e: ScannerError, text: Seq<char>) -> bool {
    e matches ScannerError::CameraAccess(m) && m@ == text
}

impl CameraManager {
    /// The current configuration, as a value.
    pub closed spec fn config_view(&self) -> CameraConfig {
        self.config
    }

    /// Whether the camera is on.
    pub closed spec fn running(&self) -> bool {
        self.is_running
    }

    /// A stopped camera with the default configuration.
    pub fn new() -> (r: Self)
        ensures
            !r.running(),
            r.config_view() == (CameraConfig { width: 640, height: 480, fps: 30 }),
    {
        CameraManager { config: CameraConfig::default(), is_running: false }
    }

    /// A stopped camera with the given configuration.
    pub fn with_config(config: CameraConfig) -> (r: Self)
        ensures
            !r.running(),
            r.config_view() == config,
    {
        CameraManager { config, is_running: false }
    }

    /// Turn the camera on; refused when it is already on.
    pub fn start_camera(&mut self) -> (r: Result<(), ScannerError>)
        ensures
            old(self).running() ==> (r matches Err(e) && camera_error(e, "Camera is already running"@)),
            old(self).running() ==> final(self).running(),
            !old(self).running() ==> r is Ok && final(self).running(),
            final(self).config_view() == old(self).config_view(),
    {
        if self.is_running {
            return Err(ScannerError::CameraAccess(owned("Camera is already running")));
        }
        self.is_running = true;
        Ok(())
    }

    /// Turn the camera off; stopping a stopped camera is fine.
    pub fn stop_camera(&mut self) -> (r: Result<(), ScannerError>)
        ensures
            r is Ok,
            !final(self).running(),
            final(self).config_view() == old(self).config_view(),
    {
        self.is_running = false;
        Ok(())
    }

    /// Whether the camera is on.
    pub fn is_running(&self) -> (b: bool)
        ensures
            b == self.running(),
    {
        self.is_running
    }

    /// A frame from a running camera: the real frame when the device gave
    /// one, else the stand-in frame. Refused when the camera is off.
    pub fn capture_frame(&self, real_frame: Option<Vec<u8>>) -> (r: Result<Vec<u8>, ScannerError>)
        ensures
            !self.running() ==> (r matches Err(e) && camera_error(e, "Camera is not running"@)),
            self.running() && real_frame is Some ==> r == Ok::<Vec<u8>, ScannerError>(
                real_frame.unwrap(),
            ),
            self.running() && real_frame is None ==> (r matches Ok(f) && is_mock_frame(f@)),
    {
        if !self.is_running {
            return Err(ScannerError::CameraAccess(owned("Camera is not running")));
        }
        match real_frame {
            Some(f) => Ok(f),
            None => self.generate_mock_frame(),
        }
    }

    /// The current configuration.
    pub fn get_config(&self) -> (r: &CameraConfig)
        ensures
            *r == self.config_view(),
    {
        &self.config
    }

    /// Replace the configuration; refused while the camera is on.
    pub fn update_config(&mut self, config: CameraConfig) -> (r: Result<(), ScannerError>)
        ensures
            old(self).running() ==> (r matches Err(e) && camera_error(
                e,
                "Cannot update config while camera is running. Stop camera first."@,
            )) && final(self).config_view() == old(self).config_view(),
            !old(self).running() ==> r is Ok && final(self).config_view() == config,
            final(self).running() == old(self).running(),
    {
        if self.is_running {
            return Err(
                ScannerError::CameraAccess(
                    owned("Cannot update config while camera is running. Stop camera first."),
                ),
            );
        }
        self.config = config;
        Ok(())
    }

    /// The cameras to offer: those the system reported, or, when it could
    /// not be asked, one simulated camera.
    pub fn list_cameras(reported: Option<Vec<CameraInfo>>) -> (r: Vec<CameraInfo>)
        ensures
            reported is Some ==> r == reported.unwrap(),
            reported is None ==> r@.len() == 1 && r@[0].id == 0 && r@[0].name@ == "Mock Camera 1"@
                && r@[0].description@ == "Simulated camera device"@
                && r@[0].supported_resolutions@ == seq![(640u32, 480u32), (1280u32, 720u32), (1920u32, 1080u32)],
    {
        match reported {
            Some(v) => v,
            None => {
                let mut res: Vec<(u32, u32)> = Vec::new();
                res.push((640, 480));
                res.push((1280, 720));
                res.push((1920, 1080));
                let mut v: Vec<CameraInfo> = Vec::new();
                v.push(CameraInfo {
                    id: 0,
                    name: owned("Mock Camera 1"),
                    description: owned("Simulated camera device"),
                    supported_resolutions: res,
                });
                v
            },
        }
    }

    /// The stand-in frame.
    pub fn generate_mock_frame(&self) -> (r: Result<Vec<u8>, ScannerError>)
        ensures
            r matches Ok(f) && is_mock_frame(f@),
    {
        Ok(Self::generate_mock_frame_static())
    }

    /// The stand-in frame: 640×480 grey levels in a 50-pixel checkerboard.
    pub fn generate_mock_frame_static() -> (r: Vec<u8>)
        ensures
            is_mock_frame(r@),
    {
        let width: usize = 640;
        let height: usize = 480;
        let mut frame: Vec<u8> = Vec::new();
        let mut y: usize = 0;
        while y < height
            invariant
                width == 640,
                height == 480,
                y <= height,
                frame@.len() == y * width,
                forall|i: int| 0 <= i < frame@.len() ==> #[trigger] frame@[i] == mock_pixel(i % 640, i / 640),
            decreases height - y,
        {
            let mut x: usize = 0;
            while x < width
                invariant
                    width == 640,
                    height == 480,
                    y < height,
                    x <= width,
                    frame@.len() == y * width + x,
                    forall|i: int|
                        0 <= i < frame@.len() ==> #[trigger] frame@[i] == mock_pixel(i % 640, i / 640),
                decreases width - x,
            {
                let v: u8 = if (x / 50 + y / 50) % 2 == 0 {
                    200
                } else {
                    100
                };
                let ghost idx: int = (y * width + x) as int;
                assert(idx % 640 == x as int && idx / 640 == y as int) by (nonlinear_arith)
                    requires
                        idx == y * 640 + x,
                        0 <= x < 640,
                        0 <= y,
                ;
                frame.push(v);
                x = x + 1;
            }
            assert((y + 1) * width == y * width + width) by (nonlinear_arith);
            y = y + 1;
        }
        frame
    }
}

impl Default for CameraManager {
    fn default() -> (r: Self)
        ensures
            !r.running(),
            r.config_view() == (CameraConfig { width: 640, height: 480, fps: 30 }),
    {
        Self::new()
    }
}

} // verus!
