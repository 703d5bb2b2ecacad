use vstd::prelude::*;
use crate::error::CvError;

verus! {

/// Configuration for the platform screen-capture collaborator: which
/// window to grab frames from.
#[derive(Clone, Debug)]
pub struct CaptureManagerConfig {
    pub window_title: String,
}

/// Holds the capture target. The platform capture loop itself belongs to
/// the collaborators around the core; the core only keeps the settings.
#[derive(Clone, Debug)]
pub struct CaptureManager {
    pub window_title: String,
}

impl CaptureManager {
    pub fn new(config: CaptureManagerConfig) -> (r: Result<CaptureManager, CvError>)
        ensures
            r is Ok,
            r matches Ok(m) ==> m.window_title == config.window_title,
    {
        Ok(CaptureManager { window_title: config.window_title })
    }
}

} // verus!
