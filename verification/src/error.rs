use vstd::prelude::*;

verus! {

/// The failures of the pipeline. All of them are configuration or caller
/// errors, not transient runtime conditions.
#[derive(Clone, Copy, Debug, PartialEq, Eq, Structural)]
pub enum CvError {
    /// The four score maps handed to the fuser differ in shape.
    ShapeMismatch,
    /// A template exceeds the source image on some axis.
    TemplateLargerThanSource,
    /// `run` was called before any screen size was registered.
    NoActiveScreenSize,
    /// The registry has no entry for the active screen size.
    MissingScale,
    /// A raw image buffer does not fit its stated dimensions.
    ImageDecode,
    /// Rescaling a template produced an empty or oversized image.
    ResizeFailed,
}

} // verus!
