//! Recognition core for on-screen stratagem sequences.
//!
//! The pipeline turns a captured RGBA frame into an ordered list of
//! direction sequences: grayscale normalization, template matching of the
//! four direction glyphs, per-pixel fusion of the four score maps into a
//! dominant-direction map, and extraction of rows of directions from that
//! map. Scores are exact rationals of the form `num / sqrt(den)`, so every
//! comparison the pipeline makes is proved against integer arithmetic.
//!
//! Every operation is a sequential, deterministic function of its
//! arguments — the contracts pin each result — so what a frame yields
//! cannot depend on scheduling or thread count.

pub mod error;
pub mod finder;
pub mod grid;
pub mod image;
pub mod manager;
pub mod matcher;
pub mod scale;
pub mod score;
pub mod screen_capture;
pub mod search;

pub use error::CvError;
pub use grid::Grid;
pub use image::{GrayImage, RgbaImage};
pub use manager::{
    DirectionTemplateMatcherSet, Hd2mCvManager, Hd2mCvManagerConfig, Hd2mCvSearchOptions,
};
pub use matcher::TemplateMatcher;
pub use scale::AutoScale;
pub use score::Score;
pub use screen_capture::{CaptureManager, CaptureManagerConfig};
pub use search::{Direction, DirectionDescriptor, FusedMap, Point, ScoreMap};
