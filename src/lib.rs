//! Per-pixel bit and arithmetic transforms ("deepfrying") of RGB images.

pub mod fry;
pub mod image_buf;
pub mod mode;
pub mod preset;
pub mod random;

pub use fry::{deepfry, DeepfryAlgorithm};
pub use image_buf::RgbBuffer;
pub use mode::ChangeMode;
pub use preset::{deepfry_preset, AlgorithmConfig, Preset};
