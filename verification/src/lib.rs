//! A batch image-transformation library.
//!
//! The library discovers eligible image files by extension, applies a
//! configured geometric transform pipeline (resize, rotate, flips), mirrors
//! each input path under an output root, and assigns every output file a
//! categorical label (its parent directory's name) together with a stable,
//! dense class index, accumulating the results into a manifest.
//!
//! Pixel-level work (decoding, resampling, encoding) is delegated to the
//! `image` crate behind a small set of trusted wrappers; everything the
//! library decides — parsing the resize directive, the order and effect of
//! the transform pipeline, output-path construction, label/index assignment
//! and manifest accumulation — is verified.

pub mod bytes;
pub mod config;
pub mod paths;
pub mod picture;
pub mod registry;
pub mod run;
pub mod transform;
