//! The core of an image converter: an image is decoded from the bytes of a
//! file, a free output path is found, the encoder is picked by the path's
//! extension, and the image is encoded at a normalised quality.
//!
//! Reading and writing files is left to the caller, and so is the WebP
//! encoder, whose interface is floating-point: for WebP the library hands
//! out the RGBA pixels and the quality to encode them at.
//!
//! - [`quality`]: the quality an encoder is run at.
//! - [`format`]: the output formats and how a path names one.
//! - [`path`]: output paths that collide with nothing.
//! - [`codec`]: decoded images, pixel buffers, the JPEG and PNG encoders.
//! - [`convert`]: the pipeline from input bytes to what is to be written.
//! - [`log`]: the line and the stream for a diagnostic message.
//! - [`decimal`], [`text`]: digits and characters, for the modules above.

pub mod codec;
pub mod convert;
pub mod decimal;
pub mod format;
pub mod log;
pub mod path;
pub mod quality;
pub mod text;
