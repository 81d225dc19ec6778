//! Core engine for extracting a cover image from a comic-book archive
//! (ZIP/CBZ, RAR/CBR, 7z/CB7) and turning it into a fixed-size pixel
//! surface in the target channel order.
//!
//! The crate is organised around two subsystems: the archive layer
//! (format detection, entry selection, size-guarded extraction) and the
//! image pipeline (magic-byte detection, decoding, aspect-preserving
//! resize, background compositing, channel reordering).

pub mod app_state;
pub mod archive;
pub mod errors;
pub mod magic;
pub mod names;
pub mod open;
pub mod pixels;
pub mod resize;
pub mod selection;
pub mod sevenz_stream;
pub mod thumbnail;
pub mod zip_stream;
