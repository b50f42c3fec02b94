//! A pixel-buffer container with fingerprint equality and a stride-remapping
//! export into renderer-owned texture memory.

pub mod bitmap;
pub mod decoder;
pub mod error;
pub mod fingerprint;
pub mod io;
pub mod laws;
pub mod mem;
pub mod texture;

pub use bitmap::BitMap;
pub use error::BitMapError;
