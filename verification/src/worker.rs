//! The page worker: which pages are prepared, in what order, and how.
pub mod ahead;
pub mod api;
pub mod bmp;
pub mod cache;
pub mod decode_policy;
pub mod delivery;
pub mod draft;
pub mod gif;
pub mod image_crate;
pub mod jpeg;
pub mod keys;
pub mod metadata;
pub mod pixels;
pub mod png;
pub mod png_chunks;
pub mod prepare;
pub mod region;
pub mod resize;
pub mod run_loop;
pub mod scheduler;
pub mod selection;
pub mod session;
pub mod source_bytes;
pub mod webp;
