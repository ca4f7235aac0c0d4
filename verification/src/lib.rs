//! Decoding, scheduling and upscaling logic of the SuiSuiView page viewer.
pub mod binary;
pub mod color;
pub mod decoder_backend;
pub mod gpu;
pub mod single_instance;
pub mod source;
pub mod startup_window;
pub mod state;
pub mod text;
pub mod upscale_quality;
pub mod worker;
