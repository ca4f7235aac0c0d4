//! Upscaling on the GPU: which networks a bench compiles, how a request is routed, and the passes
//! that each network runs.
pub mod acnet;
pub mod anime4k;
pub mod artcnn;
pub mod bench;
pub mod cunny;
pub mod nvidia_nis;
pub mod readback;
pub mod sizes;
pub mod span;
