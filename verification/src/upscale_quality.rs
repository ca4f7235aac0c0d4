//! The quality scan: how well the upscalers restore pages that were made smaller.
pub mod compare;
pub mod pictures;
pub mod report;
pub mod scan;
pub mod scan_loop;
pub mod visuals;
