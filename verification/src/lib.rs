pub mod collector;
pub mod laws;
pub mod manifest;
pub mod media;
pub mod numeral;
pub mod watermark;
