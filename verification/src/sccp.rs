//! SCCP: global-title translation and E.214/E.164 conversion.
pub mod convert;
pub mod gtt;
pub mod laws;
pub mod message;
pub mod title_laws;
