//! Optical transmission of a byte payload: the payload is cut into
//! erasure-coded, self-describing packets, every packet becomes a two-tone
//! module matrix, and the matrices become the grayscale frames of a timed
//! animation.

pub mod config;
pub mod fountain;
pub mod frame;
pub mod matrix;
pub mod packet;
pub mod pipeline;
pub mod source;

pub use config::{set_constants, Constants};
pub use frame::make_apng;
pub use matrix::make_qr_codes;
pub use packet::make_data_packs;
pub use pipeline::{run_hex, run_text};
pub use source::{prepare_hex, prepare_text, Entry};
