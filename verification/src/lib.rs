//! Verified core of the HI Observer recording formats: the versioned
//! little-endian `.bin` observation file and the big-endian FITS binary table.

pub mod byte_codec;
pub mod error;
pub mod text;
pub mod metadata;
pub mod binary_observation;
pub mod clock;
pub mod fits_card;
pub mod fits_table;
pub mod save_format;
pub mod save_control;
pub mod channelize;
pub mod file_chooser;
pub mod session;
