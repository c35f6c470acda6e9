//! Verified building blocks of the Pyvider Secure Package Format (PSPF).

pub mod archive;
pub mod checksum;
pub mod commands;
pub mod env;
pub mod error;
pub mod le;
pub mod pspf;
pub mod pspf_format;
pub mod pspf_packager;
pub mod signing;
pub mod text;
