//! Assembles unified kernel images: an EFI stub executable with the kernel,
//! its initrd, its command line and related metadata appended as sections.
//!
//! Every operation works on bytes held in memory; reading the inputs and
//! writing the result is left to the caller.

pub mod align;
pub mod append;
pub mod builder;
pub mod bytes;
pub mod checksum;
pub mod config;
pub mod discover;
pub mod error;
pub mod finish;
pub mod image;
pub mod layout;
pub mod template;
