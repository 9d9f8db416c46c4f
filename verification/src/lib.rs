//! Read-only decoding of interactive-fiction game files.
//!
//! A game file is either a standalone game image or a resource container that
//! bundles pictures, sounds and game images. [`file_reader::GameType`] reads a
//! buffer as the one that it is; [`file_reader::ulx_reader`] reads images,
//! [`file_reader::blorb_reader`] reads containers, and
//! [`file_reader::blorb_chunk_types`] holds the identifiers that both go by.
//! [`strings`] decodes the entries of an image's string table, and
//! [`pictures`] holds a decoded picture for whoever shows it.
//!
//! Nothing is copied out of the buffer and nothing in it is changed: what the
//! readers return borrows from it. What every function returns is stated as a
//! function of the bytes, so reading the same bytes twice gives the same
//! result, and no function reads outside the buffer whatever the bytes claim.

pub mod file_reader;
pub mod pictures;
pub mod strings;
pub mod text;
