//! Resolution and validation of a user-authored backup configuration.
//!
//! A document declares filesystem paths to protect; each path may reference a
//! named profile supplying defaults for encryption, backup methods,
//! destination, and schedule interval, and may override any of those fields
//! directly. [`model`] holds the document exactly as authored, [`resolve`]
//! computes the effective settings of every declared path, and [`validate`]
//! checks the whole document exhaustively, reporting every violation at once.

pub mod model;
pub mod resolve;
pub mod text;
pub mod validate;
