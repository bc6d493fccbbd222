//! Codec for the save-file container of the first game of the trilogy: a
//! fixed header, an uninterpreted region and an embedded compressed archive
//! of named records.
//!
//! * `cursor`: the reader that every decoder takes its bytes from.
//! * `codec`: the `SaveData` trait, which every record implements, and its
//!   instance for `u32`.
//! * `opaque`: records that are kept as bytes.
//! * `archive`: the `zip` crate, behind contracts that are believed and not
//!   proved.
//! * `container`: `Me1SaveGame`, the save file itself.
//! * `laws`: what follows for encoding and decoding taken together.

pub mod archive;
pub mod codec;
pub mod container;
pub mod cursor;
pub mod error;
pub mod laws;
pub mod opaque;
