//! A format-agnostic audio-metadata abstraction layer.
//!
//! Callers read, mutate and convert descriptive metadata (title, artist,
//! album, track and disc numbers, cover art) through one canonical
//! vocabulary, independent of the on-disk tag format that stores it.

pub mod any_tag;
pub mod item;
pub mod num;
pub mod opus_tag;
pub mod picture;
pub mod search;
pub mod tag;
