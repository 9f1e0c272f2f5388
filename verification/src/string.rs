//! Strings whose memory layout a foreign runtime shares.

pub mod utf16;
