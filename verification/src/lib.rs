//! Verified core of a file-moving library: the registry of cancellable
//! operations, the bookkeeping done while a transfer reports progress, the
//! decisions taken after each move, and the encodings exchanged with the
//! operating system (wide strings, long-path prefixes, clipboard payloads).

pub mod registry;
pub mod wide;
pub mod clipboard;
pub mod transfer;
pub mod progress;
pub mod volumes;
pub mod attributes;
