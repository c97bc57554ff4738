//! Verified parsing, formatting, serialization and assertion checking for
//! `.nwscript` Nix daemon protocol scripts.

pub mod comments;
pub mod decompile;
pub mod expect;
pub mod format;
pub mod notes;
pub mod num;
pub mod op_args;
pub mod parse;
pub mod protocol;
pub mod response_fields;
pub mod readback;
pub mod roundtrip;
pub mod script;
pub mod serialize;
pub mod stats;
pub mod stats_sums;
pub mod text;
pub mod wire_words;
