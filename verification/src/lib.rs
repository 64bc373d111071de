//! Recovery engine for a multiplayer arena backend that cannot rely on
//! process memory surviving between requests.
//!
//! The crate models textual data as UTF-8 byte vectors and verifies the
//! tiered state load/save pipeline, the broker gateway protocol and the
//! deterministic event-log replay that rebuilds the player map.

pub mod backup;
pub mod broker;
pub mod config;
pub mod codec;
pub mod commands;
pub mod event;
pub mod player;
pub mod replay;
pub mod store;
pub mod text;

use vstd::prelude::*;
use vstd::string::StrSliceExecFns;

verus! {

/// Byte encoding of a string of characters; used to tie string literals
/// to the byte vectors the library works with.
pub open spec fn txt(s: Seq<char>) -> Seq<u8> {
    vstd::utf8::encode_utf8(s)
}

/// Copies the bytes of a string slice into a fresh vector.
pub fn str_bytes(s: &str) -> (r: Vec<u8>)
    ensures
        r@ == txt(s@),
{
    s.as_bytes_vec()
}

} // verus!
