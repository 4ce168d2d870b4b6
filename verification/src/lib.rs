//! Decoder for Standard MIDI Files: chunk validation, variable-length
//! quantities, the running-status state machine, and the channel/meta/sys-ex
//! message decoders, each proved against a spec-level grammar over the bytes.

pub mod bytes;
pub mod event;
pub mod file;
pub mod message;
pub mod text;
pub mod track;
pub mod types;
pub mod vlq;

use vstd::prelude::*;

verus! {

} // verus!
