//! Replays a scripted terminal demo: a script parser, an instruction
//! compiler for highlighted source, the editor state machine that applies
//! instructions, and the player's plan with its acknowledgment handshake.
use vstd::prelude::*;

pub mod text;
pub mod tokenize;
pub mod actions;
pub mod display;
pub mod orchestrate;
pub mod instruction;
pub mod compile;
pub mod file_tree;
pub mod editor;
pub mod playback;
pub mod quit;

verus! {

} // verus!
