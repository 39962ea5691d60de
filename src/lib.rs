//! Turns decoded video frames into text art and paces their playback.
//!
//! The library holds the logic of the player: the luminosity-to-glyph
//! palette, the text renderer and its cache, the frame-rate converter,
//! the preprocessed frame store, and the decisions of the playback loop.
//! Decoding, audio output and terminal I/O belong to the caller.
use vstd::prelude::*;

pub mod character_pallet;
pub mod config;
pub mod frames;
pub mod image;
mod parallel;
mod text;
pub mod video_player;
pub mod wating_animation;

verus! {

} // verus!
