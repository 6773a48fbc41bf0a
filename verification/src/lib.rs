//! A reader and player core for ProTracker MOD files.
//!
//! The verified part of the crate decodes the MOD file layout (song title,
//! sample headers, pattern table, patterns and sample data), decodes the
//! rows of a pattern into notes and effects, and decides, row by row, which
//! sample each channel latches.  It also renders the rows that the player
//! shows and hex dumps.  Audio output, timing and file access live in the
//! application around the library.

use vstd::prelude::*;

pub mod effect;
pub mod text;
pub mod note;
pub mod channel;
pub mod pattern;
pub mod sample;
pub mod module;
pub mod pcm;
pub mod sound;
pub mod formatter;
pub mod hexdump;
pub mod tracker;
pub mod track;
pub mod player;
pub mod config;

verus! {

/// Errors of the sample sources.
#[derive(Debug)]
pub enum Error {
    Sample(String),
}

} // verus!
