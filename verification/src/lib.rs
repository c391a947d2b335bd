//! Assembles per-instrument audio stems of a song into a synchronized
//! multitrack session: decoding support, duration-based silence-padding
//! alignment to a reference track, stereo-to-mono downmixing, and generation
//! of a text project document plus a binary interchange manifest.

use vstd::prelude::*;

pub mod align;
pub mod container;
pub mod discovery;
pub mod errors;
pub mod mono;
pub mod naming;
pub mod numfmt;
pub mod pad;
pub mod pcm;
pub mod pipeline;
pub mod project;
pub mod settings;
pub mod strutil;

verus! {

/// The audio-alignment-and-export pipeline: decoding support, alignment,
/// downmixing, naming, and generation of the session documents. All its
/// operations are associated functions; the struct itself carries no state.
pub struct AudioProcessor;

} // verus!
