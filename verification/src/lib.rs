//! Verified core of a video-clip library: key bindings, configuration,
//! clip records and their filtering, the in-memory library, scan planning,
//! playback state and the small parsers and formatters around them.
use vstd::prelude::*;

pub mod clock;
pub mod config;
pub mod filter;
pub mod fingerprint;
pub mod keybinds;
pub mod library;
pub mod logs;
pub mod marks;
pub mod media;
pub mod model;
pub mod paths;
pub mod picker;
pub mod player;
pub mod scan;
pub mod script;
pub mod session;
pub mod steam;
pub mod store;
pub mod text;
pub mod viewer;

verus! {

} // verus!
