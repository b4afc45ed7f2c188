//! Core of a desktop music player: an in-memory track catalog with derived
//! favorite and history views, playable orderings with optional shuffled
//! permutations, and a playback controller that drives navigation with
//! browser-style back/forward history.
//!
//! The catalog, the orderings and the controller are plain values; audio
//! output, decoding, tag reading and storage are collaborators that the
//! embedding program drives from the actions these types return.

pub mod assets;
pub mod find;
pub mod ids;
pub mod library;
pub mod player;
pub mod playlist;
pub mod search;
pub mod table;
pub mod track;
pub mod util;
