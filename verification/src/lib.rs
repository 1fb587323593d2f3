//! Patch graphs for a small polyphonic synthesizer.
//!
//! A patch names operator nodes and declares edges between their endpoints
//! ([`patch`], [`endpoint`]). It compiles into a wired signal graph of two
//! global inputs and one global output ([`graph`]), which is set on a
//! network of operators ([`net`]); its signal paths can be listed
//! ([`paths`]). The voice table holds at most one voice per sounding key
//! ([`voice`]); the keys come from the playing keyboard ([`keyboard`],
//! [`piano`], [`note`]). The command line edits and completes commands
//! ([`command_box`], [`command`], [`input`], [`text`]). A rendered sample is
//! written to the channels of a frame ([`render`]).

pub mod command;
pub mod command_box;
pub mod endpoint;
pub mod find;
pub mod graph;
pub mod input;
pub mod keyboard;
pub mod net;
pub mod note;
pub mod patch;
pub mod paths;
pub mod piano;
pub mod render;
pub mod text;
pub mod voice;
