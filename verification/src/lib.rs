//! Native notification delivery for a window that wraps a web page.
//!
//! The crate decides; it does not talk to the desktop. It keeps the registry
//! that collapses the copies of one message that several windows raise, checks
//! the ids that pages mint, and routes a click to a window. Showing a banner,
//! asking for the windows and evaluating a script are its caller's work.

pub mod answers;
pub mod click;
pub mod id;
pub mod laws;
pub mod native;
pub mod registry;
pub mod runs;
pub mod search;
pub mod send;
pub mod text;
pub mod time;
