//! Change detection for a periodically polled syndication feed.
//!
//! The library decides, from a parsed feed snapshot and the last feed-level
//! timestamp observed for the source, whether genuinely new content has
//! appeared, and renders a summary of the new entries when it has.

pub mod detector;
pub mod model;
