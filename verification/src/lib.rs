//! Duplicate-link watcher: the verified core of a chat moderation bot that
//! flags links already posted recently in the same scope (channel or guild).
//!
//! The library holds the logic worth proving: extracting URL-shaped substrings
//! from message text, filtering out links that are mere media previews,
//! fingerprinting a link within its scope, deciding whether a sighting is new
//! or a duplicate, composing the duplicate notice, and the bounded
//! listener that accepts or ignores control activations on that notice. All
//! network traffic (the chat gateway and the cache backend) stays outside, in
//! the surrounding application, which executes the cache commands and message
//! actions this library decides on.

pub mod bytes;
pub mod fingerprint;
pub mod links;
pub mod listener;
pub mod notice;
pub mod pipeline;
pub mod previews;
pub mod store;
