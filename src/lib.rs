//! Session attention classification for coding-agent sessions: reading
//! bounded windows of a JSON-Lines transcript, classifying a session as
//! needing input, errored, running, idle or stale, building a display
//! summary, and aggregating results per group.

pub mod agentdeck;
pub mod aggregate;
pub mod attention;
pub mod command;
pub mod git;
pub mod github;
pub mod json;
pub mod paths;
pub mod summary;
pub mod text;
pub mod timestamp;
pub mod transcript;
