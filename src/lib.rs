//! Diff synthesis and cosmetic-change classification for a code-review tool.
pub mod text;
pub mod line;
pub mod model;
pub mod hunk;
pub mod assemble;
pub mod untracked;
pub mod resolve;
pub mod repo;
pub mod order;
pub mod changes;
pub mod watcher;
pub mod laws;
