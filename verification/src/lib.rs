//! Verified core of a block-based macro editor: the instruction tree of a
//! macro, the edits that rename or rewire its references, the migrations
//! applied to older saves, and the decisions of the clipboard watcher.
pub mod ids;
pub mod seqs;
pub mod program;
pub mod copy;
pub mod text;
pub mod blocks;
pub mod edit;
pub mod rewrite;
pub mod instructions;
pub mod equality;
pub mod macros;
pub mod slots;
pub mod walk;
pub mod editing;
pub mod purge;
pub mod custom;
pub mod load;
pub mod watch;
pub mod docs;
pub mod names;
pub mod reach;
pub mod laws;
