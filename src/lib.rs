//! An in-memory toy filesystem: a table of inodes keyed by numeric
//! identifier, directories that list their children by identifier, and a
//! journal of textual operation records with single-step undo.
pub mod fs;
pub mod inode;
pub mod journal;
pub mod lemmas;
pub mod record;
pub mod text;

pub use fs::{FileSystem, UndoOutcome, WriteStatus};
pub use inode::{FileType, Inode};
pub use journal::{Journal, JournalEntry};
