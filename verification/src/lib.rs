//! A verified core for a clipboard-history recorder: it classifies captured
//! clipboard text, deduplicates repeated captures, keeps an append-only
//! history that can be queried by id, recency, substring and time range, and
//! projects stored records into a transport form with a compressed image
//! preview.

pub mod classify;
pub mod clipboard;
pub mod db;
pub mod history;
pub mod models;

pub use classify::TextClassification;
pub use clipboard::{CapturedItem, ContentHash, Watcher};
pub use db::HistoryStore;
pub use history::WriteAction;
pub use models::{ClipboardItem, ClipboardItemRow, NewClipboardItem};
