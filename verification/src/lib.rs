//! Core engine of a reading tracker for web novels: it turns raw window
//! titles into structured reading-progress signals, matches them against a
//! library of known novels, and decides when a recognized reading session is
//! committed as progress.
//!
//! The pipeline of one poll tick: [`state::select_title`] picks the tick's
//! candidate among the open window titles; [`title::sanitize`] and
//! [`title::tokenize`] turn it into trimmed segments;
//! [`recognition::extract_novel_data_from_title`] reads numbers and names
//! out of the segments; the [`db::NovelDb`] matcher resolves them to a known
//! novel; and [`state::reading_recognition`] decides whether to wait, commit
//! the progress update, or ask for suggestions, handing all side effects
//! back as [`state::Command`]s.

pub mod chapter_read;
pub mod db;
pub mod error;
pub mod extract;
pub mod history;
pub mod novel;
pub mod parser;
pub mod recognition;
pub mod settings;
pub mod state;
pub mod text;
pub mod title;
pub mod util;
