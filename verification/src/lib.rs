//! The decisions of a game launcher that keeps an installation up to date.
//!
//! The library reads the documents that a release server publishes, decides which files of an
//! installation are missing or damaged, and says what to fetch and where to put it. It performs no
//! input or output itself: what was found on disk or received from the network is handed in as a
//! value, and what is to be done comes back as a value.
pub mod address;
pub mod arguments;
pub mod assets;
pub mod checksum;
pub mod files;
pub mod json;
pub mod library;
pub mod progress;
pub mod release;
pub mod rules;
pub mod tasks;
pub mod text;
