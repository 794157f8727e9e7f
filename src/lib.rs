//! Keeps several named versions of one directory's contents and swaps which of
//! them is live in that directory.

pub mod cache;
pub mod cite;
pub mod locations;
pub mod paths;
pub mod save_manager;
pub mod swapper;
pub mod tabs;
pub mod wiki;
