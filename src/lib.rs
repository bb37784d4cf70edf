//! A desktop bookmark manager's core: the bookmark collection, its query
//! engine (filter and sort), the editing session of the list view, the add
//! form of the bar, and the decisions of the application's update loop.
//!
//! Rendering, file access and the window live outside this library; they hand
//! plain values in and act on the plain values that come back.

pub mod text;
pub mod utils;
pub mod storage;
pub mod bookmark_bar;
pub mod query;
pub mod bookmark_list;
pub mod state;
pub mod styles;
