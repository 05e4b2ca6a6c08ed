//! Verified core of clipImg: the rules that name, date, deduplicate and
//! publish clipboard captures, independent of the Win32 shell around them.

pub mod text;
pub mod civil;
pub mod logger;
pub mod config;
pub mod dib;
pub mod input;
pub mod droplist;
pub mod dialog;
pub mod digest;
pub mod clipboard;
pub mod capture;
pub mod migrate;
pub mod paste;
pub mod session;
