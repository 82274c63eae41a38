//! Finds image files under a directory tree and plans their copy into year and month folders.

pub mod args;
pub mod calendar;
pub mod replicate;
pub mod scan;
pub mod text;
pub mod transfer;
