//! Verified core of a Windows memory monitor: the arithmetic, text and
//! bookkeeping that turn raw system counters into the values a dashboard shows.

pub mod format;
pub mod history;
pub mod segments;
pub mod reader;
pub mod pagefile;
pub mod snapshot;
pub mod gpu;
