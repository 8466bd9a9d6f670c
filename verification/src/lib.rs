//! The background fetch-and-cache orchestrator behind a desktop
//! animal-adoption browser.  A frame-driven, never-blocking UI calls in once
//! per frame; this library decides, on every search and navigation, whether
//! cached data suffices or a remote fetch is owed, tracks the single search
//! that may be outstanding, deduplicates image decode work per photo
//! identifier, and discards stale completions of superseded work.  All
//! blocking work (network, decoding) runs in workers the caller spawns on the
//! library's instructions, reporting back through completions handed into
//! `poll`.

pub mod cache;
pub mod dispatch;
pub mod errors;
pub mod imaging;
pub mod pagination;
pub mod petfinder;
