//! The core of a terminal downloader for `.onion` URLs over Tor: the
//! application state and its key and progress transitions (`app`), the
//! download engine's decisions (`downloader`), the proxy address (`tor`),
//! the settings merge (`config`), the display rules (`ui`), the wall clock
//! (`clock`) and the text helpers they share (`text`).
pub mod app;
pub mod clock;
pub mod config;
pub mod downloader;
pub mod error;
pub mod text;
pub mod tor;
pub mod ui;
