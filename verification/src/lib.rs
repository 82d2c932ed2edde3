//! A terminal world clock: configuration, themes, the big-digit clock face,
//! the quit-confirmation state machine and the layout arithmetic, with their
//! contracts.
pub mod app;
pub mod config;
pub mod glyphs;
pub mod layout;
pub mod paths;
pub mod text;
pub mod theme;
