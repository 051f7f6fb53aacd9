//! A clipboard history daemon's core: a bounded, deduplicating history store,
//! the text framing of its on-disk log, the command dispatch of its main loop,
//! and the entry classification and context actions of its front end.

pub mod codec;
pub mod config;
pub mod context;
pub mod daemon;
pub mod entries;
pub mod error;
pub mod listing;
pub mod ordered_map;
pub mod store;
pub mod text;
pub mod ui_config;
pub mod utils;
