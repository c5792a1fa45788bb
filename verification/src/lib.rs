//! BarePass: the verified core of a terminal password vault.
pub mod app;
pub mod calendar;
pub mod clipboard;
pub mod crypto;
pub mod form;
pub mod generator;
pub mod layout;
pub mod listing;
pub mod model;
pub mod paths;
pub mod password_analysis;
pub mod screen;
pub mod search;
pub mod session;
pub mod storage;
pub mod terminal;
pub mod text;
