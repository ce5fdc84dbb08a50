//! Quick Translate: the decisions of a pop-up translation tool, verified.
pub mod cli;
pub mod clipboard;
pub mod config;
pub mod instance;
pub mod json;
pub mod lang;
pub mod popup;
pub mod text;
pub mod translator;
pub mod tray;
