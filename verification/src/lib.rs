//! A terminal LaTeX editor's core: the text buffer, the cursor, the undo
//! history, the editing commands and the parsing of build logs and
//! configuration.
pub mod text_model;
pub mod rope_api;
pub mod buffer;
pub mod cursor;
pub mod history;
pub mod text_util;
pub mod latex;
pub mod app;
pub mod keys;
pub mod background;
pub mod config;
pub mod spans;
pub mod screen;
pub mod highlight;
pub mod syntect_api;
