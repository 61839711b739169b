//! The logic of klawply, a terminal agent that fills in job applications.

pub mod agent;
pub mod app;
pub mod auth;
pub mod b64;
pub mod browser;
pub mod clipboard;
pub mod codec;
pub mod config;
pub mod decimal;
pub mod event;
pub mod field_map;
pub mod fields;
pub mod json;
pub mod llm;
pub mod log;
pub mod selection;
pub mod terminal;
pub mod text;
pub mod theme;
pub mod ui;
pub mod utf8;
pub mod words;
