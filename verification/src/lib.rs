//! The verified core of an HTTP debugging proxy with a terminal view.
pub mod ai;
pub mod ansi;
pub mod assistant;
pub mod bodies;
pub mod colors;
pub mod commands;
pub mod config;
pub mod filters;
pub mod highlight;
pub mod logcat;
pub mod limiter;
pub mod logger;
pub mod messages;
pub mod panels;
pub mod proxy;
pub mod requests;
pub mod routes;
pub mod scenes;
pub mod state;
pub mod text;
pub mod tui;
pub mod viewer;
