//! Goal tracking for the terminal: the goal tree, the interaction modes, the
//! key bindings, the theme layers, the plugin manager and the agent runs, as a
//! state machine over plain values.
//!
//! The library decides; it never touches a terminal, a database, a process or
//! the network. Where a decision needs one of these, the function returns what
//! has to be done, and a second function takes the outcome.

pub mod agents;
pub mod app;
pub mod backend;
pub mod buffers;
pub mod collections;
pub mod commands;
pub mod config;
pub mod db;
pub mod drawn;
pub mod events;
pub mod forms;
pub mod goals;
pub mod handlers;
pub mod help;
pub mod json;
pub mod keyboard;
pub mod keys;
pub mod manager;
pub mod pages;
pub mod plugin_ui;
pub mod plugins;
pub mod popups;
pub mod schema;
pub mod screen;
pub mod services;
pub mod settings;
pub mod sheets;
pub mod shown;
pub mod stats;
pub mod stored;
pub mod style;
pub mod sync;
pub mod text;
pub mod theme;
pub mod time;
pub mod tree;
pub mod types;
pub mod ui;
pub mod view;
pub mod zen;
