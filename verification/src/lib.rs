//! A modular desktop launcher service: the messages it exchanges, how it chooses plugins and
//! orders their results, and the logic of its plugins.
pub mod protocol;

pub mod recent;
pub mod pattern;
pub mod plugin_config;
pub mod priority;
pub mod service;
pub mod text;
pub mod help;
pub mod cosmic_toplevel;
pub mod desktop_entries;
pub mod graphics;
pub mod search;
pub mod calc;
pub mod web;
pub mod browser;
pub mod scripts;
pub mod terminal;
pub mod pulse;
pub mod recent_files;
pub mod pop_shell;
pub mod manifest;
pub mod files;
pub mod file_order;
pub mod external;
