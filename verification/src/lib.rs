//! Directory Octopus: the verified core of a retro dual-pane file manager.
pub mod app;
pub mod button_bar;
pub mod commands;
pub mod config;
pub mod disk_info;
pub mod edit_popup;
pub mod file_ops;
pub mod grep;
pub mod panel;
pub mod paths;
pub mod popups;
pub mod search;
pub mod text;
pub mod theme;
