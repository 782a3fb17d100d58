//! Verified core of the nog tiling window manager: the layout graph of a
//! workspace, workspaces and their window manager, key bindings, the IPC
//! message format and the small parsers and formatters around them.

pub mod action;
pub mod bar;
pub mod client;
pub mod config;
pub mod constants;
pub mod display;
pub mod event;
pub mod direction;
pub mod modifiers;
pub mod notification;
pub mod platform;
pub mod protocol;
pub mod render;
pub mod render_laws;
pub mod server;
pub mod session;
pub mod session_laws;
pub mod state;
pub mod text;
pub mod window_event_loop;
pub mod window_manager;
pub mod workspace;
pub mod graph;
pub mod graph_laws;
pub mod delete_laws;
pub mod graph_text;
pub mod key;
pub mod key_laws;
pub mod menu;
pub mod key_combination;
pub mod keybinding;
pub mod keybinding_event_loop;
