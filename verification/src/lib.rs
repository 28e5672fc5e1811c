//! A dynamic tiling window manager: the verified model of its workspaces,
//! focus stacks, layouts and key bindings.
pub mod command;
pub mod config;
pub mod keymap;
pub mod layout;
pub mod props;
pub mod wm;
pub mod wm_core;

pub use wm_core::mods;
