//! stilch: the window management of a tiling Wayland compositor with
//! virtual outputs, with its behaviour stated in contracts and proved.
pub mod ascii;
pub mod ascii_grid;
pub mod command;
pub mod config;
pub mod consistency;
pub mod cursor;
pub mod error;
pub mod event;
pub mod fullscreen;
pub mod geometry;
pub mod grabs;
pub mod input;
pub mod ipc;
pub mod keybindings;
pub mod redraw;
pub mod resize_state;
pub mod shell;
pub mod state;
pub mod tab_bar;
pub mod text;
pub mod validation;
pub mod validation_laws;
pub mod virtual_output;
pub mod window;
pub mod workspace;
pub mod xdg;
