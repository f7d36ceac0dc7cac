//! A tiling window manager core: the data model for monitors, tags and
//! managed clients, the window lifecycle, the event dispatcher with its drag
//! interaction, and self-event suppression, all independent of the display
//! protocol behind the platform contract.

pub mod atom;
pub mod cli;
pub mod client;
pub mod config;
pub mod cursor;
pub mod events;
pub mod geometry;
pub mod keybind;
pub mod keyboard;
pub mod monitor;
pub mod platform;
pub mod sequence;
pub mod tag;
pub mod tagset;
pub mod util;
pub mod wm;
