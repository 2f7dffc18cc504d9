//! Verified core of a status-notifier tray bridge: it mirrors bus-exposed
//! tray items into native tray slots, translates remote menu descriptions
//! into native menus, and routes native UI events back to the bus side.

pub mod config;
pub mod filechooser;
pub mod framing;
pub mod icon;
pub mod indicator;
pub mod item;
pub mod labels;
pub mod menu;
pub mod menu_ids;
pub mod notifications;
pub mod registry;
pub mod slots;
mod text;
pub mod tray;
pub mod watcher;
pub mod wslpath;
