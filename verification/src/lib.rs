//! The decisions of a daemon that watches USB HID devices and runs the action bound to
//! the device whose button was pressed.
//!
//! A press is attributed to a device ([`identity`], [`rawinput`], [`hid`]), classified
//! as a single or a double press ([`classifier`]), matched against the binding of the
//! device ([`config`]) and turned into an effect: a process to start or a chord of keys
//! to post ([`listener`], [`arguments`], [`hotkey`]). The commands of the front-end go
//! the same way ([`commands`]).
//!
//! Nothing here touches a device, a file, a window or a process. The caller does, and
//! passes in what it has read and what came of what it did.
pub mod arguments;
pub mod classifier;
pub mod commands;
pub mod config;
pub mod hid;
pub mod hotkey;
pub mod identity;
pub mod input_monitor;
pub mod listener;
pub mod rawinput;
pub mod text;
pub mod types;
