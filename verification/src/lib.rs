//! The logic of lan-cat: clipboard synchronisation, input sharing and file
//! transfer between paired devices on a local network.

pub mod bytes;
pub mod clipboard;
pub mod config;
pub mod daemon;
pub mod float;
pub mod foreign;
pub mod gui;
pub mod idmap;
pub mod input;
pub mod integration;
pub mod ipc;
pub mod network;
pub mod ordering;
pub mod path;
pub mod protocol;
pub mod service;
pub mod strmap;
pub mod text;
pub mod transfer;
