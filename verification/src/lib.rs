//! A verified core for an interactive terminal content viewer: byte
//! content with efficient random line access, an incremental search and
//! filter engine, and the interaction state machine that drives the
//! viewport.  Terminal painting, file and process I/O, and the other
//! collaborators live outside this crate and talk to it in plain values.

#![allow(unused_imports)]

pub mod lines;
pub mod text;
pub mod compress;
pub mod changes;
pub mod buffer;
pub mod hex;
pub mod pattern;
pub mod search;
pub mod config;
pub mod keymap;
pub mod marks;
pub mod app_core;
pub mod input;
pub mod diff;
