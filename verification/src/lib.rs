//! Verified core of an audio player daemon.
//!
//! The decisions that the player takes are made here, on plain values, and are
//! proved against the contracts of the functions that take them. Sockets,
//! threads, sound devices and floating-point signal processing belong to the
//! program around the library.

pub mod api;
pub mod audio;
pub mod cli;
pub mod command;
pub mod control;
pub mod event;
pub mod ipc;
pub mod state;
pub mod text;
