//! Decision logic of the swaypplet desktop shell.
//!
//! Every rule the shell lives by (when the fingerprint reader may be claimed,
//! which login request is sent next, what a bar segment shows) is a function
//! here from plain values to plain values, with a contract. Sockets, D-Bus,
//! timers and widgets stay with the caller.

pub mod alpha;
pub mod anim;
pub mod app;
pub mod audio;
pub mod auth_field;
pub mod avatar;
pub mod backup;
pub mod bar;
pub mod clipboard;
pub mod dmenu;
pub mod elephant;
pub mod face;
pub mod face_ring;
pub mod face_ui;
pub mod fp;
pub mod fp_agent;
pub mod glass_demo;
pub mod greet;
pub mod handoff;
pub mod icons;
pub mod order;
pub mod sway_ipc;
pub mod task_state;
pub mod text;
