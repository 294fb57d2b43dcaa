//! The decision core of `jarvisd`, a personal, local-first assistant daemon.
//!
//! Everything here is a function from plain values to plain values: parsers for
//! files this process did not write, admission rules for devices and requests,
//! and the tables that turn failures into responses. Reading sockets, disks and
//! clocks is left to the program around the library.

pub mod api;
pub mod appbridge;
pub mod approvals;
pub mod apptool;
pub mod artifacts;
pub mod audit;
pub mod auth;
pub mod automations;
pub mod canonical;
pub mod cards;
pub mod cli;
pub mod config;
pub mod daemon;
pub mod deepdive;
pub mod deferred;
pub mod devices;
pub mod diagnostics;
pub mod digest;
pub mod display;
pub mod http;
pub mod identity;
pub mod ids;
pub mod light_targets;
pub mod lists;
pub mod maps;
pub mod media;
pub mod memories;
pub mod orchestrator_ports;
pub mod ordered;
pub mod pairing;
pub mod pmtiles;
pub mod policy_view;
pub mod problem;
pub mod runs;
pub mod sessions;
pub mod settings;
pub mod signing;
pub mod text;
pub mod text_map;
pub mod time;
