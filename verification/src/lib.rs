//! The logic of a Modbus toolbox: register formats, frames, the register
//! table served to or polled from a device, and the terminal screens over it.
pub mod args;
pub mod client;
pub mod clock;
pub mod control;
pub mod csv;
pub mod dialog;
pub mod entry;
pub mod export;
pub mod field;
pub mod format;
pub mod frame;
pub mod half;
pub mod keys;
pub mod laws;
pub mod layout;
pub mod listing;
pub mod menu;
pub mod message;
pub mod monitor;
pub mod motion;
pub mod numeral;
pub mod page;
pub mod panel;
pub mod profile;
pub mod round;
pub mod screens;
pub mod seek;
pub mod service;
pub mod setup;
pub mod simulator;
pub mod state;
pub mod status;
pub mod table;
pub mod text;
pub mod ui;
pub mod value;
pub mod words;
pub mod worker;
