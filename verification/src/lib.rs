//! The verified controller side of a Cemuhook DSU server for the Flydigi Vader 5
//! Pro, with a place for Steam Controllers beside it.

pub mod args;
pub mod config;
pub mod controller;
pub mod device;
pub mod flydigi;
pub mod hid;
pub mod poll;
pub mod reader;
pub mod text;
pub mod triton;
pub mod ui;
