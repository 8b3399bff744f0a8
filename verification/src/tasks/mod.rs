//! What the tasks of the radio decide: input gestures, commands, the periodic
//! refresh, what is kept with a preset, and following alternative frequencies.

pub mod af_probe;
pub mod command;
pub mod controllers;
pub mod input;
pub mod preset_meta;
pub mod refresh;
