//! Mganga's rules, verified: what may be toggled, how verdicts are reached,
//! which programs own which files, and how each change is recorded and undone.

pub mod text;
pub mod winpath;
pub mod clock;
pub mod guard;
pub mod actions;
pub mod autostart;
pub mod evidence;
pub mod judge;
pub mod usage;
pub mod sorting;
pub mod shield;
pub mod unblock;
pub mod proc_control;
pub mod audit;
pub mod settings;
pub mod updater;
pub mod commands;
pub mod broker;
pub mod processes;
pub mod installed;
