//! The decision logic of a single-window desktop shell.
//!
//! The shell hosts a web front end in one native window, keeps a single
//! running instance, forwards `mentem://` links that reach a second launch to
//! the running one, and answers a handful of filesystem commands from the
//! front end. Everything that the shell decides is in this crate, as functions
//! from plain values to plain values with a proved contract; the windowing
//! framework and the operating system are driven by the caller.
//!
//! - [`deep_link`]: which launch arguments are deep links.
//! - [`instance`]: what the running instance does when a second launch is
//!   reported to it.
//! - [`commands`]: the filesystem commands, as the steps to perform and the
//!   reply to give for each outcome.

pub mod commands;
pub mod deep_link;
pub mod instance;
