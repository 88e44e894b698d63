//! A terminal navigation and menu engine with a scripted-replay harness.
//!
//! The library drives interactive text menus while also letting a program
//! feed pre-recorded command sequences that simulate user keystrokes. The
//! core is the navigation context and command resolution engine: it decides,
//! for every prompt, whether the next input comes from a live user or from a
//! pending scripted queue, how queued entries encode display and pause
//! behaviour, how a scripted entry can be confirmed or overridden
//! interactively, and how the generic option-menu loop is driven by the
//! resolved command.
//!
//! Reading from a real terminal and writing to a real output stream are the
//! caller's business. The library models them as plain values: input is a
//! slice of pending lines (`feed`) consumed from a position (`pos`) onward,
//! and output is a vector of lines that the caller prints. When a blocking
//! read would occur past the end of the feed, a function returns
//! [`context::NavError::NeedInput`] without changing the context, so the
//! caller can read one more line and call again.

pub mod context;
pub mod laws;
pub mod menu;
pub mod text;
