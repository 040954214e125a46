//! Verified core of a DMI icon toolkit.
//!
//! A DMI file is a PNG whose compressed text chunks carry named icon states.
//! This crate holds the logic of four operations on such files: stripping the
//! text metadata while preserving the image, building a fresh RGBA PNG from a
//! hex pixel stream, resizing, and extracting the ordered list of state names.
//! File handling stays with the caller: every function here works on bytes and
//! strings in memory.

pub mod builder;
pub mod error;
pub mod hexstream;
pub mod numbers;
pub mod png_io;
pub mod resize;
pub mod states;
pub mod textscan;
