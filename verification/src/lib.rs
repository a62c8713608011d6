//! Preview generation and rendering core of a terminal image viewer.
//!
//! The crate turns image files into terminal output, either as ANSI text or
//! as pixel graphics sent through a terminal graphics protocol, caches the
//! results, and drives a slideshow with animated transitions.  Everything
//! here is pure: reading files, running converter programs and drawing are
//! left to the caller, who hands in plain values and gets plain values back.
use vstd::prelude::*;

pub mod cache;
pub mod config;
pub mod controls;
pub mod converter;
pub mod fast_image_loader;
pub mod file_browser;
pub mod graphics;
pub mod pixel_buffer;
pub mod preview;
pub mod slideshow;
pub mod strings;
pub mod text;
pub mod transitions;
pub mod ui;
pub mod viuer_protocol;

verus! {

} // verus!

