//! The demo-script format: what a script records, what it targets, and how
//! a step points at something on screen.

use vstd::prelude::*;

verus! {

/// What a demo script drives: a page in a browser, or a desktop application
/// identified by its name or window title.
#[derive(Debug, Clone)]
pub enum Target {
    Browser { url: String },
    Desktop { app: Option<String>, window_title: Option<String> },
}

/// The browser viewport size a script is authored for.
#[derive(Debug, Clone, Copy, PartialEq, Eq, Structural)]
pub struct Viewport {
    pub width: u32,
    pub height: u32,
}

/// Default pacing for a script's steps.
#[derive(Debug, Clone)]
pub struct Defaults {
    pub move_ms: Option<u32>,
    pub settle_ms: Option<u32>,
    pub easing: Option<String>,
}

/// What a step acts on: a CSS selector, a screen coordinate, or a reference
/// image to find on screen.
#[derive(Debug, Clone)]
pub enum StepTarget {
    Selector(String),
    Coord { x: i32, y: i32 },
    ImageAnchor(String),
}

} // verus!
