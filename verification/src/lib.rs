//! A CSS transition orchestrator: derives timing information for enter/leave
//! phases from computed-style strings and drives the phase state machine that
//! toggles transition class names on a single element.
//!
//! The library itself touches no browser API: callers read computed style and
//! hand the raw property strings to [`get_transition_info::get_transition_info`],
//! and run the DOM side effects that the phase driver asks for.

pub mod driver;
pub mod get_transition_info;
pub mod laws;
pub mod utils;

pub use get_transition_info::{get_transition_info, AnimationTypes, CSSTransitionInfo};
