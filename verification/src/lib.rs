//! A verified menu/UI engine for an interactive application.
//!
//! The crate models one menu screen as a serializable document (a tree of
//! widget descriptions), renders it into a live widget tree bound to a
//! persistent widget-state store, routes keyboard and pointer events to the
//! focused widget, and drives stack-based navigation between named screens.
//! A trivia-category data source with an asynchronous fetch state machine
//! backs the dropdown widgets.

use vstd::prelude::*;

pub mod document;
pub mod trivia_source;
pub mod assets;
pub mod codec;
pub mod focus;
pub mod form;
pub mod navigation;
pub mod render;
pub mod store;
pub mod text_input;

verus! {

/// Holds exactly when the flag is unset; the serializer uses it to decide
/// whether an optional boolean field is at its default and may be omitted.
pub fn is_false(value: &bool) -> (r: bool)
    ensures
        r == !*value,
{
    !*value
}

} // verus!
