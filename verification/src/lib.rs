//! Verified core of a visual scene editor: console log handling, editor
//! state transitions, scene hierarchy rules and the small text helpers they
//! rely on.

use vstd::prelude::*;

pub mod assets;
pub mod components;
pub mod duplicate;
pub mod editor;
pub mod hierarchy;
pub mod log_layer;
pub mod scene_io;
pub mod text;
pub mod ui;

verus! {

} // verus!
