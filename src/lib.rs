//! Runtime controllers of an animated-model viewer: the animation selection
//! state machine and the pointer-pick targeting pipeline, over plain values.

pub mod selection;
pub mod picking;
