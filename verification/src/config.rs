use vstd::prelude::*;

verus! {

/// The layer-shell layer the bar sits on.
#[derive(Clone, Copy, PartialEq, Eq, Structural, Debug)]
pub enum Layer {
    Background,
    Bottom,
    Top,
    Overlay,
}

/// The screen edge the bar is anchored to.
#[derive(Clone, Copy, PartialEq, Eq, Structural, Debug)]
pub enum LayerAnchor {
    Top,
    Bottom,
}

} // verus!
