use vstd::prelude::*;

verus! {

/// Sizing that a widget asks for after preparing: the columns it needs at
/// least, so that bars of neighbouring widgets line up.
pub struct Constraints {
    pub min_width: Option<usize>,
}

} // verus!
