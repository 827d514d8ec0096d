//! What an actor sends to the actor manager.

use vstd::prelude::*;

verus! {

/// A batch of items that one actor has generated, in the order in which it
/// generated them.
pub struct PushedItemMessage<T> {
    /// The identity of the actor that generated the items.
    pub id: usize,
    /// The items.
    pub pushed_items: Vec<T>,
}

} // verus!
