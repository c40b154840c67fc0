//! The stack layout: every window takes the whole area, one is visible.
use vstd::prelude::*;

verus! {

pub struct StackLayout;

impl StackLayout {
    pub fn new() -> (s: Self) {
        StackLayout
    }
}

impl Default for StackLayout {
    fn default() -> (s: Self) {
        StackLayout::new()
    }
}

/// Which windows a stack shows: only the one at `shown`.
pub fn stack_visibility(n: usize, shown: usize) -> (v: Vec<bool>)
    ensures
        v@.len() == n,
        forall|i: int| 0 <= i < n ==> (#[trigger] v@[i]) == (i == shown),
{
    let mut v: Vec<bool> = Vec::new();
    let mut i: usize = 0;
    while i < n
        invariant
            i <= n,
            v@.len() == i,
            forall|k: int| 0 <= k < i ==> (#[trigger] v@[k]) == (k == shown),
        decreases n - i,
    {
        v.push(i == shown);
        i = i + 1;
    }
    v
}

} // verus!
