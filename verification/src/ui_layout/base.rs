//! Window identities and the index arithmetic the layouts share.
use vstd::prelude::*;

verus! {

#[derive(Debug, Clone, Copy, PartialEq, Eq, Hash, Structural)]
pub struct WindowId(pub usize);

#[derive(Debug, Clone, Copy, PartialEq, Eq, Structural)]
pub enum WindowType {
    Terminal,
    Floating,
}

/// Index of the first window with id `id`.
pub open spec fn index_of(ids: Seq<WindowId>, id: WindowId) -> Option<int>
    decreases ids.len(),
{
    if ids.len() == 0 {
        None
    } else if ids[0] == id {
        Some(0)
    } else {
        match index_of(ids.drop_first(), id) {
            Some(i) => Some(i + 1),
            None => None,
        }
    }
}

/// Position of window `id` in the list.
pub fn window_position(ids: &[WindowId], id: WindowId) -> (r: Option<usize>)
    ensures
        match r {
            Some(i) => index_of(ids@, id) == Some(i as int) && i < ids@.len(),
            None => index_of(ids@, id) is None,
        },
{
    let mut i: usize = 0;
    assert(ids@.skip(0) =~= ids@);
    while i < ids.len()
        invariant
            i <= ids@.len(),
            index_of(ids@, id) == match index_of(ids@.skip(i as int), id) {
                Some(k) => Some(k + i),
                None => None,
            },
        decreases ids@.len() - i,
    {
        if ids[i] == id {
            assert(ids@.skip(i as int)[0] == ids@[i as int]);
            return Some(i);
        }
        assert(ids@.skip(i as int).drop_first() =~= ids@.skip(i + 1));
        i = i + 1;
    }
    None
}

/// The window after index `i`, wrapping around.
pub fn next_index(i: usize, len: usize) -> (r: usize)
    requires
        i < len,
    ensures
        r == (i + 1) % (len as int),
{
    (i + 1) % len
}

/// The window before index `i`, wrapping around.
pub fn prev_index(i: usize, len: usize) -> (r: usize)
    requires
        i < len,
    ensures
        r == if i == 0 { len - 1 } else { i - 1 },
{
    if i == 0 {
        len - 1
    } else {
        i - 1
    }
}

/// Law: moving to the next window and then to the previous one comes back.
pub proof fn law_next_then_prev(i: int, len: int)
    requires
        0 <= i < len,
    ensures
        ({
            let n = (i + 1) % len;
            (if n == 0 { len - 1 } else { n - 1 }) == i
        }),
{
    if i + 1 < len {
        assert((i + 1) % len == i + 1) by {
            vstd::arithmetic::div_mod::lemma_small_mod((i + 1) as nat, len as nat);
        }
    } else {
        assert((i + 1) % len == 0) by {
            vstd::arithmetic::div_mod::lemma_mod_self_0(len);
        }
    }
}

} // verus!
