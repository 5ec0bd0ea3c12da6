//! Color sets and the legacy color mask.
//!
//! A color set is the ordered list of color ids that select one variant.
//! Two color sets are the same when they hold the same ids in the same
//! order. The older way to name colors is a mask of 256 flags, one per
//! color id; it is turned into a color set by listing the positions of the
//! raised flags in ascending order.

use vstd::prelude::*;

verus! {

/// Number of flags in a legacy color mask.
pub const MASK_LEN: usize = 256;

/// The color set that the first `n` flags of `mask` stand for.
pub open spec fn mask_colors_upto(mask: Seq<bool>, n: int) -> Seq<i32>
    decreases n,
{
    if n <= 0 {
        Seq::empty()
    } else if mask[n - 1] {
        mask_colors_upto(mask, n - 1).push((n - 1) as i32)
    } else {
        mask_colors_upto(mask, n - 1)
    }
}

/// The color set that a legacy mask stands for: the positions of its raised
/// flags, ascending.
pub open spec fn mask_colors(mask: Seq<bool>) -> Seq<i32> {
    mask_colors_upto(mask, mask.len() as int)
}

/// The colors of the first `n` flags are exactly the positions below `n`
/// whose flag is raised, each once and in ascending order.
pub proof fn lemma_mask_colors_upto(mask: Seq<bool>, n: int)
    requires
        0 <= n <= mask.len() <= i32::MAX,
    ensures
        mask_colors_upto(mask, n).len() <= n,
        forall|k: int|
            0 <= k < mask_colors_upto(mask, n).len() ==> 0 <= #[trigger] mask_colors_upto(
                mask,
                n,
            )[k] < n && mask[mask_colors_upto(mask, n)[k] as int],
        forall|i: int|
            0 <= i < n && mask[i] ==> #[trigger] mask_colors_upto(mask, n).contains(i as i32),
        forall|j: int, k: int|
            0 <= j < k < mask_colors_upto(mask, n).len() ==> mask_colors_upto(mask, n)[j]
                < mask_colors_upto(mask, n)[k],
    decreases n,
{
    if n > 0 {
        lemma_mask_colors_upto(mask, n - 1);
        let prev = mask_colors_upto(mask, n - 1);
        let cur = mask_colors_upto(mask, n);
        if mask[n - 1] {
            assert(cur == prev.push((n - 1) as i32));
            assert(cur[prev.len() as int] == (n - 1) as i32);
            assert forall|i: int| 0 <= i < n && mask[i] implies #[trigger] cur.contains(
                i as i32,
            ) by {
                if i < n - 1 {
                    assert(prev.contains(i as i32));
                    let k = choose|k: int| 0 <= k < prev.len() && prev[k] == i as i32;
                    assert(cur[k] == i as i32);
                } else {
                    assert(cur[prev.len() as int] == i as i32);
                }
            }
        } else {
            assert(cur == prev);
        }
    }
}

/// A legacy mask names color `id` exactly when the flag at position `id` is
/// raised, and its color set is strictly ascending.
pub proof fn lemma_mask_colors(mask: Seq<bool>)
    requires
        mask.len() <= i32::MAX,
    ensures
        forall|id: i32|
            #[trigger] mask_colors(mask).contains(id) <==> (0 <= id < mask.len()
                && mask[id as int]),
        forall|j: int, k: int|
            0 <= j < k < mask_colors(mask).len() ==> mask_colors(mask)[j] < mask_colors(mask)[k],
{
    lemma_mask_colors_upto(mask, mask.len() as int);
    let colors = mask_colors(mask);
    assert forall|id: i32| #[trigger] colors.contains(id) <==> (0 <= id < mask.len()
        && mask[id as int]) by {
        if colors.contains(id) {
            let k = choose|k: int| 0 <= k < colors.len() && colors[k] == id;
            assert(0 <= colors[k] < mask.len() && mask[colors[k] as int]);
        }
        if 0 <= id < mask.len() && mask[id as int] {
            assert(colors.contains((id as int) as i32));
        }
    }
}

/// Whether a color set holds `id`.
pub fn contains(colors: &Vec<i32>, id: i32) -> (found: bool)
    ensures
        found == colors@.contains(id),
{
    let mut i: usize = 0;
    while i < colors.len()
        invariant
            i <= colors.len(),
            forall|j: int| 0 <= j < i ==> colors@[j] != id,
        decreases colors.len() - i,
    {
        if colors[i] == id {
            return true;
        }
        i += 1;
    }
    false
}

/// Whether two color sets hold the same ids in the same order.
pub fn same_colors(a: &Vec<i32>, b: &Vec<i32>) -> (same: bool)
    ensures
        same == (a@ == b@),
{
    if a.len() != b.len() {
        return false;
    }
    let mut i: usize = 0;
    while i < a.len()
        invariant
            i <= a.len(),
            a.len() == b.len(),
            forall|j: int| 0 <= j < i ==> a@[j] == b@[j],
        decreases a.len() - i,
    {
        if a[i] != b[i] {
            return false;
        }
        i += 1;
    }
    assert(a@ =~= b@);
    true
}

/// Turns a legacy mask into the color set it stands for.
pub fn colors_of_mask(mask: &[bool; 256]) -> (colors: Vec<i32>)
    ensures
        colors@ == mask_colors(mask@),
{
    let mut colors: Vec<i32> = Vec::new();
    let mut i: usize = 0;
    while i < MASK_LEN
        invariant
            i <= MASK_LEN,
            mask@.len() == MASK_LEN,
            colors@ == mask_colors_upto(mask@, i as int),
        decreases MASK_LEN - i,
    {
        if mask[i] {
            colors.push(i as i32);
        }
        i += 1;
    }
    colors
}

} // verus!
