//! Choosing the animation the panel edits: the animation shared by the
//! selected quads, sounds or layers, and the selector's buttons.
use vstd::prelude::*;

verus! {

/// The animation all selected items share: the first item's when the
/// selection is not empty and every item has the same, else none.
pub open spec fn common_anim_spec(anims: Seq<Option<usize>>) -> Option<usize> {
    if anims.len() > 0 && forall|i: int| 0 <= i < anims.len() ==> #[trigger] anims[i] == anims[0] {
        anims[0]
    } else {
        None
    }
}

/// Computes [`common_anim_spec`] for the animations of the selected items.
pub fn common_anim(anims: &Vec<Option<usize>>) -> (r: Option<usize>)
    ensures
        r == common_anim_spec(anims@),
{
    if anims.len() == 0 {
        return None;
    }
    let first = anims[0];
    let mut i: usize = 1;
    while i < anims.len()
        invariant
            1 <= i <= anims@.len(),
            first == anims@[0],
            forall|j: int| 0 <= j < i ==> #[trigger] anims@[j] == anims@[0],
        decreases anims@.len() - i,
    {
        let a = anims[i];
        let same = match (a, first) {
            (Some(x), Some(y)) => x == y,
            (None, None) => true,
            _ => false,
        };
        if !same {
            assert(anims@[i as int] != anims@[0]);
            return None;
        }
        i = i + 1;
    }
    first
}

/// A click on the animation selector.
#[derive(Clone, Copy, PartialEq, Eq, Debug, Structural)]
pub enum AnimSelectorClick {
    /// The "previous" arrow.
    Previous,
    /// The "next" arrow.
    Next,
    /// An entry of the drop-down list (`None`: "None").
    Pick(Option<usize>),
    /// The delete button of the selected animation.
    Delete,
}

/// The selector after a click: the selected animation, whether the animation
/// being edited (and its current point) is dropped, and whether the selected
/// animation is deleted. `count` is the number of animations.
pub open spec fn selector_step_spec(index: Option<usize>, count: usize, click: AnimSelectorClick) -> (
    Option<usize>,
    bool,
    bool,
) {
    match click {
        AnimSelectorClick::Previous => (
            match index {
                Some(i) => if i == 0 {
                    None
                } else {
                    Some((i - 1) as usize)
                },
                None => None,
            },
            true,
            false,
        ),
        AnimSelectorClick::Next => (
            match index {
                Some(i) => Some(if i + 1 <= count - 1 { (i + 1) as usize } else { (count - 1) as usize }),
                None => if count > 0 {
                    Some(0usize)
                } else {
                    None
                },
            },
            true,
            false,
        ),
        AnimSelectorClick::Pick(p) => (p, false, false),
        AnimSelectorClick::Delete => match index {
            Some(i) => if i < count {
                (Some(if i == 0 { 0usize } else { (i - 1) as usize }), true, true)
            } else {
                (index, false, false)
            },
            None => (index, false, false),
        },
    }
}

/// Handles a click on the animation selector; see [`selector_step_spec`].
pub fn selector_step(index: Option<usize>, count: usize, click: AnimSelectorClick) -> (r: (
    Option<usize>,
    bool,
    bool,
))
    requires
        click == AnimSelectorClick::Next ==> (index matches Some(i) ==> count > 0 && i < usize::MAX),
    ensures
        r == selector_step_spec(index, count, click),
{
    match click {
        AnimSelectorClick::Previous => {
            let n = match index {
                Some(i) => i.checked_sub(1),
                None => None,
            };
            (n, true, false)
        },
        AnimSelectorClick::Next => {
            let n = match index {
                Some(i) => {
                    let last = count - 1;
                    Some(if i + 1 <= last { i + 1 } else { last })
                },
                None => if count > 0 {
                    Some(0)
                } else {
                    None
                },
            };
            (n, true, false)
        },
        AnimSelectorClick::Pick(p) => (p, false, false),
        AnimSelectorClick::Delete => match index {
            Some(i) => if i < count {
                (Some(i.saturating_sub(1)), true, true)
            } else {
                (index, false, false)
            },
            None => (index, false, false),
        },
    }
}

/// The animation to (re)load for editing: the selected one, when it exists
/// and is not the one being edited already.
pub open spec fn anim_to_load_spec(selected: Option<usize>, count: usize, active: Option<usize>) -> Option<usize> {
    match selected {
        Some(i) => if i < count && active != Some(i) {
            Some(i)
        } else {
            None
        },
        None => None,
    }
}

/// Which animation must be loaded for editing, if any.
pub fn anim_to_load(selected: Option<usize>, count: usize, active: Option<usize>) -> (r: Option<usize>)
    ensures
        r == anim_to_load_spec(selected, count, active),
{
    match selected {
        Some(i) => {
            let loaded = match active {
                Some(a) => a == i,
                None => false,
            };
            if i < count && !loaded {
                Some(i)
            } else {
                None
            }
        },
        None => None,
    }
}

} // verus!
