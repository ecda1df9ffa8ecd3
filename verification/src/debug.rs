//! The debug overlay and the window resolution presets.
use vstd::prelude::*;

verus! {

/// Whether debug elements are drawn.
#[derive(Debug, Clone, Copy, PartialEq, Eq)]
pub enum DisplayVisibility {
    Visible,
    Hidden,
}

/// Whether the debug display is on after an update in which the toggle key
/// was or was not pressed.
pub open spec fn spec_toggle_debug_display(show: bool, toggle_just_pressed: bool) -> bool {
    if toggle_just_pressed {
        !show
    } else {
        show
    }
}

/// The debug display after one update: pressing the toggle key flips it.
pub fn toggle_debug_display(show: bool, toggle_just_pressed: bool) -> (shown: bool)
    ensures
        shown == spec_toggle_debug_display(show, toggle_just_pressed),
        !toggle_just_pressed ==> shown == show,
        toggle_just_pressed ==> shown == !show,
{
    if toggle_just_pressed {
        !show
    } else {
        show
    }
}

/// The visibility of the debug elements: visible exactly while the debug
/// display is on.
pub fn debug_visibility(show: bool) -> (visibility: DisplayVisibility)
    ensures
        visibility == (if show { DisplayVisibility::Visible } else { DisplayVisibility::Hidden }),
{
    if show {
        DisplayVisibility::Visible
    } else {
        DisplayVisibility::Hidden
    }
}

/// Without the toggle key the debug display stays as it was; with it, the
/// display flips.
pub proof fn lemma_toggle_only_with_key(show: bool)
    ensures
        spec_toggle_debug_display(show, false) == show,
        spec_toggle_debug_display(show, true) != show,
{
}

/// Pressing the toggle key twice brings the debug display back to where it
/// was.
pub proof fn lemma_toggle_twice_restores(show: bool)
    ensures
        spec_toggle_debug_display(spec_toggle_debug_display(show, true), true) == show,
{
}

/// The window resolutions the player can switch to.
#[derive(Debug, Clone, Copy, PartialEq, Eq)]
pub enum ResolutionPreset {
    Small,
    Medium,
    Large,
}

/// The resolutions requested this update, in the order they are applied:
/// small for the first number key, medium for the second, large for the
/// third.
pub fn resolution_requests(first: bool, second: bool, third: bool) -> (requests: Vec<ResolutionPreset>)
    ensures
        requests@ == (if first { seq![ResolutionPreset::Small] } else { Seq::<ResolutionPreset>::empty() })
            + (if second { seq![ResolutionPreset::Medium] } else { Seq::<ResolutionPreset>::empty() })
            + (if third { seq![ResolutionPreset::Large] } else { Seq::<ResolutionPreset>::empty() }),
{
    let mut requests: Vec<ResolutionPreset> = Vec::new();
    if first {
        requests.push(ResolutionPreset::Small);
    }
    if second {
        requests.push(ResolutionPreset::Medium);
    }
    if third {
        requests.push(ResolutionPreset::Large);
    }
    assert(requests@ =~= (if first { seq![ResolutionPreset::Small] } else { Seq::<ResolutionPreset>::empty() })
        + (if second { seq![ResolutionPreset::Medium] } else { Seq::<ResolutionPreset>::empty() })
        + (if third { seq![ResolutionPreset::Large] } else { Seq::<ResolutionPreset>::empty() }));
    requests
}

} // verus!
