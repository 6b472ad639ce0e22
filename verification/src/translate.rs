//! Layout translator: maps an intercepted (keycode, modifier state) pair to
//! the pair that the active keyboard mapping assigns to the same symbol.
//!
//! The lookup in the keyboard mapping is done by the caller in two steps:
//! first the keysym that the requested layout group gives the physical key,
//! then the keycode and modifier state under which the active mapping
//! produces that keysym. This module fixes what is asked in the first step
//! and decides what is delivered after the second.

use vstd::prelude::*;

verus! {

/// Smallest value that is no longer accepted as a resolved keycode or
/// modifier state. A lookup that yields this or more is treated as failed.
pub const TRANSLATION_LIMIT: u32 = 204;

/// The arguments of the forward lookup: the keysym of `keycode` in layout
/// group `group` at shift level `level`.
#[derive(Clone, Copy, Debug, PartialEq, Eq, Structural)]
pub struct KeysymQuery {
    pub keycode: u8,
    pub group: i32,
    pub level: i32,
}

/// The result of the backward lookup: the keycode and the modifier state
/// under which the active keyboard mapping produces a keysym.
#[derive(Clone, Copy, Debug, PartialEq, Eq, Structural)]
pub struct Resolved {
    pub keycode: u8,
    pub modifiers: u32,
}

/// Whether a backward lookup gave a deliverable keycode and modifier state.
pub open spec fn in_range(resolved: Resolved) -> bool {
    resolved.keycode < TRANSLATION_LIMIT && resolved.modifiers < TRANSLATION_LIMIT
}

/// The translated pair: the resolved one where it is in range, the event's own
/// one otherwise.
pub open spec fn translated(keycode: u8, state: u16, resolved: Resolved) -> (u8, u32) {
    if in_range(resolved) {
        (resolved.keycode, resolved.modifiers)
    } else {
        (keycode, state as u32)
    }
}

/// The group argument of the forward lookup for a layout index: the index
/// itself while it fits, its low 32 bits read as a signed number otherwise.
pub open spec fn group_of(layout: usize) -> i32 {
    layout as i32
}

/// Builds the forward lookup for a key event under the requested layout.
/// The modifier state of the event is passed as the shift level.
pub fn keysym_query(keycode: u8, state: u16, layout: usize) -> (query: KeysymQuery)
    ensures
        query.keycode == keycode,
        query.group == group_of(layout),
        query.level == state,
        layout <= i32::MAX ==> query.group == layout,
{
    KeysymQuery { keycode, group: layout as i32, level: state as i32 }
}

/// Decides what is delivered for a key event once both lookups are done.
///
/// An untranslatable key stays usable: whenever the resolved keycode or the
/// resolved modifier state is out of range, the event's own pair is returned.
pub fn translate(keycode: u8, state: u16, resolved: Resolved) -> (out: (u8, u32))
    ensures
        out == translated(keycode, state, resolved),
        !in_range(resolved) ==> out == (keycode, state as u32),
        in_range(resolved) ==> out == (resolved.keycode, resolved.modifiers),
        out.1 <= u16::MAX,
{
    if resolved.keycode as u32 >= TRANSLATION_LIMIT || resolved.modifiers >= TRANSLATION_LIMIT {
        (keycode, state as u32)
    } else {
        (resolved.keycode, resolved.modifiers)
    }
}

} // verus!
