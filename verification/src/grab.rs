//! Grab installer: widens the event mask of each target window, installs a
//! passive grab on it and records the mask under which events are later
//! delivered back.
//!
//! The requests go to the server, so the installer is a machine that the
//! caller drives: it names the next request, the caller performs it and
//! reports what came back.

use crate::resolver::TargetSet;
use std::collections::HashMap;
use vstd::prelude::*;
use x11rb::protocol::xproto::EventMask;

verus! {

broadcast use vstd::std_specs::hash::group_hash_axioms;

/// The event-mask bit of key presses.
pub const KEY_PRESS: u32 = 1;

/// The event-mask bit of key releases.
pub const KEY_RELEASE: u32 = 2;

/// Both key bits.
pub const KEY_EVENTS: u32 = 3;

/// The modifier mask of a grab that holds under any modifiers.
pub const ANY_MODIFIER: u16 = 32768;

/// The key of a grab that holds for every key.
pub const ANY_KEY: u8 = 0;

/// Whether `mask` has every bit of `part`.
pub open spec fn includes(mask: u32, part: u32) -> bool {
    mask & part == part
}

/// The mask that is selected on a window: what it had, and both key bits.
pub open spec fn widened(mask: u32) -> u32 {
    mask | KEY_EVENTS
}

/// The mask under which events are delivered back to a window: what the
/// server reports after the grab, and everything that was selected.
pub open spec fn delivered(before: u32, effective: u32) -> u32 {
    effective | widened(before)
}

/// How a grab treats the other input devices while it is active.
#[derive(Clone, Copy, Debug, PartialEq, Eq, Structural)]
pub enum GrabMode {
    /// Event processing is frozen until the grabbing client lets go.
    Sync,
    /// Event processing goes on.
    Async,
}

/// The arguments of a passive key grab.
#[derive(Clone, Copy, Debug, PartialEq, Eq, Structural)]
pub struct GrabRequest {
    pub owner_events: bool,
    pub window: u32,
    pub modifiers: u16,
    pub key: u8,
    pub pointer_mode: GrabMode,
    pub keyboard_mode: GrabMode,
}

/// The grab that is installed on a target window: any key under any
/// modifiers, reported to the grab window only, with both devices left
/// running so that no other client stalls.
pub open spec fn grab_for(window: u32) -> GrabRequest {
    GrabRequest {
        owner_events: false,
        window,
        modifiers: ANY_MODIFIER,
        key: ANY_KEY,
        pointer_mode: GrabMode::Async,
        keyboard_mode: GrabMode::Async,
    }
}

/// The masks of one window: the one read before the grab was installed and
/// the one used for delivery.
#[derive(Clone, Copy, Debug, PartialEq, Eq, Structural)]
pub struct MaskEntry {
    pub initial: u32,
    pub delivery: u32,
}

/// Whether the delivery mask keeps every bit that the window had and holds
/// both key bits.
pub open spec fn entry_sound(entry: MaskEntry) -> bool {
    &&& includes(entry.delivery, entry.initial)
    &&& includes(entry.delivery, KEY_PRESS)
    &&& includes(entry.delivery, KEY_RELEASE)
}

/// Whether every entry of a table is sound.
pub open spec fn sound(table: Map<u32, MaskEntry>) -> bool {
    forall|w: u32| table.contains_key(w) ==> entry_sound(#[trigger] table[w])
}

/// Adds both key bits to a mask with `x11rb::protocol::xproto::EventMask`:
/// `KEY_PRESS` and `KEY_RELEASE`, joined by its `|` and turned back into a
/// number.
///
/// Trusted: the two constants are the bits 1 and 2, and `|` on an
/// `EventMask` is `|` on the numbers.
#[verifier::external_body]
fn with_key_bits(mask: u32) -> (out: u32)
    ensures
        out == widened(mask),
{
    u32::from(mask | EventMask::KEY_PRESS | EventMask::KEY_RELEASE)
}

/// The event mask to select on a window whose mask was `mask`: no bit is
/// cleared, both key bits are set.
pub fn key_event_mask(mask: u32) -> (out: u32)
    ensures
        out == widened(mask),
        includes(out, mask),
        includes(out, KEY_PRESS),
        includes(out, KEY_RELEASE),
{
    let out = with_key_bits(mask);
    assert(includes(mask | 3u32, mask) && includes(mask | 3u32, 1u32) && includes(mask | 3u32, 2u32))
        by (bit_vector);
    out
}

/// The delivery mask of a window whose mask was `before` and is reported as
/// `effective` once the grab is installed.
pub fn delivery_mask(before: u32, effective: u32) -> (out: u32)
    ensures
        out == delivered(before, effective),
        includes(out, before),
        includes(out, effective),
        includes(out, KEY_PRESS),
        includes(out, KEY_RELEASE),
{
    let out = effective | key_event_mask(before);
    assert({
        let m = effective | (before | 3u32);
        includes(m, before) && includes(m, effective) && includes(m, 1u32) && includes(m, 2u32)
    }) by (bit_vector);
    out
}

/// The delivery masks of the windows on which a grab is installed.
#[derive(Debug)]
pub struct MaskTable {
    masks: HashMap<u32, MaskEntry>,
}

impl View for MaskTable {
    type V = Map<u32, MaskEntry>;

    closed spec fn view(&self) -> Map<u32, MaskEntry> {
        self.masks@
    }
}

impl MaskTable {
    #[verifier::type_invariant]
    spec fn inv(&self) -> bool {
        sound(self@) && self@.dom().finite()
    }

    /// A table without windows.
    pub fn new() -> (table: MaskTable)
        ensures
            table@ == Map::<u32, MaskEntry>::empty(),
            sound(table@),
    {
        MaskTable { masks: HashMap::new() }
    }

    /// The table with one more window: its mask as read before the grab was
    /// installed, and the mask that the server reports afterwards. An
    /// earlier entry of the window is replaced.
    pub fn record(self, window: u32, before: u32, effective: u32) -> (table: MaskTable)
        ensures
            table@ == self@.insert(
                window,
                MaskEntry { initial: before, delivery: delivered(before, effective) },
            ),
            sound(table@),
    {
        proof {
            use_type_invariant(&self);
        }
        let entry = MaskEntry { initial: before, delivery: delivery_mask(before, effective) };
        let mut masks = self.masks;
        masks.insert(window, entry);
        MaskTable { masks }
    }

    /// The masks of a window, if it is in the table.
    pub fn entry(&self, window: u32) -> (found: Option<MaskEntry>)
        ensures
            found == (if self@.contains_key(window) {
                Some(self@[window])
            } else {
                None
            }),
            found matches Some(e) ==> entry_sound(e),
    {
        proof {
            use_type_invariant(self);
        }
        match self.masks.get(&window) {
            Some(e) => Some(*e),
            None => None,
        }
    }

    /// The delivery mask of a window, if it is in the table.
    pub fn delivery(&self, window: u32) -> (mask: Option<u32>)
        ensures
            mask == (if self@.contains_key(window) {
                Some(self@[window].delivery)
            } else {
                None
            }),
            mask matches Some(m) ==> includes(m, KEY_PRESS) && includes(m, KEY_RELEASE),
    {
        match self.entry(window) {
            Some(e) => Some(e.delivery),
            None => None,
        }
    }

    /// Whether a window is in the table.
    pub fn contains(&self, window: u32) -> (found: bool)
        ensures
            found == self@.contains_key(window),
    {
        self.masks.contains_key(&window)
    }

    /// The number of windows in the table.
    pub fn len(&self) -> (n: usize)
        ensures
            n == self@.len(),
    {
        self.masks.len()
    }
}

/// What the installer is waiting for.
#[derive(Clone, Copy, Debug, PartialEq, Eq, Structural)]
pub enum Phase {
    /// The event mask of the window in work.
    Reading,
    /// The word that the widened mask is selected and the grab installed.
    Installing { before: u32 },
    /// The event mask of the window as the server reports it now.
    Confirming { before: u32 },
    /// Nothing: every target window is dealt with.
    Finished,
    /// Nothing: the only target window is gone.
    Aborted,
}

/// The request that the caller is to perform next.
#[derive(Clone, Copy, Debug, PartialEq, Eq, Structural)]
pub enum GrabAction {
    /// Read the event mask that this client has selected on the window.
    ReadMask { window: u32 },
    /// Select `event_mask` on the window, install `grab`, and flush.
    Install { window: u32, event_mask: u32, grab: GrabRequest },
    /// Read the event mask of the window once more.
    ReadBack { window: u32 },
    /// Go on to the event loop.
    Finish,
    /// Give up: the window is gone and there is no other.
    Abort { window: u32 },
}

/// What came back from the server.
#[derive(Clone, Copy, Debug, PartialEq, Eq, Structural)]
pub enum GrabEvent {
    /// The event mask that was read.
    Mask(u32),
    /// The mask is selected and the grab installed.
    Installed,
    /// The window does not exist any more.
    Vanished,
}

/// The state of the installer.
#[derive(Debug)]
pub struct GrabInstaller {
    targets: Vec<u32>,
    skip_vanished: bool,
    index: usize,
    phase: Phase,
    table: MaskTable,
    skipped: Vec<u32>,
}

/// The mathematical content of a [`GrabInstaller`].
pub struct InstallerView {
    /// The target windows in order.
    pub targets: Seq<u32>,
    /// Whether a window that is gone is passed over rather than fatal.
    pub skip_vanished: bool,
    /// The position of the window in work.
    pub index: nat,
    pub phase: Phase,
    /// The masks of the windows that are done.
    pub table: Map<u32, MaskEntry>,
    /// The windows that were passed over, each owed a warning.
    pub skipped: Seq<u32>,
}

impl View for GrabInstaller {
    type V = InstallerView;

    closed spec fn view(&self) -> InstallerView {
        InstallerView {
            targets: self.targets@,
            skip_vanished: self.skip_vanished,
            index: self.index as nat,
            phase: self.phase,
            table: self.table@,
            skipped: self.skipped@,
        }
    }
}

impl InstallerView {
    /// The window in work.
    pub open spec fn window(self) -> u32 {
        self.targets[self.index as int]
    }

    /// Whether the installer waits for the server.
    pub open spec fn active(self) -> bool {
        self.phase != Phase::Finished && self.phase != Phase::Aborted
    }

    /// The phase in which work on the window at `index` begins.
    pub open spec fn phase_at(self, index: nat) -> Phase {
        if index < self.targets.len() {
            Phase::Reading
        } else {
            Phase::Finished
        }
    }

    /// Whether every window before the one in work is in the table or
    /// among those passed over.
    pub open spec fn accounted(self) -> bool {
        forall|i: int|
            0 <= i < self.index ==> self.table.contains_key(#[trigger] self.targets[i])
                || self.skipped.contains(self.targets[i])
    }

    /// The invariant of the installer.
    pub open spec fn well_formed(self) -> bool {
        &&& self.index <= self.targets.len()
        &&& self.phase != Phase::Finished ==> self.index < self.targets.len()
        &&& self.phase == Phase::Finished ==> self.index == self.targets.len()
        &&& self.phase == Phase::Aborted ==> !self.skip_vanished
        &&& sound(self.table)
        &&& self.accounted()
    }
}

/// The installer before its first request.
pub open spec fn installer_for(targets: Seq<u32>, all_windows: bool) -> InstallerView {
    InstallerView {
        targets,
        skip_vanished: all_windows,
        index: 0,
        phase: if targets.len() > 0 {
            Phase::Reading
        } else {
            Phase::Finished
        },
        table: Map::empty(),
        skipped: Seq::empty(),
    }
}

/// The request that a state asks for.
pub open spec fn action_of(state: InstallerView) -> GrabAction {
    match state.phase {
        Phase::Reading => GrabAction::ReadMask { window: state.window() },
        Phase::Installing { before } => GrabAction::Install {
            window: state.window(),
            event_mask: widened(before),
            grab: grab_for(state.window()),
        },
        Phase::Confirming { before } => GrabAction::ReadBack { window: state.window() },
        Phase::Finished => GrabAction::Finish,
        Phase::Aborted => GrabAction::Abort { window: state.window() },
    }
}

/// The state after the window in work turned out to be gone: with several
/// windows wanted it is passed over, with one wanted the run is given up.
pub open spec fn after_vanished(state: InstallerView) -> InstallerView {
    if state.skip_vanished {
        InstallerView {
            index: state.index + 1,
            phase: state.phase_at(state.index + 1),
            skipped: state.skipped.push(state.window()),
            ..state
        }
    } else {
        InstallerView { phase: Phase::Aborted, ..state }
    }
}

/// The state after an answer of the server. An answer that the state did
/// not ask for changes nothing.
pub open spec fn stepped(state: InstallerView, event: GrabEvent) -> InstallerView {
    match (state.phase, event) {
        (Phase::Reading, GrabEvent::Mask(mask)) => InstallerView {
            phase: Phase::Installing { before: mask },
            ..state
        },
        (Phase::Installing { before }, GrabEvent::Installed) => InstallerView {
            phase: Phase::Confirming { before },
            ..state
        },
        (Phase::Confirming { before }, GrabEvent::Mask(mask)) => InstallerView {
            index: state.index + 1,
            phase: state.phase_at(state.index + 1),
            table: state.table.insert(
                state.window(),
                MaskEntry { initial: before, delivery: delivered(before, mask) },
            ),
            ..state
        },
        (Phase::Reading, GrabEvent::Vanished) => after_vanished(state),
        (Phase::Installing { before }, GrabEvent::Vanished) => after_vanished(state),
        (Phase::Confirming { before }, GrabEvent::Vanished) => after_vanished(state),
        _ => state,
    }
}

/// A step keeps the invariant of the installer.
pub proof fn lemma_stepped_well_formed(state: InstallerView, event: GrabEvent)
    requires
        state.well_formed(),
    ensures
        stepped(state, event).well_formed(),
{
    let next = stepped(state, event);
    if next != state {
        assert forall|i: int| 0 <= i < next.index implies next.table.contains_key(
            #[trigger] next.targets[i],
        ) || next.skipped.contains(next.targets[i]) by {
            if i < state.index {
                assert(state.table.contains_key(state.targets[i]) || state.skipped.contains(
                    state.targets[i],
                ));
                if state.skipped.contains(state.targets[i]) {
                    let k = choose|k: int|
                        0 <= k < state.skipped.len() && state.skipped[k] == state.targets[i];
                    if next.skipped != state.skipped {
                        assert(next.skipped[k] == state.targets[i]);
                    }
                }
            } else if next.skipped != state.skipped {
                assert(next.skipped[state.skipped.len() as int] == state.window());
            }
        }
        if let (Phase::Confirming { before }, GrabEvent::Mask(mask)) = (state.phase, event) {
            assert(includes(mask | (before | 3u32), before) && includes(
                mask | (before | 3u32),
                1u32,
            ) && includes(mask | (before | 3u32), 2u32)) by (bit_vector);
        }
    }
}

/// Where windows that are gone are passed over, no answer makes the
/// installer give up.
pub proof fn lemma_skipping_never_aborts(state: InstallerView, event: GrabEvent)
    requires
        state.skip_vanished,
        state.phase != Phase::Aborted,
    ensures
        stepped(state, event).phase != Phase::Aborted,
{
}

/// The state after the three answers that install the grab on the window
/// in work: its mask, the word that the grab is installed, and its mask as
/// the server reports it then.
pub open spec fn installed(state: InstallerView, read: u32, reported: u32) -> InstallerView {
    stepped(
        stepped(stepped(state, GrabEvent::Mask(read)), GrabEvent::Installed),
        GrabEvent::Mask(reported),
    )
}

/// The mask stored for a window is a superset of the mask that was read
/// before its grab was installed, and holds both key bits, whatever the
/// server reports afterwards.
pub proof fn lemma_installed_mask(state: InstallerView, read: u32, reported: u32)
    requires
        state.phase == Phase::Reading,
    ensures
        installed(state, read, reported).table.contains_key(state.window()),
        installed(state, read, reported).table[state.window()] == (MaskEntry {
            initial: read,
            delivery: delivered(read, reported),
        }),
        includes(installed(state, read, reported).table[state.window()].delivery, read),
        includes(installed(state, read, reported).table[state.window()].delivery, KEY_PRESS),
        includes(installed(state, read, reported).table[state.window()].delivery, KEY_RELEASE),
        installed(state, read, reported).index == state.index + 1,
        installed(state, read, reported).skipped == state.skipped,
{
    assert(includes(reported | (read | 3u32), read) && includes(reported | (read | 3u32), 1u32)
        && includes(reported | (read | 3u32), 2u32)) by (bit_vector);
}

/// A window that is gone leaves the table as it is; where such windows
/// are passed over, it is noted and the next window is taken up.
pub proof fn lemma_vanished_is_passed_over(state: InstallerView)
    requires
        state.active(),
    ensures
        stepped(state, GrabEvent::Vanished).table == state.table,
        state.skip_vanished ==> stepped(state, GrabEvent::Vanished).skipped == state.skipped.push(
            state.window(),
        ) && stepped(state, GrabEvent::Vanished).index == state.index + 1,
        !state.skip_vanished ==> stepped(state, GrabEvent::Vanished).phase == Phase::Aborted,
{
}

impl GrabInstaller {
    #[verifier::type_invariant]
    spec fn inv(&self) -> bool {
        self@.well_formed()
    }

    /// An installer for the target windows. With `all_windows` a window that
    /// is gone is passed over; without, it ends the run.
    pub fn new(targets: &TargetSet, all_windows: bool) -> (installer: GrabInstaller)
        ensures
            installer@ == installer_for(targets@, all_windows),
            installer@.well_formed(),
    {
        let windows = targets.to_vec();
        GrabInstaller {
            targets: windows,
            skip_vanished: all_windows,
            index: 0,
            phase: Phase::Reading,
            table: MaskTable::new(),
            skipped: Vec::new(),
        }
    }

    /// The request to perform next.
    pub fn action(&self) -> (action: GrabAction)
        ensures
            action == action_of(self@),
    {
        proof {
            use_type_invariant(self);
        }
        match self.phase {
            Phase::Reading => GrabAction::ReadMask { window: self.targets[self.index] },
            Phase::Installing { before } => {
                let window = self.targets[self.index];
                GrabAction::Install {
                    window,
                    event_mask: key_event_mask(before),
                    grab: GrabRequest {
                        owner_events: false,
                        window,
                        modifiers: ANY_MODIFIER,
                        key: ANY_KEY,
                        pointer_mode: GrabMode::Async,
                        keyboard_mode: GrabMode::Async,
                    },
                }
            },
            Phase::Confirming { before: _ } => GrabAction::ReadBack {
                window: self.targets[self.index],
            },
            Phase::Finished => GrabAction::Finish,
            Phase::Aborted => GrabAction::Abort { window: self.targets[self.index] },
        }
    }

    /// Takes the answer to the request of [`GrabInstaller::action`].
    pub fn step(self, event: GrabEvent) -> (next: GrabInstaller)
        ensures
            next@ == stepped(self@, event),
            next@.well_formed(),
    {
        proof {
            use_type_invariant(&self);
            lemma_stepped_well_formed(self@, event);
        }
        let ghost before_step = self@;
        let GrabInstaller { targets, skip_vanished, index, phase, table, skipped } = self;
        let count: usize = targets.len();
        match (phase, event) {
            (Phase::Reading, GrabEvent::Mask(mask)) => GrabInstaller {
                targets,
                skip_vanished,
                index,
                phase: Phase::Installing { before: mask },
                table,
                skipped,
            },
            (Phase::Installing { before }, GrabEvent::Installed) => GrabInstaller {
                targets,
                skip_vanished,
                index,
                phase: Phase::Confirming { before },
                table,
                skipped,
            },
            (Phase::Confirming { before }, GrabEvent::Mask(mask)) => {
                let window = targets[index];
                let table = table.record(window, before, mask);
                let phase = if index + 1 < count {
                    Phase::Reading
                } else {
                    Phase::Finished
                };
                GrabInstaller { targets, skip_vanished, index: index + 1, phase, table, skipped }
            },
            (Phase::Reading, GrabEvent::Vanished)
            | (Phase::Installing { before: _ }, GrabEvent::Vanished)
            | (Phase::Confirming { before: _ }, GrabEvent::Vanished) => {
                if skip_vanished {
                    let mut skipped = skipped;
                    skipped.push(targets[index]);
                    let phase = if index + 1 < count {
                        Phase::Reading
                    } else {
                        Phase::Finished
                    };
                    GrabInstaller {
                        targets,
                        skip_vanished,
                        index: index + 1,
                        phase,
                        table,
                        skipped,
                    }
                } else {
                    GrabInstaller {
                        targets,
                        skip_vanished,
                        index,
                        phase: Phase::Aborted,
                        table,
                        skipped,
                    }
                }
            },
            _ => GrabInstaller { targets, skip_vanished, index, phase, table, skipped },
        }
    }

    /// Whether every target window is dealt with.
    pub fn is_finished(&self) -> (finished: bool)
        ensures
            finished == (self@.phase == Phase::Finished),
    {
        match self.phase {
            Phase::Finished => true,
            _ => false,
        }
    }

    /// Whether the run is given up.
    pub fn is_aborted(&self) -> (aborted: bool)
        ensures
            aborted == (self@.phase == Phase::Aborted),
            aborted ==> !self@.skip_vanished,
    {
        proof {
            use_type_invariant(self);
        }
        match self.phase {
            Phase::Aborted => true,
            _ => false,
        }
    }

    /// The windows that were passed over because they were gone.
    pub fn skipped(&self) -> (windows: &Vec<u32>)
        ensures
            windows@ == self@.skipped,
    {
        &self.skipped
    }

    /// Ends the installation and hands out the table of delivery masks.
    /// Once the installer has finished, every target window is in the table
    /// or among those passed over.
    pub fn into_table(self) -> (table: MaskTable)
        ensures
            table@ == self@.table,
            sound(table@),
            self@.phase == Phase::Finished ==> forall|i: int|
                0 <= i < self@.targets.len() ==> table@.contains_key(#[trigger] self@.targets[i])
                    || self@.skipped.contains(self@.targets[i]),
    {
        proof {
            use_type_invariant(&self);
        }
        self.table
    }
}

} // verus!
