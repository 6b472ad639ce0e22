//! Event dispatch: what happens to each event that the server hands over.
//!
//! A key event that the server generated is translated and sent back to its
//! window as a synthetic event. Everything else is dropped, above all the
//! synthetic events themselves: they come back through the grab, and
//! translating them again would never end.

use crate::grab::{includes, MaskEntry, MaskTable, KEY_PRESS, KEY_RELEASE};
use crate::translate::{keysym_query, translate, translated, KeysymQuery, Resolved};
use vstd::prelude::*;

verus! {

/// The timestamp that stands for "now" in a request.
pub const NOW: u32 = 0;

/// The kind of an event, as far as the dispatch tells events apart.
#[derive(Clone, Copy, Debug, PartialEq, Eq, Structural)]
pub enum EventClass {
    KeyPress,
    KeyRelease,
    /// Any event that is no key event.
    Other,
}

/// What the dispatch reads of an event.
#[derive(Clone, Copy, Debug, PartialEq, Eq, Structural)]
pub struct KeyEventRecord {
    pub class: EventClass,
    /// The physical key.
    pub keycode: u8,
    /// The modifier state.
    pub state: u16,
    /// The window that the event was reported to.
    pub window: u32,
    /// The server time of the event.
    pub time: u32,
    /// Whether a client sent the event, rather than the server.
    pub synthetic: bool,
}

/// What becomes of an event before any lookup.
#[derive(Clone, Copy, Debug, PartialEq, Eq, Structural)]
pub enum Admission {
    /// The event is dropped; nothing is looked up and nothing is sent.
    Discard,
    /// The event is to be translated, starting with this lookup.
    Translate(KeysymQuery),
}

/// A synthetic event to send.
#[derive(Clone, Copy, Debug, PartialEq, Eq, Structural)]
pub struct Emission {
    /// Whether the event may go on to the ancestors of the window.
    pub propagate: bool,
    /// The window to send to.
    pub destination: u32,
    /// The events that a client must have selected to receive it.
    pub event_mask: u32,
    /// `KeyPress` or `KeyRelease`, as the event was.
    pub class: EventClass,
    pub keycode: u8,
    pub state: u16,
    /// The timestamp to send.
    pub time: u32,
}

/// Whether an event is translated: a key event that the server generated.
pub open spec fn admissible(event: KeyEventRecord) -> bool {
    event.class != EventClass::Other && !event.synthetic
}

/// Whether events are sent with propagation: where more than one window
/// is served.
pub open spec fn propagates(masks: Map<u32, MaskEntry>) -> bool {
    masks.len() > 1
}

/// What is sent for an admissible event of a window of the table, once its
/// key is resolved.
pub open spec fn emission_for(
    masks: Map<u32, MaskEntry>,
    event: KeyEventRecord,
    resolved: Resolved,
) -> Emission {
    let out = translated(event.keycode, event.state, resolved);
    Emission {
        propagate: propagates(masks),
        destination: event.window,
        event_mask: masks[event.window].delivery,
        class: event.class,
        keycode: out.0,
        state: out.1 as u16,
        time: NOW,
    }
}

/// Reads the timestamp constant `x11rb::CURRENT_TIME`.
///
/// Trusted: the constant is 0.
#[verifier::external_body]
fn current_time() -> (time: u32)
    ensures
        time == NOW,
{
    x11rb::CURRENT_TIME
}

/// The fixed part of the dispatch: the delivery masks and the layout group.
#[derive(Debug)]
pub struct Dispatcher {
    masks: MaskTable,
    layout: usize,
}

/// The mathematical content of a [`Dispatcher`].
pub struct DispatcherView {
    pub masks: Map<u32, MaskEntry>,
    pub layout: usize,
}

impl View for Dispatcher {
    type V = DispatcherView;

    closed spec fn view(&self) -> DispatcherView {
        DispatcherView { masks: self.masks@, layout: self.layout }
    }
}

impl Dispatcher {
    /// A dispatcher for the windows of the table, translating into the
    /// given layout group.
    pub fn new(masks: MaskTable, layout: usize) -> (dispatcher: Dispatcher)
        ensures
            dispatcher@ == (DispatcherView { masks: masks@, layout }),
    {
        Dispatcher { masks, layout }
    }

    /// The table of delivery masks.
    pub fn masks(&self) -> (masks: &MaskTable)
        ensures
            masks@ == self@.masks,
    {
        &self.masks
    }

    /// The layout group that events are translated into.
    pub fn layout(&self) -> (layout: usize)
        ensures
            layout == self@.layout,
    {
        self.layout
    }

    /// Decides whether an event is translated at all.
    ///
    /// An event that is no key event is dropped, and so is every synthetic
    /// event, of whatever kind.
    pub fn screen(&self, event: &KeyEventRecord) -> (admission: Admission)
        ensures
            event.synthetic ==> admission == Admission::Discard,
            event.class == EventClass::Other ==> admission == Admission::Discard,
            admissible(*event) ==> admission == Admission::Translate(
                KeysymQuery {
                    keycode: event.keycode,
                    group: crate::translate::group_of(self@.layout),
                    level: event.state as i32,
                },
            ),
    {
        if event.synthetic {
            return Admission::Discard;
        }
        match event.class {
            EventClass::Other => Admission::Discard,
            _ => Admission::Translate(keysym_query(event.keycode, event.state, self.layout)),
        }
    }

    /// Builds the synthetic event for an event whose key is resolved.
    ///
    /// Nothing is sent for an event that is not admissible, nor for one of
    /// a window that is not in the table. Otherwise the event goes back to
    /// its window with the translated key, under the delivery mask of the
    /// table and with the timestamp for "now".
    pub fn emit(&self, event: &KeyEventRecord, resolved: Resolved) -> (emission: Option<Emission>)
        ensures
            emission.is_some() == (admissible(*event) && self@.masks.contains_key(event.window)),
            emission matches Some(e) ==> {
                &&& e == emission_for(self@.masks, *event, resolved)
                &&& includes(e.event_mask, KEY_PRESS)
                &&& includes(e.event_mask, KEY_RELEASE)
                &&& includes(e.event_mask, self@.masks[event.window].initial)
            },
            event.synthetic ==> emission is None,
    {
        if event.synthetic {
            return None;
        }
        match event.class {
            EventClass::Other => None,
            _ => match self.masks.entry(event.window) {
                None => None,
                Some(entry) => {
                    let (keycode, state) = translate(event.keycode, event.state, resolved);
                    Some(
                        Emission {
                            propagate: self.masks.len() > 1,
                            destination: event.window,
                            event_mask: entry.delivery,
                            class: event.class,
                            keycode,
                            state: state as u16,
                            time: current_time(),
                        },
                    )
                },
            },
        }
    }
}

/// Where the event loop stands.
#[derive(Clone, Copy, Debug, PartialEq, Eq, Structural)]
pub enum LoopState {
    /// No event is at hand: the loop waits for the server.
    Idle,
    /// An event came in: the loop works off what has arrived, without
    /// waiting.
    Draining,
}

/// How the next event is fetched.
#[derive(Clone, Copy, Debug, PartialEq, Eq, Structural)]
pub enum Fetch {
    /// Block until the server sends an event.
    Wait,
    /// Take an event that has arrived already, if there is one.
    Poll,
}

/// How a state fetches its next event.
pub open spec fn fetch_of(state: LoopState) -> Fetch {
    match state {
        LoopState::Idle => Fetch::Wait,
        LoopState::Draining => Fetch::Poll,
    }
}

/// The state after a fetch: draining as long as events come in, idle once
/// none is left.
pub open spec fn state_after(received: bool) -> LoopState {
    if received {
        LoopState::Draining
    } else {
        LoopState::Idle
    }
}

impl LoopState {
    /// The state in which the loop starts.
    pub fn start() -> (state: LoopState)
        ensures
            state == LoopState::Idle,
    {
        LoopState::Idle
    }

    /// How to fetch the next event: only the idle loop may block.
    pub fn fetch(self) -> (fetch: Fetch)
        ensures
            fetch == fetch_of(self),
    {
        match self {
            LoopState::Idle => Fetch::Wait,
            LoopState::Draining => Fetch::Poll,
        }
    }

    /// The state after a fetch that did or did not bring an event.
    pub fn after_fetch(self, received: bool) -> (next: LoopState)
        ensures
            next == state_after(received),
            received ==> fetch_of(next) == Fetch::Poll,
    {
        if received {
            LoopState::Draining
        } else {
            LoopState::Idle
        }
    }
}

} // verus!
