use mmk::dispatch::{
    Admission, Dispatcher, Emission, EventClass, Fetch, KeyEventRecord, LoopState, NOW,
};
use mmk::grab::MaskTable;
use mmk::translate::{KeysymQuery, Resolved};

fn key(class: EventClass, keycode: u8, state: u16, window: u32) -> KeyEventRecord {
    KeyEventRecord { class, keycode, state, window, time: 123_456, synthetic: false }
}

fn one_window() -> Dispatcher {
    Dispatcher::new(MaskTable::new().record(42, 0x0042_0000, 0x0042_0003), 1)
}

#[test]
fn key_press_is_translated_and_sent_back_once() {
    let dispatcher = one_window();
    let event = key(EventClass::KeyPress, 38, 0, 42);
    assert_eq!(
        dispatcher.screen(&event),
        Admission::Translate(KeysymQuery { keycode: 38, group: 1, level: 0 })
    );
    let emission = dispatcher.emit(&event, Resolved { keycode: 24, modifiers: 1 });
    assert_eq!(
        emission,
        Some(Emission {
            propagate: false,
            destination: 42,
            event_mask: 0x0042_0003,
            class: EventClass::KeyPress,
            keycode: 24,
            state: 1,
            time: 0,
        })
    );
    let state = LoopState::start().after_fetch(true);
    assert_eq!(state.fetch(), Fetch::Poll);
}

#[test]
fn key_release_keeps_its_class() {
    let dispatcher = one_window();
    let event = key(EventClass::KeyRelease, 38, 4, 42);
    let emission = dispatcher.emit(&event, Resolved { keycode: 40, modifiers: 0 }).unwrap();
    assert_eq!(emission.class, EventClass::KeyRelease);
    assert_eq!((emission.keycode, emission.state), (40, 0));
    assert_eq!(emission.time, NOW);
}

#[test]
fn synthetic_event_is_never_translated_nor_sent() {
    let dispatcher = one_window();
    let mut sent = 0;
    for class in [EventClass::KeyPress, EventClass::KeyRelease, EventClass::Other] {
        for window in [42u32, 7] {
            let event = KeyEventRecord { synthetic: true, ..key(class, 38, 0, window) };
            assert_eq!(dispatcher.screen(&event), Admission::Discard);
            if dispatcher.emit(&event, Resolved { keycode: 24, modifiers: 1 }).is_some() {
                sent += 1;
            }
        }
    }
    assert_eq!(sent, 0);
}

#[test]
fn other_events_are_dropped() {
    let dispatcher = one_window();
    let event = key(EventClass::Other, 38, 0, 42);
    assert_eq!(dispatcher.screen(&event), Admission::Discard);
    assert_eq!(dispatcher.emit(&event, Resolved { keycode: 24, modifiers: 1 }), None);
}

#[test]
fn untranslatable_key_is_sent_as_it_came() {
    let dispatcher = one_window();
    let event = key(EventClass::KeyPress, 38, 0x8005, 42);
    let emission = dispatcher.emit(&event, Resolved { keycode: 255, modifiers: 0 }).unwrap();
    assert_eq!((emission.keycode, emission.state), (38, 0x8005));
    let emission = dispatcher.emit(&event, Resolved { keycode: 10, modifiers: 1 << 16 }).unwrap();
    assert_eq!((emission.keycode, emission.state), (38, 0x8005));
}

#[test]
fn event_of_a_window_without_mask_is_not_sent() {
    let dispatcher = one_window();
    let event = key(EventClass::KeyPress, 38, 0, 43);
    assert_eq!(
        dispatcher.screen(&event),
        Admission::Translate(KeysymQuery { keycode: 38, group: 1, level: 0 })
    );
    assert_eq!(dispatcher.emit(&event, Resolved { keycode: 24, modifiers: 1 }), None);
}

#[test]
fn delivery_uses_the_mask_of_the_table() {
    let table = MaskTable::new().record(1, 0x10, 0x13).record(2, 0x200, 0x203);
    let dispatcher = Dispatcher::new(table, 0);
    assert_eq!(dispatcher.masks().len(), 2);
    assert_eq!(dispatcher.layout(), 0);
    let first = dispatcher
        .emit(&key(EventClass::KeyPress, 9, 0, 1), Resolved { keycode: 9, modifiers: 0 })
        .unwrap();
    let second = dispatcher
        .emit(&key(EventClass::KeyPress, 9, 0, 2), Resolved { keycode: 9, modifiers: 0 })
        .unwrap();
    assert_eq!((first.destination, first.event_mask), (1, 0x13));
    assert_eq!((second.destination, second.event_mask), (2, 0x203));
}

#[test]
fn propagation_is_on_where_several_windows_are_served() {
    let resolved = Resolved { keycode: 9, modifiers: 0 };
    let event = key(EventClass::KeyPress, 9, 0, 1);
    let one = Dispatcher::new(MaskTable::new().record(1, 0, 3), 0);
    assert!(!one.emit(&event, resolved).unwrap().propagate);
    let two = Dispatcher::new(MaskTable::new().record(1, 0, 3).record(2, 0, 3), 0);
    assert!(two.emit(&event, resolved).unwrap().propagate);
    let three = Dispatcher::new(MaskTable::new().record(1, 0, 3).record(2, 0, 3).record(3, 0, 3), 0);
    assert!(three.emit(&event, resolved).unwrap().propagate);
}

#[test]
fn layout_zero_asks_for_the_active_group() {
    let dispatcher = Dispatcher::new(MaskTable::new().record(1, 0, 3), 0);
    assert_eq!(
        dispatcher.screen(&key(EventClass::KeyRelease, 200, 0x2000, 1)),
        Admission::Translate(KeysymQuery { keycode: 200, group: 0, level: 0x2000 })
    );
}

#[test]
fn loop_blocks_only_when_idle() {
    let idle = LoopState::start();
    assert_eq!(idle, LoopState::Idle);
    assert_eq!(idle.fetch(), Fetch::Wait);
    let draining = idle.after_fetch(true);
    assert_eq!(draining, LoopState::Draining);
    assert_eq!(draining.fetch(), Fetch::Poll);
    assert_eq!(draining.after_fetch(true), LoopState::Draining);
    assert_eq!(draining.after_fetch(false), LoopState::Idle);
    assert_eq!(idle.after_fetch(false), LoopState::Idle);
}
