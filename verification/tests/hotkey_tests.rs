use tiler::hotkeys::{default_chords, evaluate, handle_event, Action};
use tiler::keys::{Key, KeyEvent, KeyStateTracker};

#[test]
fn chord_completes_on_final_press() {
    let table = default_chords();
    let mut tracker = KeyStateTracker::new();
    let a1 = handle_event(&mut tracker, &table, KeyEvent::Press(Key::ControlLeft));
    assert!(a1.is_empty());
    let a2 = handle_event(&mut tracker, &table, KeyEvent::Press(Key::ShiftLeft));
    assert!(a2.is_empty());
    let a3 = handle_event(&mut tracker, &table, KeyEvent::Press(Key::KeyT));
    assert_eq!(a3, vec![Action::TileLeft]);
}

#[test]
fn release_and_repress_fires_again() {
    let table = default_chords();
    let mut tracker = KeyStateTracker::new();
    handle_event(&mut tracker, &table, KeyEvent::Press(Key::ControlLeft));
    handle_event(&mut tracker, &table, KeyEvent::Press(Key::ShiftLeft));
    let first = handle_event(&mut tracker, &table, KeyEvent::Press(Key::KeyT));
    assert_eq!(first, vec![Action::TileLeft]);
    let released = handle_event(&mut tracker, &table, KeyEvent::Release(Key::KeyT));
    assert!(released.is_empty());
    let again = handle_event(&mut tracker, &table, KeyEvent::Press(Key::KeyT));
    assert_eq!(again, vec![Action::TileLeft]);
}

#[test]
fn quit_chord_fires() {
    let table = default_chords();
    let mut tracker = KeyStateTracker::new();
    handle_event(&mut tracker, &table, KeyEvent::Press(Key::ControlLeft));
    handle_event(&mut tracker, &table, KeyEvent::Press(Key::ShiftLeft));
    let acts = handle_event(&mut tracker, &table, KeyEvent::Press(Key::KeyQ));
    assert_eq!(acts, vec![Action::Quit]);
}

#[test]
fn all_matching_chords_fire_in_registration_order() {
    let table = default_chords();
    let mut tracker = KeyStateTracker::new();
    tracker.on_press(Key::ControlLeft);
    tracker.on_press(Key::ShiftLeft);
    tracker.on_press(Key::KeyT);
    tracker.on_press(Key::KeyQ);
    let acts = evaluate(&table, &tracker);
    assert_eq!(acts, vec![Action::TileLeft, Action::Quit]);
}

#[test]
fn holding_chord_refires_on_unrelated_press() {
    // A known repeat-fire characteristic: evaluation is keyed to press
    // events, so pressing any further key while the chord stays held
    // fires the action again.
    let table = default_chords();
    let mut tracker = KeyStateTracker::new();
    handle_event(&mut tracker, &table, KeyEvent::Press(Key::ControlLeft));
    handle_event(&mut tracker, &table, KeyEvent::Press(Key::ShiftLeft));
    handle_event(&mut tracker, &table, KeyEvent::Press(Key::KeyT));
    let acts = handle_event(&mut tracker, &table, KeyEvent::Press(Key::Other(42)));
    assert_eq!(acts, vec![Action::TileLeft]);
}

#[test]
fn release_of_absent_key_is_noop() {
    let table = default_chords();
    let mut tracker = KeyStateTracker::new();
    let acts = handle_event(&mut tracker, &table, KeyEvent::Release(Key::KeyT));
    assert!(acts.is_empty());
    assert!(!tracker.is_held(Key::KeyT));
}

#[test]
fn press_is_idempotent_on_held_set() {
    let mut tracker = KeyStateTracker::new();
    tracker.on_press(Key::ControlLeft);
    tracker.on_press(Key::ControlLeft);
    assert!(tracker.is_held(Key::ControlLeft));
    tracker.on_release(Key::ControlLeft);
    assert!(!tracker.is_held(Key::ControlLeft));
}

#[test]
fn incomplete_chord_does_not_fire() {
    let table = default_chords();
    let mut tracker = KeyStateTracker::new();
    handle_event(&mut tracker, &table, KeyEvent::Press(Key::ControlLeft));
    let acts = handle_event(&mut tracker, &table, KeyEvent::Press(Key::KeyT));
    assert!(acts.is_empty());
}
