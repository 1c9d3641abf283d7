//! Hotkey recognizer: evaluates the held-key set against a table of
//! registered chords. Every chord whose keys are all held fires, each
//! exactly once per evaluation, in registration order.

use vstd::prelude::*;
use crate::keys::{Key, KeyEvent, KeyStateTracker};

verus! {

/// What a recognized chord asks the daemon to do.
#[derive(Clone, Copy, PartialEq, Eq, Structural, Debug)]
pub enum Action {
    TileLeft,
    AutoArrange,
    Quit,
}

/// An immutable chord: the keys that must all be held, and the action to
/// fire when they are.
pub struct HotkeyChord {
    pub keys: Vec<Key>,
    pub action: Action,
}

/// The chord matches when every required key is held.
pub open spec fn chord_matches(chord: HotkeyChord, held: Set<Key>) -> bool {
    forall|j: int| 0 <= j < chord.keys@.len() ==> held.contains(chord.keys@[j])
}

/// The actions of the first `n` chords that match `held`, in registration
/// order.
pub open spec fn matched_actions_upto(
    chords: Seq<HotkeyChord>,
    held: Set<Key>,
    n: int,
) -> Seq<Action>
    recommends 0 <= n <= chords.len(),
    decreases n,
{
    if n <= 0 {
        Seq::empty()
    } else if chord_matches(chords[n - 1], held) {
        matched_actions_upto(chords, held, n - 1).push(chords[n - 1].action)
    } else {
        matched_actions_upto(chords, held, n - 1)
    }
}

/// The actions of every chord that matches `held`, in registration order.
pub open spec fn matched_actions(chords: Seq<HotkeyChord>, held: Set<Key>) -> Seq<Action> {
    matched_actions_upto(chords, held, chords.len() as int)
}

/// Does `tracker` currently hold every key of `chord`?
fn chord_is_down(tracker: &KeyStateTracker, chord: &HotkeyChord) -> (r: bool)
    ensures
        r == chord_matches(*chord, tracker@),
{
    let mut j: usize = 0;
    while j < chord.keys.len()
        invariant
            j <= chord.keys@.len(),
            forall|p: int| 0 <= p < j ==> tracker@.contains(chord.keys@[p]),
        decreases chord.keys@.len() - j,
    {
        if !tracker.is_held(chord.keys[j]) {
            return false;
        }
        j = j + 1;
    }
    true
}

/// Evaluate the held-key set against the chord table. Every matching chord
/// fires, each exactly once, in registration order — not first-match-wins.
pub fn evaluate(table: &Vec<HotkeyChord>, tracker: &KeyStateTracker) -> (actions: Vec<Action>)
    ensures
        actions@ == matched_actions(table@, tracker@),
{
    let mut actions: Vec<Action> = Vec::new();
    let mut i: usize = 0;
    while i < table.len()
        invariant
            i <= table@.len(),
            actions@ == matched_actions_upto(table@, tracker@, i as int),
        decreases table@.len() - i,
    {
        if chord_is_down(tracker, &table[i]) {
            actions.push(table[i].action);
        }
        i = i + 1;
    }
    actions
}

/// Feed one keyboard event through the tracker and, on a press, run the
/// recognizer. Only presses can complete a chord, so releases return no
/// actions. Holding a completed chord and pressing any further key fires
/// its action again: evaluation is keyed to press events, a known
/// repeat-fire characteristic that is preserved deliberately.
pub fn handle_event(
    tracker: &mut KeyStateTracker,
    table: &Vec<HotkeyChord>,
    event: KeyEvent,
) -> (actions: Vec<Action>)
    requires
        old(tracker).wf(),
    ensures
        final(tracker).wf(),
        match event {
            KeyEvent::Press(k) => {
                &&& final(tracker)@ == old(tracker)@.insert(k)
                &&& actions@ == matched_actions(table@, old(tracker)@.insert(k))
            },
            KeyEvent::Release(k) => {
                &&& final(tracker)@ == old(tracker)@.remove(k)
                &&& actions@ == Seq::<Action>::empty()
            },
        },
{
    match event {
        KeyEvent::Press(k) => {
            tracker.on_press(k);
            evaluate(table, tracker)
        },
        KeyEvent::Release(k) => {
            tracker.on_release(k);
            let actions: Vec<Action> = Vec::new();
            actions
        },
    }
}

/// The default chord table: Control+Shift+T tiles, Control+Shift+Q quits.
pub fn default_chords() -> (table: Vec<HotkeyChord>)
    ensures
        table@.len() == 2,
        table@[0].keys@ =~= seq![Key::ControlLeft, Key::ShiftLeft, Key::KeyT],
        table@[0].action == Action::TileLeft,
        table@[1].keys@ =~= seq![Key::ControlLeft, Key::ShiftLeft, Key::KeyQ],
        table@[1].action == Action::Quit,
{
    let mut tile_keys: Vec<Key> = Vec::new();
    tile_keys.push(Key::ControlLeft);
    tile_keys.push(Key::ShiftLeft);
    tile_keys.push(Key::KeyT);
    let mut quit_keys: Vec<Key> = Vec::new();
    quit_keys.push(Key::ControlLeft);
    quit_keys.push(Key::ShiftLeft);
    quit_keys.push(Key::KeyQ);
    let mut table: Vec<HotkeyChord> = Vec::new();
    table.push(HotkeyChord { keys: tile_keys, action: Action::TileLeft });
    table.push(HotkeyChord { keys: quit_keys, action: Action::Quit });
    table
}

} // verus!
