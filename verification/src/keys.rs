//! Key-state tracker: the set of keys currently held, maintained from a
//! stream of press and release events.

use vstd::prelude::*;

verus! {

/// An identifier for a physical key. Only identity matters; keys the
/// recognizer never names arrive as `Other` with a platform scan code.
#[derive(Clone, Copy, PartialEq, Eq, Structural, Debug)]
pub enum Key {
    ControlLeft,
    ShiftLeft,
    KeyT,
    KeyQ,
    Other(u32),
}

/// One keyboard event as the platform hook delivers it.
#[derive(Clone, Copy, PartialEq, Eq, Structural, Debug)]
pub enum KeyEvent {
    Press(Key),
    Release(Key),
}

/// The set of keys currently held down. Created empty at startup; presses
/// insert, releases remove, and a key is never held more than once.
pub struct KeyStateTracker {
    held: Vec<Key>,
}

impl KeyStateTracker {
    /// The tracker as the set of held keys.
    pub closed spec fn view(self) -> Set<Key> {
        self.held@.to_set()
    }

    /// No key appears twice in the backing store.
    pub closed spec fn wf(self) -> bool {
        self.held@.no_duplicates()
    }

    /// A fresh tracker holds no keys.
    pub fn new() -> (t: KeyStateTracker)
        ensures
            t.wf(),
            t@ == Set::<Key>::empty(),
    {
        let t = KeyStateTracker { held: Vec::new() };
        proof {
            assert(t.held@.to_set() =~= Set::<Key>::empty());
        }
        t
    }

    /// Whether `key` is currently held.
    pub fn is_held(&self, key: Key) -> (r: bool)
        ensures
            r == self@.contains(key),
    {
        let mut i: usize = 0;
        while i < self.held.len()
            invariant
                i <= self.held@.len(),
                forall|j: int| 0 <= j < i ==> self.held@[j] != key,
            decreases self.held@.len() - i,
        {
            if self.held[i] == key {
                return true;
            }
            i = i + 1;
        }
        proof {
            assert(!self.held@.contains(key));
        }
        false
    }

    /// Press: insert `key` into the held set.
    pub fn on_press(&mut self, key: Key)
        requires
            old(self).wf(),
        ensures
            final(self).wf(),
            final(self)@ == old(self)@.insert(key),
    {
        if !self.is_held(key) {
            let ghost before = self.held@;
            self.held.push(key);
            proof {
                assert(self.held@.drop_last() =~= before);
                assert(self.held@.to_set() =~= before.to_set().insert(key)) by {
                    assert forall|k: Key| self.held@.to_set().contains(k)
                        implies before.to_set().insert(key).contains(k) by {
                        let j = choose|j: int|
                            0 <= j < self.held@.len() && self.held@[j] == k;
                        if j < before.len() {
                            assert(before[j] == k);
                        }
                    };
                    assert forall|k: Key| before.to_set().insert(key).contains(k)
                        implies self.held@.to_set().contains(k) by {
                        if before.to_set().contains(k) {
                            let j = choose|j: int| 0 <= j < before.len() && before[j] == k;
                            assert(self.held@[j] == k);
                        } else {
                            assert(self.held@[before.len() as int] == key);
                        }
                    };
                }
            }
        } else {
            proof {
                assert(self.held@.to_set() =~= self.held@.to_set().insert(key));
            }
        }
    }

    /// Release: remove `key` from the held set. Removing an absent key is
    /// a no-op, not an error.
    pub fn on_release(&mut self, key: Key)
        requires
            old(self).wf(),
        ensures
            final(self).wf(),
            final(self)@ == old(self)@.remove(key),
    {
        let ghost before = self.held@;
        let mut i: usize = 0;
        while i < self.held.len()
            invariant
                self.held@ == before,
                before == old(self).held@,
                before.no_duplicates(),
                i <= before.len(),
                forall|j: int| 0 <= j < i ==> before[j] != key,
            decreases before.len() - i,
        {
            if self.held[i] == key {
                proof {
                    assert(before[i as int] == key);
                }
                self.held.remove(i);
                proof {
                    assert(self.held@ =~= before.subrange(0, i as int)
                        + before.subrange(i + 1, before.len() as int));
                    lemma_remove_at_to_set(before, i as int);
                    assert(self.held@.to_set() =~= before.to_set().remove(key));
                }
                return;
            }
            i = i + 1;
        }
        proof {
            assert(!before.to_set().contains(key));
            assert(before.to_set() =~= before.to_set().remove(key));
        }
    }
}

/// Removing position `i` from a duplicate-free sequence removes exactly the
/// element that stood there from the sequence's set.
proof fn lemma_remove_at_to_set(s: Seq<Key>, i: int)
    requires
        s.no_duplicates(),
        0 <= i < s.len(),
    ensures
        (s.subrange(0, i) + s.subrange(i + 1, s.len() as int)).to_set()
            == s.to_set().remove(s[i]),
        (s.subrange(0, i) + s.subrange(i + 1, s.len() as int)).no_duplicates(),
{
    let rest = s.subrange(0, i) + s.subrange(i + 1, s.len() as int);
    assert forall|k: Key| rest.to_set().contains(k)
        implies s.to_set().remove(s[i]).contains(k) by {
        let j = choose|j: int| 0 <= j < rest.len() && rest[j] == k;
        if j < i {
            assert(s[j] == k);
            assert(j != i);
        } else {
            assert(s[j + 1] == k);
            assert(j + 1 != i);
        }
    };
    assert forall|k: Key| s.to_set().remove(s[i]).contains(k)
        implies rest.to_set().contains(k) by {
        let j = choose|j: int| 0 <= j < s.len() && s[j] == k;
        assert(j != i);
        if j < i {
            assert(rest[j] == k);
        } else {
            assert(rest[j - 1] == k);
        }
    };
    assert(rest.to_set() =~= s.to_set().remove(s[i]));
    assert forall|p: int, q: int| 0 <= p < q < rest.len() implies rest[p] != rest[q] by {
        let sp: int = if p < i { p } else { p + 1 };
        let sq: int = if q < i { q } else { q + 1 };
        assert(rest[p] == s[sp]);
        assert(rest[q] == s[sq]);
    };
}

} // verus!
