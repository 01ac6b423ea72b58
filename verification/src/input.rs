//! Which keys and mouse buttons are held down.
use vstd::prelude::*;

verus! {

/// The keys the game reacts to; every other key is `Other` with a number
/// that tells it apart from the rest.
#[derive(Clone, Copy, Debug, PartialEq, Eq, Structural)]
pub enum Key {
    Digit1,
    Digit2,
    Digit3,
    Digit4,
    Digit5,
    Digit6,
    Digit7,
    Digit8,
    Digit9,
    KeyW,
    KeyA,
    KeyS,
    KeyD,
    KeyE,
    Space,
    ShiftLeft,
    Escape,
    Other(u32),
}

#[derive(Clone, Copy, Debug, PartialEq, Eq, Structural)]
pub enum MouseButton {
    Left,
    Right,
    Other,
}

/// What a key press asks of the mouse cursor.
#[derive(Clone, Copy, Debug, PartialEq, Eq, Structural)]
pub enum CursorChange {
    /// Lock and hide the cursor.
    Grab,
    /// Free and show the cursor.
    Release,
}

/// The keys held down, and whether the left and right mouse buttons are.
pub struct Input {
    pub pressed_keys: Vec<Key>,
    pub lmb: bool,
    pub rmb: bool,
}

/// The held keys after a key event: a repeat changes nothing, a press adds
/// the key, a release removes it.
pub open spec fn keys_after(keys: Set<Key>, key: Key, is_pressed: bool, repeat: bool) -> Set<Key> {
    if repeat {
        keys
    } else if is_pressed {
        keys.insert(key)
    } else {
        keys.remove(key)
    }
}

/// What a key event asks of the cursor: a fresh press of Escape frees it, a
/// fresh press of any other key grabs it.
pub open spec fn cursor_after(key: Key, is_pressed: bool, repeat: bool) -> Option<CursorChange> {
    if repeat || !is_pressed {
        None
    } else if key == Key::Escape {
        Some(CursorChange::Release)
    } else {
        Some(CursorChange::Grab)
    }
}

impl Input {
    /// No key is listed twice.
    pub open spec fn wf(&self) -> bool {
        self.pressed_keys@.no_duplicates()
    }
}

impl View for Input {
    /// The set of held keys.
    type V = Set<Key>;

    open spec fn view(&self) -> Set<Key> {
        self.pressed_keys@.to_set()
    }
}

impl Input {
    /// No key and no button held.
    pub fn new() -> (i: Input)
        ensures
            i.pressed_keys@ == Seq::<Key>::empty(),
            i.wf(),
            i@ == Set::<Key>::empty(),
            !i.lmb,
            !i.rmb,
    {
        let i = Input { pressed_keys: Vec::new(), lmb: false, rmb: false };
        assert(i@ =~= Set::<Key>::empty());
        i
    }

    /// Whether `key` is held.
    pub fn pressed(&self, key: &Key) -> (b: bool)
        ensures
            b == self@.contains(*key),
    {
        let mut i: usize = 0;
        while i < self.pressed_keys.len()
            invariant
                i <= self.pressed_keys@.len(),
                forall|j: int| 0 <= j < i ==> self.pressed_keys@[j] != *key,
            decreases self.pressed_keys@.len() - i,
        {
            if self.pressed_keys[i] == *key {
                assert(self.pressed_keys@.contains(*key));
                return true;
            }
            i = i + 1;
        }
        false
    }

    /// Adds `key` to the held keys.
    fn press(&mut self, key: Key)
        ensures
            old(self).wf() ==> final(self).wf(),
            final(self)@ == old(self)@.insert(key),
            final(self).lmb == old(self).lmb,
            final(self).rmb == old(self).rmb,
    {
        if !self.pressed(&key) {
            self.pressed_keys.push(key);
        }
        assert(self@ =~= old(self)@.insert(key)) by {
            assert forall|k: Key| #[trigger] self@.contains(k) <==> old(self)@.insert(key).contains(k) by {
                if self@.contains(k) && k != key {
                    let j = choose|j: int| 0 <= j < self.pressed_keys@.len() && self.pressed_keys@[j] == k;
                    assert(old(self).pressed_keys@[j] == k);
                }
                if old(self)@.contains(k) {
                    let j = choose|j: int| 0 <= j < old(self).pressed_keys@.len() && old(self).pressed_keys@[j] == k;
                    assert(self.pressed_keys@[j] == k);
                }
                if k == key {
                    if !old(self)@.contains(k) {
                        assert(self.pressed_keys@[self.pressed_keys@.len() - 1] == k);
                    }
                }
            }
        }
    }

    /// Removes `key` from the held keys.
    fn release(&mut self, key: Key)
        ensures
            old(self).wf() ==> final(self).wf(),
            final(self)@ == old(self)@.remove(key),
            final(self).lmb == old(self).lmb,
            final(self).rmb == old(self).rmb,
    {
        let mut kept: Vec<Key> = Vec::new();
        let mut i: usize = 0;
        while i < self.pressed_keys.len()
            invariant
                i <= self.pressed_keys@.len(),
                forall|k: Key| #[trigger]
                    kept@.contains(k) <==> (k != key && exists|j: int|
                        0 <= j < i && self.pressed_keys@[j] == k),
                self.pressed_keys@.no_duplicates() ==> kept@.no_duplicates(),
            decreases self.pressed_keys@.len() - i,
        {
            let k = self.pressed_keys[i];
            let ghost kept_before = kept@;
            proof {
                if self.pressed_keys@.no_duplicates() && kept_before.contains(k) {
                    let j = choose|j: int| 0 <= j < i && self.pressed_keys@[j] == k;
                    assert(self.pressed_keys@[i as int] == k);
                }
            }
            if k != key {
                kept.push(k);
            }
            proof {
                assert forall|k2: Key| #[trigger]
                    kept@.contains(k2) <==> (k2 != key && exists|j: int|
                        0 <= j < i + 1 && self.pressed_keys@[j] == k2) by {
                    if kept@.contains(k2) {
                        let j = choose|j: int| 0 <= j < kept@.len() && kept@[j] == k2;
                        if j < kept_before.len() {
                            assert(kept_before[j] == k2);
                            assert(kept_before.contains(k2));
                        } else {
                            assert(self.pressed_keys@[i as int] == k2);
                        }
                    }
                    if k2 != key && exists|j: int| 0 <= j < i + 1 && self.pressed_keys@[j] == k2 {
                        let j = choose|j: int| 0 <= j < i + 1 && self.pressed_keys@[j] == k2;
                        if j < i {
                            assert(kept_before.contains(k2));
                            let jj = choose|jj: int| 0 <= jj < kept_before.len() && kept_before[jj] == k2;
                            assert(kept@[jj] == k2);
                        } else {
                            assert(kept@[kept@.len() - 1] == k2);
                        }
                    }
                }
            }
            i = i + 1;
        }
        self.pressed_keys = kept;
        assert(self@ =~= old(self)@.remove(key));
    }

    /// Records a key event. A repeat changes nothing; a press holds the key
    /// and asks to free the cursor (Escape) or grab it (any other key); a
    /// release lets the key go.
    pub fn handle_key(&mut self, key: Key, is_pressed: bool, repeat: bool) -> (c: Option<CursorChange>)
        ensures
            old(self).wf() ==> final(self).wf(),
            final(self)@ == keys_after(old(self)@, key, is_pressed, repeat),
            c == cursor_after(key, is_pressed, repeat),
            final(self).lmb == old(self).lmb,
            final(self).rmb == old(self).rmb,
    {
        if !repeat {
            if is_pressed {
                self.press(key);
                if key == Key::Escape {
                    Some(CursorChange::Release)
                } else {
                    Some(CursorChange::Grab)
                }
            } else {
                self.release(key);
                None
            }
        } else {
            None
        }
    }

    /// Records a mouse-button event: the left and right buttons are tracked,
    /// others ignored.
    pub fn handle_mouse_button(&mut self, button: MouseButton, is_pressed: bool)
        ensures
            final(self)@ == old(self)@,
            final(self).pressed_keys == old(self).pressed_keys,
            final(self).lmb == if button == MouseButton::Left {
                is_pressed
            } else {
                old(self).lmb
            },
            final(self).rmb == if button == MouseButton::Right {
                is_pressed
            } else {
                old(self).rmb
            },
    {
        match button {
            MouseButton::Left => self.lmb = is_pressed,
            MouseButton::Right => self.rmb = is_pressed,
            MouseButton::Other => {},
        }
    }
}

} // verus!
