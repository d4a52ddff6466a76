use vstd::prelude::*;
use std::collections::HashSet;

verus! {

broadcast use vstd::std_specs::hash::group_hash_axioms;

/// A key, by the number of its virtual key code.
pub type KeyCode = u32;

/// The modifier keys held down.
pub struct KeyModifierList {}

/// The state of the keyboard: the keys held down, the key pressed most
/// recently and the one pressed before it.
pub struct KeyboardInterface {
    pressed_keys: HashSet<KeyCode>,
    key_modifiers: KeyModifierList,
    last_pressed: Option<KeyCode>,
    current_pressed: Option<KeyCode>,
}

impl KeyboardInterface {
    /// The keys held down.
    pub closed spec fn pressed(&self) -> Set<KeyCode> {
        self.pressed_keys@
    }

    /// The key pressed before the current one.
    pub closed spec fn last(&self) -> Option<KeyCode> {
        self.last_pressed
    }

    /// The key pressed most recently, while it is held.
    pub closed spec fn current(&self) -> Option<KeyCode> {
        self.current_pressed
    }

    /// `after` is `before` once `key` went down (`pressed`) or up.
    pub open spec fn key_recorded(before: Self, after: Self, key: KeyCode, pressed: bool) -> bool {
        if pressed {
            &&& after.pressed() == before.pressed().insert(key)
            &&& after.last() == before.current()
            &&& after.current() == Some(key)
        } else {
            &&& after.pressed() == before.pressed().remove(key)
            &&& after.last() == before.last()
            &&& after.current() is None
        }
    }

    pub fn new() -> (r: Self)
        ensures
            r.pressed() == Set::<KeyCode>::empty(),
            r.last() is None,
            r.current() is None,
    {
        Self {
            pressed_keys: HashSet::with_capacity(128),
            key_modifiers: KeyModifierList {},
            last_pressed: None,
            current_pressed: None,
        }
    }

    /// Records that `key` went down (`pressed`) or up. A key going down
    /// becomes the current key, and the current key before it becomes the
    /// last key; a key going up leaves no current key.
    pub fn set_key(&mut self, key: KeyCode, pressed: bool)
        ensures
            Self::key_recorded(*old(self), *final(self), key, pressed),
    {
        if pressed {
            let _ = self.pressed_keys.insert(key);
            self.last_pressed = self.current_pressed;
            self.current_pressed = Some(key);
        } else {
            let _ = self.pressed_keys.remove(&key);
            self.current_pressed = None;
        }
    }

    /// Whether `key` is held down.
    pub fn is_pressed(&self, key: KeyCode) -> (r: bool)
        ensures
            r == self.pressed().contains(key),
    {
        self.pressed_keys.contains(&key)
    }

    pub fn current_pressed(&self) -> (r: Option<KeyCode>)
        ensures
            r == self.current(),
    {
        self.current_pressed
    }

    pub fn last_pressed(&self) -> (r: Option<KeyCode>)
        ensures
            r == self.last(),
    {
        self.last_pressed
    }
}

/// A key is held down from the moment it goes down until it goes up, and a
/// key going down or up leaves every other key as it was.
pub proof fn lemma_key_held_until_released(
    a: KeyboardInterface,
    b: KeyboardInterface,
    key: KeyCode,
    pressed: bool,
    other: KeyCode,
)
    requires
        KeyboardInterface::key_recorded(a, b, key, pressed),
        other != key,
    ensures
        b.pressed().contains(key) == pressed,
        b.pressed().contains(other) == a.pressed().contains(other),
{
}

/// Pressing a key and releasing it again leaves the keys held down as they
/// were, less that key, with no current key, and the key that was current
/// before the press as the last key.
pub proof fn lemma_press_release(
    a: KeyboardInterface,
    b: KeyboardInterface,
    c: KeyboardInterface,
    key: KeyCode,
)
    requires
        KeyboardInterface::key_recorded(a, b, key, true),
        KeyboardInterface::key_recorded(b, c, key, false),
    ensures
        c.pressed() == a.pressed().remove(key),
        c.current() is None,
        c.last() == a.current(),
{
    assert(c.pressed() =~= a.pressed().remove(key));
}

} // verus!
