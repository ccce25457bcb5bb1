//! Keyboard state. A key is identified by its code: the position of the key
//! in the platform's key list (`KEY_A`, `CONTROL_LEFT`, ...).
use std::collections::HashSet;
use vstd::prelude::*;
use crate::collections::{copy_set, set_elements};

verus! {

broadcast use vstd::std_specs::hash::group_hash_axioms;

pub const DIGIT_0: u32 = 5;
pub const DIGIT_1: u32 = 6;
pub const DIGIT_2: u32 = 7;
pub const DIGIT_3: u32 = 8;
pub const DIGIT_4: u32 = 9;
pub const DIGIT_5: u32 = 10;
pub const DIGIT_6: u32 = 11;
pub const DIGIT_7: u32 = 12;
pub const DIGIT_8: u32 = 13;
pub const DIGIT_9: u32 = 14;
pub const KEY_A: u32 = 19;
pub const KEY_B: u32 = 20;
pub const KEY_C: u32 = 21;
pub const KEY_D: u32 = 22;
pub const KEY_E: u32 = 23;
pub const KEY_F: u32 = 24;
pub const KEY_G: u32 = 25;
pub const KEY_H: u32 = 26;
pub const KEY_I: u32 = 27;
pub const KEY_J: u32 = 28;
pub const KEY_K: u32 = 29;
pub const KEY_L: u32 = 30;
pub const KEY_M: u32 = 31;
pub const KEY_N: u32 = 32;
pub const KEY_O: u32 = 33;
pub const KEY_P: u32 = 34;
pub const KEY_Q: u32 = 35;
pub const KEY_R: u32 = 36;
pub const KEY_S: u32 = 37;
pub const KEY_T: u32 = 38;
pub const KEY_U: u32 = 39;
pub const KEY_V: u32 = 40;
pub const KEY_W: u32 = 41;
pub const KEY_X: u32 = 42;
pub const KEY_Y: u32 = 43;
pub const KEY_Z: u32 = 44;
pub const ALT_LEFT: u32 = 50;
pub const CONTROL_LEFT: u32 = 55;
pub const SHIFT_LEFT: u32 = 60;
pub const SPACE: u32 = 62;
pub const TAB: u32 = 63;
pub const ARROW_DOWN: u32 = 79;
pub const ARROW_LEFT: u32 = 80;
pub const ARROW_RIGHT: u32 = 81;
pub const ARROW_UP: u32 = 82;
pub const F1: u32 = 159;
pub const F2: u32 = 160;
pub const F3: u32 = 161;
pub const F4: u32 = 162;
pub const F5: u32 = 163;
pub const F6: u32 = 164;
pub const F7: u32 = 165;
pub const F8: u32 = 166;
pub const F9: u32 = 167;
pub const F10: u32 = 168;
pub const F11: u32 = 169;
pub const F12: u32 = 170;

/// Which keys are down now, were down at the last update, and went down or
/// up since the last update.
pub struct KeyboardState {
    current_keys: HashSet<u32>,
    previous_keys: HashSet<u32>,
    just_pressed: HashSet<u32>,
    just_released: HashSet<u32>,
}

impl KeyboardState {
    /// The keys that are down.
    pub closed spec fn down(&self) -> Set<u32> {
        self.current_keys@
    }

    /// The keys that were down at the last update.
    pub closed spec fn previous(&self) -> Set<u32> {
        self.previous_keys@
    }

    /// The keys that went down since the last update.
    pub closed spec fn pressed_now(&self) -> Set<u32> {
        self.just_pressed@
    }

    /// The keys that went up since the last update.
    pub closed spec fn released_now(&self) -> Set<u32> {
        self.just_released@
    }

    /// A keyboard with no key down.
    pub fn new() -> (r: KeyboardState)
        ensures
            r.down() == Set::<u32>::empty(),
            r.previous() == Set::<u32>::empty(),
            r.pressed_now() == Set::<u32>::empty(),
            r.released_now() == Set::<u32>::empty(),
    {
        KeyboardState {
            current_keys: HashSet::new(),
            previous_keys: HashSet::new(),
            just_pressed: HashSet::new(),
            just_released: HashSet::new(),
        }
    }

    /// A key event: `pressed` tells a press from a release.
    pub fn handle_key_event(&mut self, key: u32, pressed: bool)
        ensures
            pressed ==> key_pressed(*old(self), *final(self), key),
            !pressed ==> key_released(*old(self), *final(self), key),
    {
        if pressed {
            self.simulate_key_press(key);
        } else {
            self.simulate_key_release(key);
        }
    }

    /// Starts a new frame: the keys down now become the previous keys and
    /// nothing has just been pressed or released.
    pub fn update(&mut self)
        ensures
            final(self).down() == old(self).down(),
            final(self).previous() == old(self).down(),
            final(self).pressed_now() == Set::<u32>::empty(),
            final(self).released_now() == Set::<u32>::empty(),
    {
        self.previous_keys = copy_set(&self.current_keys);
        self.just_pressed.clear();
        self.just_released.clear();
    }

    /// Whether `key` is down.
    pub fn is_key_down(&self, key: u32) -> (r: bool)
        ensures
            r == self.down().contains(key),
    {
        self.current_keys.contains(&key)
    }

    /// Whether `key` is up.
    pub fn is_key_up(&self, key: u32) -> (r: bool)
        ensures
            r == !self.down().contains(key),
    {
        !self.current_keys.contains(&key)
    }

    /// Whether `key` went down since the last update.
    pub fn is_key_just_pressed(&self, key: u32) -> (r: bool)
        ensures
            r == self.pressed_now().contains(key),
    {
        self.just_pressed.contains(&key)
    }

    /// Whether `key` went up since the last update.
    pub fn is_key_just_released(&self, key: u32) -> (r: bool)
        ensures
            r == self.released_now().contains(key),
    {
        self.just_released.contains(&key)
    }

    /// Whether `key` was down at the last update.
    pub fn was_key_down(&self, key: u32) -> (r: bool)
        ensures
            r == self.previous().contains(key),
    {
        self.previous_keys.contains(&key)
    }

    /// The keys that are down, each once, in no particular order.
    pub fn pressed_keys(&self) -> (r: Vec<u32>)
        ensures
            r@.no_duplicates(),
            r@.to_set() == self.down(),
    {
        set_elements(&self.current_keys)
    }

    /// The keys that went down since the last update, each once.
    pub fn just_pressed_keys(&self) -> (r: Vec<u32>)
        ensures
            r@.no_duplicates(),
            r@.to_set() == self.pressed_now(),
    {
        set_elements(&self.just_pressed)
    }

    /// The keys that went up since the last update, each once.
    pub fn just_released_keys(&self) -> (r: Vec<u32>)
        ensures
            r@.no_duplicates(),
            r@.to_set() == self.released_now(),
    {
        set_elements(&self.just_released)
    }

    /// Whether some key is down.
    pub fn any_key_down(&self) -> (r: bool)
        ensures
            r == !self.down().is_empty(),
    {
        !self.current_keys.is_empty()
    }

    /// Whether some key went down since the last update.
    pub fn any_key_just_pressed(&self) -> (r: bool)
        ensures
            r == !self.pressed_now().is_empty(),
    {
        !self.just_pressed.is_empty()
    }

    /// Whether every key of `keys` is down (true of no keys).
    pub fn are_keys_down(&self, keys: &[u32]) -> (r: bool)
        ensures
            r == (forall|i: int| 0 <= i < keys@.len() ==> self.down().contains(#[trigger] keys@[i])),
    {
        let mut i: usize = 0;
        while i < keys.len()
            invariant
                i <= keys@.len(),
                forall|j: int| 0 <= j < i ==> self.down().contains(#[trigger] keys@[j]),
            decreases keys@.len() - i,
        {
            if !self.is_key_down(keys[i]) {
                return false;
            }
            i = i + 1;
        }
        true
    }

    /// Whether some key of `keys` is down.
    pub fn any_keys_down(&self, keys: &[u32]) -> (r: bool)
        ensures
            r == (exists|i: int| 0 <= i < keys@.len() && self.down().contains(#[trigger] keys@[i])),
    {
        let mut i: usize = 0;
        while i < keys.len()
            invariant
                i <= keys@.len(),
                forall|j: int| 0 <= j < i ==> !self.down().contains(#[trigger] keys@[j]),
            decreases keys@.len() - i,
        {
            if self.is_key_down(keys[i]) {
                return true;
            }
            i = i + 1;
        }
        false
    }

    /// Forgets every key.
    pub fn reset(&mut self)
        ensures
            final(self).down() == Set::<u32>::empty(),
            final(self).previous() == Set::<u32>::empty(),
            final(self).pressed_now() == Set::<u32>::empty(),
            final(self).released_now() == Set::<u32>::empty(),
    {
        self.current_keys.clear();
        self.previous_keys.clear();
        self.just_pressed.clear();
        self.just_released.clear();
    }

    /// Presses `key`: a key that is up goes down and counts as just pressed;
    /// a key that is already down changes nothing.
    pub fn simulate_key_press(&mut self, key: u32)
        ensures
            key_pressed(*old(self), *final(self), key),
    {
        if !self.current_keys.contains(&key) {
            self.current_keys.insert(key);
            self.just_pressed.insert(key);
        } else {
            assert(self.current_keys@ =~= self.current_keys@.insert(key));
        }
    }

    /// Releases `key`: a key that is down goes up and counts as just
    /// released; a key that is up changes nothing.
    pub fn simulate_key_release(&mut self, key: u32)
        ensures
            key_released(*old(self), *final(self), key),
    {
        if self.current_keys.contains(&key) {
            self.current_keys.remove(&key);
            self.just_released.insert(key);
        } else {
            assert(self.current_keys@ =~= self.current_keys@.remove(key));
        }
    }
}

/// `after` is `before` with `key` pressed.
pub open spec fn key_pressed(before: KeyboardState, after: KeyboardState, key: u32) -> bool {
    &&& after.down() == before.down().insert(key)
    &&& after.previous() == before.previous()
    &&& after.released_now() == before.released_now()
    &&& after.pressed_now() == if before.down().contains(key) {
        before.pressed_now()
    } else {
        before.pressed_now().insert(key)
    }
}

/// `after` is `before` with `key` released.
pub open spec fn key_released(before: KeyboardState, after: KeyboardState, key: u32) -> bool {
    &&& after.down() == before.down().remove(key)
    &&& after.previous() == before.previous()
    &&& after.pressed_now() == before.pressed_now()
    &&& after.released_now() == if before.down().contains(key) {
        before.released_now().insert(key)
    } else {
        before.released_now()
    }
}

impl Default for KeyboardState {
    fn default() -> (r: KeyboardState)
        ensures
            r.down() == Set::<u32>::empty(),
            r.previous() == Set::<u32>::empty(),
            r.pressed_now() == Set::<u32>::empty(),
            r.released_now() == Set::<u32>::empty(),
    {
        KeyboardState::new()
    }
}

/// Pressing a key and releasing it leaves it up, whatever came before; a key
/// that was up comes back up with both a press and a release on record.
pub proof fn lemma_press_release(s0: KeyboardState, s1: KeyboardState, s2: KeyboardState, key: u32)
    requires
        key_pressed(s0, s1, key),
        key_released(s1, s2, key),
    ensures
        !s2.down().contains(key),
        s2.down() == s0.down().remove(key),
        s2.released_now().contains(key),
        !s0.down().contains(key) ==> s2.pressed_now().contains(key),
{
}

/// Pressing a key that is already down changes nothing.
pub proof fn lemma_press_is_idempotent(s0: KeyboardState, s1: KeyboardState, key: u32)
    requires
        s0.down().contains(key),
        key_pressed(s0, s1, key),
    ensures
        s1.down() == s0.down(),
        s1.pressed_now() == s0.pressed_now(),
        s1.released_now() == s0.released_now(),
        s1.previous() == s0.previous(),
{
    assert(s1.down() =~= s0.down());
}

/// A key combination: the keys it needs and whether no other key may be down.
#[derive(Debug, Clone, PartialEq)]
pub struct KeyCombination {
    pub keys: Vec<u32>,
    pub require_exact: bool,
}

impl KeyCombination {
    /// The combination of `keys`; other keys may be down too.
    pub fn new(keys: Vec<u32>) -> (r: KeyCombination)
        ensures
            r.keys@ == keys@,
            !r.require_exact,
    {
        KeyCombination { keys, require_exact: false }
    }

    /// The combination of exactly `keys`.
    pub fn exact(keys: Vec<u32>) -> (r: KeyCombination)
        ensures
            r.keys@ == keys@,
            r.require_exact,
    {
        KeyCombination { keys, require_exact: true }
    }

    /// The combination of one key.
    pub fn single(key: u32) -> (r: KeyCombination)
        ensures
            r.keys@ == seq![key],
            !r.require_exact,
    {
        let mut keys: Vec<u32> = Vec::new();
        keys.push(key);
        KeyCombination::new(keys)
    }

    /// Whether the combination holds: all its keys are down, and for an
    /// exact one, as many keys are down as it lists.
    pub fn is_triggered(&self, keyboard: &KeyboardState) -> (r: bool)
        ensures
            r == combination_holds(self.keys@, self.require_exact, keyboard.down()),
    {
        if self.require_exact {
            let pressed = keyboard.pressed_keys();
            proof {
                pressed@.unique_seq_to_set();
            }
            if pressed.len() != self.keys.len() {
                return false;
            }
            let mut i: usize = 0;
            while i < self.keys.len()
                invariant
                    i <= self.keys@.len(),
                    pressed@.to_set() == keyboard.down(),
                    forall|j: int| 0 <= j < i ==> keyboard.down().contains(#[trigger] self.keys@[j]),
                decreases self.keys@.len() - i,
            {
                let k = self.keys[i];
                let mut found = false;
                let mut t: usize = 0;
                while t < pressed.len()
                    invariant
                        t <= pressed@.len(),
                        found == (exists|u: int| 0 <= u < t && pressed@[u] == k),
                    decreases pressed@.len() - t,
                {
                    if pressed[t] == k {
                        found = true;
                    }
                    t = t + 1;
                }
                proof {
                    if found {
                        let u = choose|u: int| 0 <= u < pressed@.len() && pressed@[u] == k;
                        assert(pressed@.to_set().contains(pressed@[u]));
                    } else {
                        if keyboard.down().contains(k) {
                            assert(pressed@.to_set().contains(k));
                            assert(pressed@.contains(k));
                        }
                    }
                }
                if !found {
                    return false;
                }
                i = i + 1;
            }
            proof {
                pressed@.unique_seq_to_set();
            }
            true
        } else {
            keyboard.are_keys_down(self.keys.as_slice())
        }
    }

    /// Whether the combination has just come to hold: it has keys, one of
    /// them went down since the last update, and all of them are down.
    pub fn is_just_triggered(&self, keyboard: &KeyboardState) -> (r: bool)
        ensures
            r == (self.keys@.len() > 0
                && (exists|i: int| 0 <= i < self.keys@.len() && keyboard.pressed_now().contains(#[trigger] self.keys@[i]))
                && (forall|i: int| 0 <= i < self.keys@.len() ==> keyboard.down().contains(#[trigger] self.keys@[i]))),
    {
        if self.keys.len() == 0 {
            return false;
        }
        let mut any = false;
        let mut i: usize = 0;
        while i < self.keys.len()
            invariant
                i <= self.keys@.len(),
                any == (exists|j: int| 0 <= j < i && keyboard.pressed_now().contains(#[trigger] self.keys@[j])),
            decreases self.keys@.len() - i,
        {
            if keyboard.is_key_just_pressed(self.keys[i]) {
                any = true;
            }
            i = i + 1;
        }
        any && keyboard.are_keys_down(self.keys.as_slice())
    }
}

/// Whether the combination of `keys` holds on the keys `down`.
pub open spec fn combination_holds(keys: Seq<u32>, exact: bool, down: Set<u32>) -> bool {
    &&& forall|i: int| 0 <= i < keys.len() ==> down.contains(#[trigger] keys[i])
    &&& exact ==> down.len() == keys.len()
}

/// The usual shortcuts and key groups.
pub struct CommonKeyCombinations;

impl CommonKeyCombinations {
    /// Ctrl+C.
    pub fn copy() -> (r: KeyCombination)
        ensures
            r.keys@ == seq![CONTROL_LEFT, KEY_C],
            !r.require_exact,
    {
        KeyCombination::new(vec![CONTROL_LEFT, KEY_C])
    }

    /// Ctrl+V.
    pub fn paste() -> (r: KeyCombination)
        ensures
            r.keys@ == seq![CONTROL_LEFT, KEY_V],
            !r.require_exact,
    {
        KeyCombination::new(vec![CONTROL_LEFT, KEY_V])
    }

    /// Ctrl+Z.
    pub fn undo() -> (r: KeyCombination)
        ensures
            r.keys@ == seq![CONTROL_LEFT, KEY_Z],
            !r.require_exact,
    {
        KeyCombination::new(vec![CONTROL_LEFT, KEY_Z])
    }

    /// Ctrl+Y, or Ctrl+Shift+Z.
    pub fn redo() -> (r: Vec<KeyCombination>)
        ensures
            r@.len() == 2,
            r@[0].keys@ == seq![CONTROL_LEFT, KEY_Y],
            r@[1].keys@ == seq![CONTROL_LEFT, SHIFT_LEFT, KEY_Z],
            !r@[0].require_exact && !r@[1].require_exact,
    {
        let a = KeyCombination::new(vec![CONTROL_LEFT, KEY_Y]);
        let b = KeyCombination::new(vec![CONTROL_LEFT, SHIFT_LEFT, KEY_Z]);
        let mut r: Vec<KeyCombination> = Vec::new();
        r.push(a);
        r.push(b);
        r
    }

    /// Alt+Tab.
    pub fn alt_tab() -> (r: KeyCombination)
        ensures
            r.keys@ == seq![ALT_LEFT, TAB],
            !r.require_exact,
    {
        KeyCombination::new(vec![ALT_LEFT, TAB])
    }

    /// Alt+F4.
    pub fn alt_f4() -> (r: KeyCombination)
        ensures
            r.keys@ == seq![ALT_LEFT, F4],
            !r.require_exact,
    {
        KeyCombination::new(vec![ALT_LEFT, F4])
    }

    /// The arrow keys: up, down, left, right.
    pub fn arrow_keys() -> (r: Vec<u32>)
        ensures
            r@ == seq![ARROW_UP, ARROW_DOWN, ARROW_LEFT, ARROW_RIGHT],
    {
        vec![ARROW_UP, ARROW_DOWN, ARROW_LEFT, ARROW_RIGHT]
    }

    /// W, A, S, D.
    pub fn wasd_keys() -> (r: Vec<u32>)
        ensures
            r@ == seq![KEY_W, KEY_A, KEY_S, KEY_D],
    {
        vec![KEY_W, KEY_A, KEY_S, KEY_D]
    }

    /// F1 to F12.
    pub fn function_keys() -> (r: Vec<u32>)
        ensures
            r@ == seq![F1, F2, F3, F4, F5, F6, F7, F8, F9, F10, F11, F12],
    {
        vec![F1, F2, F3, F4, F5, F6, F7, F8, F9, F10, F11, F12]
    }

    /// The digits 1 to 9, then 0.
    pub fn number_keys() -> (r: Vec<u32>)
        ensures
            r@ == seq![DIGIT_1, DIGIT_2, DIGIT_3, DIGIT_4, DIGIT_5, DIGIT_6, DIGIT_7, DIGIT_8, DIGIT_9, DIGIT_0],
    {
        vec![DIGIT_1, DIGIT_2, DIGIT_3, DIGIT_4, DIGIT_5, DIGIT_6, DIGIT_7, DIGIT_8, DIGIT_9, DIGIT_0]
    }

    /// A to Z.
    pub fn letter_keys() -> (r: Vec<u32>)
        ensures
            r@.len() == 26,
            forall|i: int| 0 <= i < 26 ==> #[trigger] r@[i] == KEY_A + i,
    {
        let mut r: Vec<u32> = Vec::new();
        let mut k: u32 = KEY_A;
        while k <= KEY_Z
            invariant
                KEY_A <= k <= KEY_Z + 1,
                r@.len() == k - KEY_A,
                forall|i: int| 0 <= i < r@.len() ==> #[trigger] r@[i] == KEY_A + i,
            decreases KEY_Z + 1 - k,
        {
            r.push(k);
            k = k + 1;
        }
        r
    }
}

} // verus!
