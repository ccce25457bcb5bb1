//! Mouse buttons as four-phase state machines. A button is identified by its
//! code (left, right, middle, back, forward, then other buttons by number).
use std::collections::HashMap;
use vstd::prelude::*;
use crate::collections::map_keys;

verus! {

broadcast use vstd::std_specs::hash::group_hash_axioms;

/// The phase of a mouse button.
#[derive(Debug, Clone, Copy, PartialEq, Eq, Structural)]
pub enum MouseButtonState {
    Released,
    Pressed,
    JustPressed,
    JustReleased,
}

/// The phase a button enters when it is pressed in `s`.
pub open spec fn mouse_after_press(s: MouseButtonState) -> MouseButtonState {
    match s {
        MouseButtonState::Released | MouseButtonState::JustReleased => MouseButtonState::JustPressed,
        _ => MouseButtonState::Pressed,
    }
}

/// The phase a button enters when it is released in `s`.
pub open spec fn mouse_after_release(s: MouseButtonState) -> MouseButtonState {
    match s {
        MouseButtonState::Pressed | MouseButtonState::JustPressed => MouseButtonState::JustReleased,
        _ => MouseButtonState::Released,
    }
}

/// The phase a button settles into at the start of a frame.
pub open spec fn mouse_settled(s: MouseButtonState) -> MouseButtonState {
    match s {
        MouseButtonState::JustPressed => MouseButtonState::Pressed,
        MouseButtonState::JustReleased => MouseButtonState::Released,
        _ => s,
    }
}

/// Whether the phase counts as held down.
pub open spec fn mouse_is_down(s: MouseButtonState) -> bool {
    s == MouseButtonState::Pressed || s == MouseButtonState::JustPressed
}

/// The phase of `button` in `m`; a button never seen is released.
pub open spec fn mouse_state_of(m: Map<u64, MouseButtonState>, button: u64) -> MouseButtonState {
    if m.contains_key(button) {
        m[button]
    } else {
        MouseButtonState::Released
    }
}

/// Whether `button` has been seen and is held down.
pub open spec fn mouse_held(m: Map<u64, MouseButtonState>, button: u64) -> bool {
    m.contains_key(button) && mouse_is_down(m[button])
}

impl MouseButtonState {
    /// The phase after a press.
    pub fn after_press(self) -> (r: MouseButtonState)
        ensures
            r == mouse_after_press(self),
    {
        match self {
            MouseButtonState::Released | MouseButtonState::JustReleased => MouseButtonState::JustPressed,
            _ => MouseButtonState::Pressed,
        }
    }

    /// The phase after a release.
    pub fn after_release(self) -> (r: MouseButtonState)
        ensures
            r == mouse_after_release(self),
    {
        match self {
            MouseButtonState::Pressed | MouseButtonState::JustPressed => MouseButtonState::JustReleased,
            _ => MouseButtonState::Released,
        }
    }

    /// The phase at the start of the next frame.
    pub fn settled(self) -> (r: MouseButtonState)
        ensures
            r == mouse_settled(self),
    {
        match self {
            MouseButtonState::JustPressed => MouseButtonState::Pressed,
            MouseButtonState::JustReleased => MouseButtonState::Released,
            _ => self,
        }
    }
}

/// A pressed button is down, a released one is up, and a frame later each
/// settles: a press followed by a release, each with its frame, always ends
/// with the button released, whatever phase it started in.
pub proof fn lemma_mouse_press_release_cycle(s: MouseButtonState)
    ensures
        mouse_is_down(mouse_after_press(s)),
        !mouse_is_down(mouse_after_release(s)),
        mouse_settled(mouse_after_press(s)) == MouseButtonState::Pressed,
        mouse_settled(mouse_after_release(mouse_settled(mouse_after_press(s)))) == MouseButtonState::Released,
        mouse_settled(mouse_settled(s)) == mouse_settled(s),
{
}

/// The phases of the mouse buttons.
pub struct MouseButtons {
    button_states: HashMap<u64, MouseButtonState>,
}

impl MouseButtons {
    /// The phase of each button seen so far.
    pub closed spec fn states(&self) -> Map<u64, MouseButtonState> {
        self.button_states@
    }

    /// No button seen.
    pub fn new() -> (r: MouseButtons)
        ensures
            r.states() == Map::<u64, MouseButtonState>::empty(),
    {
        MouseButtons { button_states: HashMap::new() }
    }

    /// The phase of `button` (released if never seen).
    pub fn state(&self, button: u64) -> (r: MouseButtonState)
        ensures
            r == mouse_state_of(self.states(), button),
    {
        match self.button_states.get(&button) {
            Some(s) => *s,
            None => MouseButtonState::Released,
        }
    }

    /// Starts a new frame: each button settles.
    pub fn update(&mut self)
        ensures
            final(self).states().dom() == old(self).states().dom(),
            forall|b: u64| #[trigger] final(self).states().contains_key(b)
                ==> final(self).states()[b] == mouse_settled(old(self).states()[b]),
    {
        let keys = map_keys(&self.button_states);
        let ghost m0 = self.button_states@;
        let mut i: usize = 0;
        while i < keys.len()
            invariant
                i <= keys@.len(),
                keys@.no_duplicates(),
                forall|b: u64| m0.contains_key(b) <==> keys@.contains(b),
                self.button_states@.dom() == m0.dom(),
                forall|j: int| 0 <= j < i ==> self.button_states@[#[trigger] keys@[j]] == mouse_settled(m0[keys@[j]]),
                forall|j: int| i <= j < keys@.len() ==> self.button_states@[#[trigger] keys@[j]] == m0[keys@[j]],
            decreases keys@.len() - i,
        {
            let b = keys[i];
            proof {
                assert(keys@.contains(b));
            }
            let s = self.state(b);
            self.button_states.insert(b, s.settled());
            proof {
                assert(self.button_states@.dom() =~= m0.dom());
                assert forall|j: int| i < j < keys@.len() implies keys@[j] != b by {
                    assert(keys@[j] != keys@[i as int]);
                }
                assert forall|j: int| 0 <= j < i implies keys@[j] != b by {
                    assert(keys@[j] != keys@[i as int]);
                }
            }
            i = i + 1;
        }
        proof {
            assert forall|b: u64| #[trigger] self.button_states@.contains_key(b)
                implies self.button_states@[b] == mouse_settled(m0[b]) by {
                assert(keys@.contains(b));
                let j = choose|j: int| 0 <= j < keys@.len() && keys@[j] == b;
            }
        }
    }

    /// A press (`pressed`) or a release of `button`.
    pub fn handle_button_input(&mut self, button: u64, pressed: bool)
        ensures
            final(self).states() == old(self).states().insert(button,
                if pressed {
                    mouse_after_press(mouse_state_of(old(self).states(), button))
                } else {
                    mouse_after_release(mouse_state_of(old(self).states(), button))
                }),
    {
        let current = self.state(button);
        let next = if pressed { current.after_press() } else { current.after_release() };
        self.button_states.insert(button, next);
    }

    /// Whether `button` is held down.
    pub fn is_button_pressed(&self, button: u64) -> (r: bool)
        ensures
            r == mouse_is_down(mouse_state_of(self.states(), button)),
    {
        match self.state(button) {
            MouseButtonState::Pressed | MouseButtonState::JustPressed => true,
            _ => false,
        }
    }

    /// Whether `button` went down in this frame.
    pub fn is_button_just_pressed(&self, button: u64) -> (r: bool)
        ensures
            r == (mouse_state_of(self.states(), button) == MouseButtonState::JustPressed),
    {
        match self.state(button) {
            MouseButtonState::JustPressed => true,
            _ => false,
        }
    }

    /// Whether `button` went up in this frame.
    pub fn is_button_just_released(&self, button: u64) -> (r: bool)
        ensures
            r == (mouse_state_of(self.states(), button) == MouseButtonState::JustReleased),
    {
        match self.state(button) {
            MouseButtonState::JustReleased => true,
            _ => false,
        }
    }

    /// Forgets every button.
    pub fn reset(&mut self)
        ensures
            final(self).states() == Map::<u64, MouseButtonState>::empty(),
    {
        self.button_states.clear();
    }

    /// The buttons held down, each once, in no particular order.
    pub fn pressed_buttons(&self) -> (r: Vec<u64>)
        ensures
            r@.no_duplicates(),
            forall|b: u64| r@.contains(b) <==> mouse_held(self.states(), b),
    {
        broadcast use vstd::seq_lib::group_seq_properties;
        let keys = map_keys(&self.button_states);
        let mut r: Vec<u64> = Vec::new();
        let mut i: usize = 0;
        while i < keys.len()
            invariant
                i <= keys@.len(),
                keys@.no_duplicates(),
                forall|b: u64| self.states().contains_key(b) <==> keys@.contains(b),
                r@.no_duplicates(),
                forall|b: u64| r@.contains(b) <==> (keys@.take(i as int).contains(b)
                    && mouse_held(self.states(), b)),
            decreases keys@.len() - i,
        {
            let b = keys[i];
            proof {
                assert(keys@.contains(b));
                assert(keys@.take(i + 1) =~= keys@.take(i as int).push(b));
                assert(!keys@.take(i as int).contains(b)) by {
                    if keys@.take(i as int).contains(b) {
                        let j = choose|j: int| 0 <= j < i && #[trigger] keys@.take(i as int)[j] == b;
                        assert(keys@[j] == keys@[i as int]);
                    }
                }
            }
            let ghost r0 = r@;
            if self.is_button_pressed(b) {
                r.push(b);
                proof {
                    assert(!r0.contains(b));
                    assert forall|a: int, c: int| 0 <= a < c < r@.len() implies r@[a] != r@[c] by {
                        if c == r0.len() {
                            assert(r0.contains(r@[a]));
                        } else {
                            assert(r@[a] == r0[a] && r@[c] == r0[c]);
                        }
                    }
                    assert forall|x: u64| r@.contains(x) <==> (r0.contains(x) || x == b) by {
                        if r@.contains(x) && x != b {
                            let t = choose|t: int| 0 <= t < r@.len() && r@[t] == x;
                            assert(r0[t] == x);
                        }
                        if r0.contains(x) {
                            let t = choose|t: int| 0 <= t < r0.len() && r0[t] == x;
                            assert(r@[t] == x);
                        }
                        if x == b {
                            assert(r@[r0.len() as int] == b);
                        }
                    }
                }
            }
            proof {
                assert forall|x: u64| keys@.take(i + 1).contains(x) <==> (keys@.take(i as int).contains(x) || x == b) by {
                    if keys@.take(i + 1).contains(x) && x != b {
                        let t = choose|t: int| 0 <= t < i + 1 && #[trigger] keys@.take(i + 1)[t] == x;
                        assert(keys@.take(i as int)[t] == x);
                    }
                    if keys@.take(i as int).contains(x) {
                        let t = choose|t: int| 0 <= t < i && #[trigger] keys@.take(i as int)[t] == x;
                        assert(keys@.take(i + 1)[t] == x);
                    }
                    if x == b {
                        assert(keys@.take(i + 1)[i as int] == b);
                    }
                }
                assert(r@.contains(b) <==> mouse_held(self.states(), b));
                assert forall|x: u64| r@.contains(x) <==> (keys@.take(i + 1).contains(x)
                    && mouse_held(self.states(), x)) by {
                    if x != b {
                        assert(r@.contains(x) <==> r0.contains(x));
                    }
                }
            }
            i = i + 1;
        }
        proof {
            assert(keys@.take(keys@.len() as int) =~= keys@);
        }
        r
    }

    /// Whether some button is held down.
    pub fn any_button_pressed(&self) -> (r: bool)
        ensures
            r == (exists|b: u64| #[trigger] mouse_held(self.states(), b)),
    {
        let pressed = self.pressed_buttons();
        proof {
            if pressed@.len() > 0 {
                assert(pressed@.contains(pressed@[0]));
            }
            if exists|b: u64| #[trigger] mouse_held(self.states(), b) {
                let b = choose|b: u64| #[trigger] mouse_held(self.states(), b);
                assert(pressed@.contains(b));
            }
        }
        pressed.len() > 0
    }

    /// Whether some button went down in this frame.
    pub fn any_button_just_pressed(&self) -> (r: bool)
        ensures
            r == (exists|b: u64| #[trigger] self.states().contains_key(b)
                && self.states()[b] == MouseButtonState::JustPressed),
    {
        let keys = map_keys(&self.button_states);
        let mut i: usize = 0;
        while i < keys.len()
            invariant
                i <= keys@.len(),
                forall|b: u64| self.states().contains_key(b) <==> keys@.contains(b),
                forall|j: int| 0 <= j < i ==> self.states()[#[trigger] keys@[j]] != MouseButtonState::JustPressed,
            decreases keys@.len() - i,
        {
            proof {
                assert(keys@.contains(keys@[i as int]));
            }
            if self.is_button_just_pressed(keys[i]) {
                return true;
            }
            i = i + 1;
        }
        proof {
            if exists|b: u64| #[trigger] self.states().contains_key(b)
                && self.states()[b] == MouseButtonState::JustPressed {
                let b = choose|b: u64| #[trigger] self.states().contains_key(b)
                    && self.states()[b] == MouseButtonState::JustPressed;
                assert(keys@.contains(b));
                let j = choose|j: int| 0 <= j < keys@.len() && keys@[j] == b;
            }
        }
        false
    }
}

impl Default for MouseButtons {
    fn default() -> (r: MouseButtons)
        ensures
            r.states() == Map::<u64, MouseButtonState>::empty(),
    {
        MouseButtons::new()
    }
}

} // verus!
