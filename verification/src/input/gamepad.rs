//! Gamepads: buttons as four-phase state machines, connection state and the
//! manager that hands out gamepad ids.
use std::collections::HashMap;
use vstd::prelude::*;
use crate::collections::map_keys;

verus! {

broadcast use vstd::std_specs::hash::group_hash_axioms;

/// A gamepad button.
#[derive(Debug, Clone, Copy, PartialEq, Eq, Hash, Structural)]
pub enum GamepadButton {
    South,
    East,
    West,
    North,
    LeftBumper,
    RightBumper,
    LeftTrigger,
    RightTrigger,
    DPadUp,
    DPadDown,
    DPadLeft,
    DPadRight,
    LeftStick,
    RightStick,
    Select,
    Start,
    Home,
    Custom(u8),
}

/// The number by which a button is stored: the named buttons in order from
/// 0, then custom button `n` as `17 + n`.
pub open spec fn button_code(b: GamepadButton) -> u64 {
    match b {
        GamepadButton::South => 0,
        GamepadButton::East => 1,
        GamepadButton::West => 2,
        GamepadButton::North => 3,
        GamepadButton::LeftBumper => 4,
        GamepadButton::RightBumper => 5,
        GamepadButton::LeftTrigger => 6,
        GamepadButton::RightTrigger => 7,
        GamepadButton::DPadUp => 8,
        GamepadButton::DPadDown => 9,
        GamepadButton::DPadLeft => 10,
        GamepadButton::DPadRight => 11,
        GamepadButton::LeftStick => 12,
        GamepadButton::RightStick => 13,
        GamepadButton::Select => 14,
        GamepadButton::Start => 15,
        GamepadButton::Home => 16,
        GamepadButton::Custom(n) => (17 + n) as u64,
    }
}

/// Different buttons are stored under different numbers.
pub proof fn lemma_button_code_injective(a: GamepadButton, b: GamepadButton)
    ensures
        button_code(a) == button_code(b) ==> a == b,
{
}

impl GamepadButton {
    /// The number under which the button is stored.
    pub fn code(self) -> (r: u64)
        ensures
            r == button_code(self),
    {
        match self {
            GamepadButton::South => 0,
            GamepadButton::East => 1,
            GamepadButton::West => 2,
            GamepadButton::North => 3,
            GamepadButton::LeftBumper => 4,
            GamepadButton::RightBumper => 5,
            GamepadButton::LeftTrigger => 6,
            GamepadButton::RightTrigger => 7,
            GamepadButton::DPadUp => 8,
            GamepadButton::DPadDown => 9,
            GamepadButton::DPadLeft => 10,
            GamepadButton::DPadRight => 11,
            GamepadButton::LeftStick => 12,
            GamepadButton::RightStick => 13,
            GamepadButton::Select => 14,
            GamepadButton::Start => 15,
            GamepadButton::Home => 16,
            GamepadButton::Custom(n) => 17 + n as u64,
        }
    }
}

/// A gamepad axis.
#[derive(Debug, Clone, Copy, PartialEq, Eq, Hash, Structural)]
pub enum GamepadAxis {
    LeftStickX,
    LeftStickY,
    RightStickX,
    RightStickY,
    LeftTrigger,
    RightTrigger,
    Custom(u8),
}

/// The phase of a gamepad button.
#[derive(Debug, Clone, Copy, PartialEq, Eq, Structural)]
pub enum GamepadButtonState {
    Released,
    Pressed,
    JustPressed,
    JustReleased,
}

/// The phase a button in `s` enters when it is reported down (`pressed`) or up.
pub open spec fn gamepad_next(s: GamepadButtonState, pressed: bool) -> GamepadButtonState {
    match (pressed, s) {
        (true, GamepadButtonState::Released) | (true, GamepadButtonState::JustReleased) => GamepadButtonState::JustPressed,
        (true, _) => GamepadButtonState::Pressed,
        (false, GamepadButtonState::Pressed) | (false, GamepadButtonState::JustPressed) => GamepadButtonState::JustReleased,
        (false, _) => GamepadButtonState::Released,
    }
}

/// The phase a button settles into at the start of a frame.
pub open spec fn gamepad_settled(s: GamepadButtonState) -> GamepadButtonState {
    match s {
        GamepadButtonState::JustPressed => GamepadButtonState::Pressed,
        GamepadButtonState::JustReleased => GamepadButtonState::Released,
        _ => s,
    }
}

/// The phase of the button stored under `code` in `m` (released if never seen).
pub open spec fn gamepad_state_of(m: Map<u64, GamepadButtonState>, code: u64) -> GamepadButtonState {
    if m.contains_key(code) {
        m[code]
    } else {
        GamepadButtonState::Released
    }
}

/// Reporting a button down twice leaves it held; up twice leaves it released.
pub proof fn lemma_gamepad_repeated_reports(s: GamepadButtonState)
    ensures
        gamepad_next(gamepad_next(s, true), true) == GamepadButtonState::Pressed,
        gamepad_next(gamepad_next(s, false), false) == GamepadButtonState::Released,
        gamepad_settled(gamepad_next(s, true)) == GamepadButtonState::Pressed,
        gamepad_settled(gamepad_next(s, false)) == GamepadButtonState::Released,
{
}

impl GamepadButtonState {
    /// The phase after a report of the button down (`pressed`) or up.
    pub fn next(self, pressed: bool) -> (r: GamepadButtonState)
        ensures
            r == gamepad_next(self, pressed),
    {
        match (pressed, self) {
            (true, GamepadButtonState::Released) | (true, GamepadButtonState::JustReleased) => GamepadButtonState::JustPressed,
            (true, _) => GamepadButtonState::Pressed,
            (false, GamepadButtonState::Pressed) | (false, GamepadButtonState::JustPressed) => GamepadButtonState::JustReleased,
            (false, _) => GamepadButtonState::Released,
        }
    }

    /// The phase at the start of the next frame.
    pub fn settled(self) -> (r: GamepadButtonState)
        ensures
            r == gamepad_settled(self),
    {
        match self {
            GamepadButtonState::JustPressed => GamepadButtonState::Pressed,
            GamepadButtonState::JustReleased => GamepadButtonState::Released,
            _ => self,
        }
    }
}

/// One gamepad: its buttons, whether it is connected, its id and name. Its
/// axis values are floating point and kept beside it.
#[derive(Debug, Clone)]
pub struct GamepadState {
    button_states: HashMap<u64, GamepadButtonState>,
    connected: bool,
    id: u32,
    name: String,
}

impl GamepadState {
    /// The phases of the buttons seen, by button code.
    pub closed spec fn buttons(&self) -> Map<u64, GamepadButtonState> {
        self.button_states@
    }

    /// Whether the gamepad is connected.
    pub closed spec fn spec_connected(&self) -> bool {
        self.connected
    }

    /// The gamepad's id.
    pub closed spec fn spec_id(&self) -> u32 {
        self.id
    }

    /// The gamepad's name.
    pub closed spec fn spec_name(&self) -> Seq<char> {
        self.name@
    }

    /// A connected gamepad with no button seen.
    pub fn new(id: u32, name: &str) -> (r: GamepadState)
        ensures
            r.buttons() == Map::<u64, GamepadButtonState>::empty(),
            r.spec_connected(),
            r.spec_id() == id,
            r.spec_name() == name@,
    {
        GamepadState {
            button_states: HashMap::new(),
            connected: true,
            id,
            name: crate::collections::owned(name),
        }
    }

    /// Starts a new frame: each button settles.
    pub fn update(&mut self)
        ensures
            final(self).buttons().dom() == old(self).buttons().dom(),
            forall|b: u64| #[trigger] final(self).buttons().contains_key(b)
                ==> final(self).buttons()[b] == gamepad_settled(old(self).buttons()[b]),
            final(self).spec_connected() == old(self).spec_connected(),
            final(self).spec_id() == old(self).spec_id(),
            final(self).spec_name() == old(self).spec_name(),
    {
        let keys = map_keys(&self.button_states);
        let ghost m0 = self.button_states@;
        let mut i: usize = 0;
        while i < keys.len()
            invariant
                i <= keys@.len(),
                keys@.no_duplicates(),
                forall|b: u64| m0.contains_key(b) <==> keys@.contains(b),
                self.button_states@.dom() == m0.dom(),
                forall|j: int| 0 <= j < i ==> self.button_states@[#[trigger] keys@[j]] == gamepad_settled(m0[keys@[j]]),
                forall|j: int| i <= j < keys@.len() ==> self.button_states@[#[trigger] keys@[j]] == m0[keys@[j]],
                self.connected == old(self).connected,
                self.id == old(self).id,
                self.name@ == old(self).name@,
            decreases keys@.len() - i,
        {
            let b = keys[i];
            proof {
                assert(keys@.contains(b));
            }
            let s = match self.button_states.get(&b) {
                Some(s) => *s,
                None => GamepadButtonState::Released,
            };
            self.button_states.insert(b, s.settled());
            proof {
                assert(self.button_states@.dom() =~= m0.dom());
                assert forall|j: int| i < j < keys@.len() implies keys@[j] != b by {
                    assert(keys@[j] != keys@[i as int]);
                }
                assert forall|j: int| 0 <= j < i implies keys@[j] != b by {
                    assert(keys@[j] != keys@[i as int]);
                }
            }
            i = i + 1;
        }
        proof {
            assert forall|b: u64| #[trigger] self.button_states@.contains_key(b)
                implies self.button_states@[b] == gamepad_settled(m0[b]) by {
                assert(keys@.contains(b));
                let j = choose|j: int| 0 <= j < keys@.len() && keys@[j] == b;
            }
        }
    }

    /// The phase of `button`.
    pub fn button_state(&self, button: GamepadButton) -> (r: GamepadButtonState)
        ensures
            r == gamepad_state_of(self.buttons(), button_code(button)),
    {
        match self.button_states.get(&button.code()) {
            Some(s) => *s,
            None => GamepadButtonState::Released,
        }
    }

    /// A report of `button` down (`pressed`) or up.
    pub fn set_button_state(&mut self, button: GamepadButton, pressed: bool)
        ensures
            final(self).buttons() == old(self).buttons().insert(button_code(button),
                gamepad_next(gamepad_state_of(old(self).buttons(), button_code(button)), pressed)),
            final(self).spec_connected() == old(self).spec_connected(),
            final(self).spec_id() == old(self).spec_id(),
            final(self).spec_name() == old(self).spec_name(),
    {
        let current = self.button_state(button);
        self.button_states.insert(button.code(), current.next(pressed));
    }

    /// Whether `button` is held down.
    pub fn is_button_pressed(&self, button: GamepadButton) -> (r: bool)
        ensures
            r == (gamepad_state_of(self.buttons(), button_code(button)) == GamepadButtonState::Pressed
                || gamepad_state_of(self.buttons(), button_code(button)) == GamepadButtonState::JustPressed),
    {
        match self.button_state(button) {
            GamepadButtonState::Pressed | GamepadButtonState::JustPressed => true,
            _ => false,
        }
    }

    /// Whether `button` went down in this frame.
    pub fn is_button_just_pressed(&self, button: GamepadButton) -> (r: bool)
        ensures
            r == (gamepad_state_of(self.buttons(), button_code(button)) == GamepadButtonState::JustPressed),
    {
        match self.button_state(button) {
            GamepadButtonState::JustPressed => true,
            _ => false,
        }
    }

    /// Whether `button` went up in this frame.
    pub fn is_button_just_released(&self, button: GamepadButton) -> (r: bool)
        ensures
            r == (gamepad_state_of(self.buttons(), button_code(button)) == GamepadButtonState::JustReleased),
    {
        match self.button_state(button) {
            GamepadButtonState::JustReleased => true,
            _ => false,
        }
    }

    /// Whether the gamepad is connected.
    pub fn is_connected(&self) -> (r: bool)
        ensures
            r == self.spec_connected(),
    {
        self.connected
    }

    /// Marks the gamepad connected or not.
    pub fn set_connected(&mut self, connected: bool)
        ensures
            final(self).spec_connected() == connected,
            final(self).buttons() == old(self).buttons(),
            final(self).spec_id() == old(self).spec_id(),
            final(self).spec_name() == old(self).spec_name(),
    {
        self.connected = connected;
    }

    /// The gamepad's id.
    pub fn id(&self) -> (r: u32)
        ensures
            r == self.spec_id(),
    {
        self.id
    }

    /// The gamepad's name.
    pub fn name(&self) -> (r: &str)
        ensures
            r@ == self.spec_name(),
    {
        self.name.as_str()
    }

    /// Forgets every button.
    pub fn reset(&mut self)
        ensures
            final(self).buttons() == Map::<u64, GamepadButtonState>::empty(),
            final(self).spec_connected() == old(self).spec_connected(),
            final(self).spec_id() == old(self).spec_id(),
            final(self).spec_name() == old(self).spec_name(),
    {
        self.button_states.clear();
    }
}

/// The gamepads by id, and the id the next one will get.
#[derive(Debug)]
pub struct GamepadManager {
    gamepads: HashMap<u32, GamepadState>,
    next_id: u32,
}

/// Whether the gamepad under `id` in `m` is connected.
pub open spec fn pad_connected(m: Map<u32, GamepadState>, id: u32) -> bool {
    m.contains_key(id) && m[id].spec_connected()
}

impl GamepadManager {
    /// The gamepads by id.
    pub closed spec fn pads(&self) -> Map<u32, GamepadState> {
        self.gamepads@
    }

    /// The id the next gamepad will get.
    pub closed spec fn spec_next_id(&self) -> u32 {
        self.next_id
    }

    /// Every gamepad is stored under its own id, and every id is below the next one.
    pub closed spec fn wf(&self) -> bool {
        forall|id: u32| #[trigger] self.gamepads@.contains_key(id)
            ==> self.gamepads@[id].spec_id() == id && id < self.next_id
    }

    /// No gamepads.
    pub fn new() -> (r: GamepadManager)
        ensures
            r.wf(),
            r.pads() == Map::<u32, GamepadState>::empty(),
            r.spec_next_id() == 0,
    {
        GamepadManager { gamepads: HashMap::new(), next_id: 0 }
    }

    /// Starts a new frame for every gamepad.
    pub fn update(&mut self)
        requires
            old(self).wf(),
        ensures
            final(self).wf(),
            final(self).pads().dom() == old(self).pads().dom(),
            final(self).spec_next_id() == old(self).spec_next_id(),
            forall|id: u32| #[trigger] final(self).pads().contains_key(id) ==> {
                let (a, b) = (old(self).pads()[id], final(self).pads()[id]);
                &&& b.buttons().dom() == a.buttons().dom()
                &&& forall|c: u64| #[trigger] b.buttons().contains_key(c)
                    ==> b.buttons()[c] == gamepad_settled(a.buttons()[c])
                &&& b.spec_connected() == a.spec_connected()
                &&& b.spec_id() == a.spec_id()
                &&& b.spec_name() == a.spec_name()
            },
    {
        let ids = map_keys(&self.gamepads);
        let ghost m0 = self.gamepads@;
        let mut i: usize = 0;
        while i < ids.len()
            invariant
                i <= ids@.len(),
                ids@.no_duplicates(),
                forall|id: u32| m0.contains_key(id) <==> ids@.contains(id),
                self.gamepads@.dom() == m0.dom(),
                self.next_id == old(self).next_id,
                forall|j: int| 0 <= j < i ==> settled_pad(m0[ids@[j]], #[trigger] self.gamepads@[ids@[j]]),
                forall|j: int| i <= j < ids@.len() ==> #[trigger] self.gamepads@[ids@[j]] == m0[ids@[j]],
                m0 == old(self).gamepads@,
                old(self).wf(),
            decreases ids@.len() - i,
        {
            let id = ids[i];
            proof {
                assert(ids@.contains(id));
            }
            let mut pad = self.gamepads.remove(&id).unwrap();
            pad.update();
            self.gamepads.insert(id, pad);
            proof {
                assert(self.gamepads@.dom() =~= m0.dom());
                assert forall|j: int| i < j < ids@.len() implies ids@[j] != id by {
                    assert(ids@[j] != ids@[i as int]);
                }
                assert forall|j: int| 0 <= j < i implies ids@[j] != id by {
                    assert(ids@[j] != ids@[i as int]);
                }
            }
            i = i + 1;
        }
        proof {
            assert forall|id: u32| #[trigger] self.gamepads@.contains_key(id)
                implies settled_pad(m0[id], self.gamepads@[id]) by {
                assert(ids@.contains(id));
                let j = choose|j: int| 0 <= j < ids@.len() && ids@[j] == id;
            }
        }
    }

    /// Adds a connected gamepad named `name` under the next id and returns the id.
    pub fn connect_gamepad(&mut self, name: &str) -> (r: u32)
        requires
            old(self).wf(),
            old(self).spec_next_id() < u32::MAX,
        ensures
            final(self).wf(),
            r == old(self).spec_next_id(),
            final(self).spec_next_id() == r + 1,
            !old(self).pads().contains_key(r),
            final(self).pads().dom() == old(self).pads().dom().insert(r),
            forall|id: u32| #[trigger] old(self).pads().contains_key(id) ==> final(self).pads()[id] == old(self).pads()[id],
            final(self).pads()[r].spec_connected(),
            final(self).pads()[r].spec_id() == r,
            final(self).pads()[r].spec_name() == name@,
            final(self).pads()[r].buttons() == Map::<u64, GamepadButtonState>::empty(),
    {
        let id = self.next_id;
        self.next_id = self.next_id + 1;
        let pad = GamepadState::new(id, name);
        self.gamepads.insert(id, pad);
        id
    }

    /// Marks the gamepad `id` disconnected; nothing else changes.
    pub fn disconnect_gamepad(&mut self, id: u32)
        requires
            old(self).wf(),
        ensures
            final(self).wf(),
            final(self).spec_next_id() == old(self).spec_next_id(),
            final(self).pads().dom() == old(self).pads().dom(),
            forall|k: u32| #[trigger] final(self).pads().contains_key(k) && k != id
                ==> final(self).pads()[k] == old(self).pads()[k],
            final(self).pads().contains_key(id) ==> {
                let (a, b) = (old(self).pads()[id], final(self).pads()[id]);
                &&& !b.spec_connected()
                &&& b.buttons() == a.buttons()
                &&& b.spec_id() == a.spec_id()
                &&& b.spec_name() == a.spec_name()
            },
    {
        if let Some(mut pad) = self.gamepads.remove(&id) {
            pad.set_connected(false);
            self.gamepads.insert(id, pad);
            proof {
                assert(self.gamepads@.dom() =~= old(self).gamepads@.dom());
            }
        }
    }

    /// Reports `button` of gamepad `id` down (`pressed`) or up; whether the gamepad exists.
    pub fn set_button_state(&mut self, id: u32, button: GamepadButton, pressed: bool) -> (r: bool)
        requires
            old(self).wf(),
        ensures
            final(self).wf(),
            r == old(self).pads().contains_key(id),
            final(self).spec_next_id() == old(self).spec_next_id(),
            final(self).pads().dom() == old(self).pads().dom(),
            forall|k: u32| #[trigger] final(self).pads().contains_key(k) && k != id
                ==> final(self).pads()[k] == old(self).pads()[k],
            r ==> {
                let (a, b) = (old(self).pads()[id], final(self).pads()[id]);
                &&& b.buttons() == a.buttons().insert(button_code(button),
                    gamepad_next(gamepad_state_of(a.buttons(), button_code(button)), pressed))
                &&& b.spec_connected() == a.spec_connected()
                &&& b.spec_id() == a.spec_id()
                &&& b.spec_name() == a.spec_name()
            },
    {
        if let Some(mut pad) = self.gamepads.remove(&id) {
            pad.set_button_state(button, pressed);
            self.gamepads.insert(id, pad);
            proof {
                assert(self.gamepads@.dom() =~= old(self).gamepads@.dom());
            }
            true
        } else {
            false
        }
    }

    /// Removes the gamepad `id`.
    pub fn remove_gamepad(&mut self, id: u32)
        requires
            old(self).wf(),
        ensures
            final(self).wf(),
            final(self).pads() == old(self).pads().remove(id),
            final(self).spec_next_id() == old(self).spec_next_id(),
    {
        self.gamepads.remove(&id);
    }

    /// The gamepad `id`, if there is one.
    pub fn get_gamepad(&self, id: u32) -> (r: Option<&GamepadState>)
        ensures
            r == (if self.pads().contains_key(id) { Some(&self.pads()[id]) } else { None }),
    {
        self.gamepads.get(&id)
    }

    /// The id of some connected gamepad, if there is one.
    pub fn first_gamepad(&self) -> (r: Option<u32>)
        ensures
            r matches Some(id) ==> pad_connected(self.pads(), id),
            r is None <==> !(exists|id: u32| #[trigger] pad_connected(self.pads(), id)),
    {
        let ids = self.connected_ids();
        if ids.len() > 0 {
            proof {
                assert(ids@.contains(ids@[0]));
            }
            Some(ids[0])
        } else {
            proof {
                if exists|id: u32| #[trigger] pad_connected(self.pads(), id) {
                    let id = choose|id: u32| #[trigger] pad_connected(self.pads(), id);
                    assert(ids@.contains(id));
                }
            }
            None
        }
    }

    /// The ids of the connected gamepads, each once, in no particular order.
    pub fn connected_ids(&self) -> (r: Vec<u32>)
        ensures
            r@.no_duplicates(),
            forall|id: u32| r@.contains(id) <==> pad_connected(self.pads(), id),
    {
        let ids = map_keys(&self.gamepads);
        let mut r: Vec<u32> = Vec::new();
        let mut i: usize = 0;
        while i < ids.len()
            invariant
                i <= ids@.len(),
                ids@.no_duplicates(),
                forall|id: u32| self.pads().contains_key(id) <==> ids@.contains(id),
                r@.no_duplicates(),
                forall|id: u32| r@.contains(id) <==> (ids@.take(i as int).contains(id)
                    && pad_connected(self.pads(), id)),
            decreases ids@.len() - i,
        {
            let id = ids[i];
            proof {
                assert(ids@.contains(id));
                assert(!ids@.take(i as int).contains(id)) by {
                    if ids@.take(i as int).contains(id) {
                        let j = choose|j: int| 0 <= j < i && #[trigger] ids@.take(i as int)[j] == id;
                        assert(ids@[j] == ids@[i as int]);
                    }
                }
            }
            let ghost r0 = r@;
            let connected = match self.gamepads.get(&id) {
                Some(p) => p.is_connected(),
                None => false,
            };
            if connected {
                r.push(id);
                proof {
                    assert(!r0.contains(id));
                    assert forall|a: int, c: int| 0 <= a < c < r@.len() implies r@[a] != r@[c] by {
                        if c == r0.len() {
                            assert(r0.contains(r@[a]));
                        } else {
                            assert(r@[a] == r0[a] && r@[c] == r0[c]);
                        }
                    }
                    assert forall|x: u32| r@.contains(x) <==> (r0.contains(x) || x == id) by {
                        if r@.contains(x) && x != id {
                            let t = choose|t: int| 0 <= t < r@.len() && r@[t] == x;
                            assert(r0[t] == x);
                        }
                        if r0.contains(x) {
                            let t = choose|t: int| 0 <= t < r0.len() && r0[t] == x;
                            assert(r@[t] == x);
                        }
                        if x == id {
                            assert(r@[r0.len() as int] == id);
                        }
                    }
                }
            }
            proof {
                assert forall|x: u32| ids@.take(i + 1).contains(x) <==> (ids@.take(i as int).contains(x) || x == id) by {
                    if ids@.take(i + 1).contains(x) && x != id {
                        let t = choose|t: int| 0 <= t < i + 1 && #[trigger] ids@.take(i + 1)[t] == x;
                        assert(ids@.take(i as int)[t] == x);
                    }
                    if ids@.take(i as int).contains(x) {
                        let t = choose|t: int| 0 <= t < i && #[trigger] ids@.take(i as int)[t] == x;
                        assert(ids@.take(i + 1)[t] == x);
                    }
                    if x == id {
                        assert(ids@.take(i + 1)[i as int] == id);
                    }
                }
                assert(r@.contains(id) <==> pad_connected(self.pads(), id));
                assert forall|x: u32| r@.contains(x) <==> (ids@.take(i + 1).contains(x)
                    && pad_connected(self.pads(), x)) by {
                    if x != id {
                        assert(r@.contains(x) <==> r0.contains(x));
                    }
                }
            }
            i = i + 1;
        }
        proof {
            assert(ids@.take(ids@.len() as int) =~= ids@);
        }
        r
    }

    /// The connected gamepads, each once, in no particular order.
    pub fn connected_gamepads(&self) -> (r: Vec<&GamepadState>)
        requires
            self.wf(),
        ensures
            r@.len() == self.connected_ids_spec().len(),
            forall|i: int| 0 <= i < r@.len() ==> pad_connected(self.pads(), #[trigger] r@[i].spec_id())
                && *r@[i] == self.pads()[r@[i].spec_id()],
    {
        let ids = self.connected_ids();
        let mut r: Vec<&GamepadState> = Vec::new();
        let mut i: usize = 0;
        while i < ids.len()
            invariant
                i <= ids@.len(),
                forall|id: u32| ids@.contains(id) <==> pad_connected(self.pads(), id),
                ids@.no_duplicates(),
                self.wf(),
                r@.len() == i,
                forall|j: int| 0 <= j < i ==> #[trigger] r@[j] == &self.pads()[ids@[j]],
            decreases ids@.len() - i,
        {
            proof {
                assert(ids@.contains(ids@[i as int]));
            }
            match self.gamepads.get(&ids[i]) {
                Some(p) => r.push(p),
                None => {},
            }
            i = i + 1;
        }
        proof {
            ids@.unique_seq_to_set();
            assert(ids@.to_set() =~= self.connected_ids_spec());
            assert forall|i: int| 0 <= i < r@.len() implies pad_connected(self.pads(), #[trigger] r@[i].spec_id())
                && *r@[i] == self.pads()[r@[i].spec_id()] by {
                assert(ids@.contains(ids@[i]));
                self.lemma_id_matches(ids@[i]);
            }
        }
        r
    }

    /// The ids of the connected gamepads.
    pub closed spec fn connected_ids_spec(&self) -> Set<u32> {
        Set::new(|id: u32| pad_connected(self.gamepads@, id))
    }

    proof fn lemma_id_matches(&self, id: u32)
        requires
            self.wf(),
            self.pads().contains_key(id),
        ensures
            self.pads()[id].spec_id() == id,
    {
    }

    /// The ids of all gamepads, each once, in no particular order.
    pub fn gamepad_ids(&self) -> (r: Vec<u32>)
        ensures
            r@.no_duplicates(),
            forall|id: u32| r@.contains(id) <==> self.pads().contains_key(id),
    {
        map_keys(&self.gamepads)
    }

    /// Whether some gamepad is connected.
    pub fn has_gamepad(&self) -> (r: bool)
        ensures
            r == (exists|id: u32| #[trigger] pad_connected(self.pads(), id)),
    {
        self.first_gamepad().is_some()
    }

    /// How many gamepads are connected.
    pub fn connected_count(&self) -> (r: usize)
        ensures
            r == self.connected_ids_spec().len(),
    {
        let ids = self.connected_ids();
        proof {
            ids@.unique_seq_to_set();
            assert(ids@.to_set() =~= self.connected_ids_spec());
        }
        ids.len()
    }
}

/// `b` is the gamepad `a` after a new frame began.
pub open spec fn settled_pad(a: GamepadState, b: GamepadState) -> bool {
    &&& b.buttons().dom() == a.buttons().dom()
    &&& forall|c: u64| #[trigger] b.buttons().contains_key(c)
        ==> b.buttons()[c] == gamepad_settled(a.buttons()[c])
    &&& b.spec_connected() == a.spec_connected()
    &&& b.spec_id() == a.spec_id()
    &&& b.spec_name() == a.spec_name()
}

impl Default for GamepadManager {
    fn default() -> (r: GamepadManager)
        ensures
            r.wf(),
            r.pads() == Map::<u32, GamepadState>::empty(),
            r.spec_next_id() == 0,
    {
        GamepadManager::new()
    }
}

} // verus!
