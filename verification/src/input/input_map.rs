//! Named actions bound to keys and buttons. Axes carry floating-point
//! values and are evaluated beside this map; the name rule of mouse axes
//! stands here.
use vstd::prelude::*;
use crate::collections::{contains_char, owned, StrMap};
use crate::input::gamepad::{button_code, gamepad_state_of, GamepadAxis, GamepadButton, GamepadButtonState, GamepadState};
use crate::input::keyboard::KeyboardState;
use crate::input::mouse::{mouse_is_down, mouse_state_of, MouseButtonState, MouseButtons};

verus! {

/// Which mouse motion an axis reads.
#[derive(Debug, Clone, Copy, PartialEq, Eq, Structural)]
pub enum MouseAxisType {
    X,
    Y,
    ScrollX,
    ScrollY,
}

/// The mouse axis a name binds: one that holds an `x` reads X, else one
/// that holds a `y` reads Y, else X.
pub open spec fn mouse_axis_of_name(name: Seq<char>) -> MouseAxisType {
    if name.contains('x') {
        MouseAxisType::X
    } else if name.contains('y') {
        MouseAxisType::Y
    } else {
        MouseAxisType::X
    }
}

/// The mouse axis that `bind_mouse_axis` binds for `axis_name`.
pub fn mouse_axis_for_name(axis_name: &str) -> (r: MouseAxisType)
    ensures
        r == mouse_axis_of_name(axis_name@),
{
    if contains_char(axis_name, 'x') {
        MouseAxisType::X
    } else if contains_char(axis_name, 'y') {
        MouseAxisType::Y
    } else {
        MouseAxisType::X
    }
}

/// What an action or an axis is bound to. The values a key axis gives are
/// floating point and kept with the axis.
#[derive(Debug, Clone, Copy, PartialEq, Eq, Structural)]
pub enum InputBinding {
    Key(u32),
    Mouse(u64),
    GamepadButton(GamepadButton),
    KeyAxis { negative_key: u32, positive_key: u32 },
    MouseAxis { axis: MouseAxisType },
    GamepadAxis(GamepadAxis),
}

/// The bindings of an action and whether all of them must fire.
#[derive(Debug, Clone)]
pub struct ActionConfig {
    pub bindings: Vec<InputBinding>,
    pub require_all: bool,
}

impl ActionConfig {
    /// No bindings; any one binding will do.
    pub fn new() -> (r: ActionConfig)
        ensures
            r.bindings@ == Seq::<InputBinding>::empty(),
            !r.require_all,
    {
        ActionConfig { bindings: Vec::new(), require_all: false }
    }

    /// The same configuration with `binding` added last.
    pub fn add_binding(self, binding: InputBinding) -> (r: ActionConfig)
        ensures
            r.bindings@ == self.bindings@.push(binding),
            r.require_all == self.require_all,
    {
        let mut s = self;
        s.bindings.push(binding);
        s
    }

    /// The same configuration, needing all bindings or any one.
    pub fn require_all(self, require_all: bool) -> (r: ActionConfig)
        ensures
            r.bindings@ == self.bindings@,
            r.require_all == require_all,
    {
        let mut s = self;
        s.require_all = require_all;
        s
    }
}

/// What an action is asked about.
#[derive(Debug, Clone, Copy, PartialEq, Eq, Structural)]
pub enum ActionQuery {
    /// Whether the action fires now: a key just pressed, a button held.
    Triggered,
    /// Whether it went down in this frame.
    JustPressed,
    /// Whether it went up in this frame.
    JustReleased,
}

/// Whether `b` fires for `q` on the given devices. Only keys and buttons
/// fire; axis bindings never do.
pub open spec fn binding_fires(
    b: InputBinding,
    q: ActionQuery,
    keyboard: KeyboardState,
    mouse: MouseButtons,
    gamepad: Option<GamepadState>,
) -> bool {
    match b {
        InputBinding::Key(k) => match q {
            ActionQuery::JustReleased => keyboard.released_now().contains(k),
            _ => keyboard.pressed_now().contains(k),
        },
        InputBinding::Mouse(m) => {
            let s = mouse_state_of(mouse.states(), m);
            match q {
                ActionQuery::Triggered => mouse_is_down(s),
                ActionQuery::JustPressed => s == MouseButtonState::JustPressed,
                ActionQuery::JustReleased => s == MouseButtonState::JustReleased,
            }
        },
        InputBinding::GamepadButton(g) => match gamepad {
            Some(pad) => {
                let s = gamepad_state_of(pad.buttons(), button_code(g));
                match q {
                    ActionQuery::Triggered => s == GamepadButtonState::Pressed
                        || s == GamepadButtonState::JustPressed,
                    ActionQuery::JustPressed => s == GamepadButtonState::JustPressed,
                    ActionQuery::JustReleased => s == GamepadButtonState::JustReleased,
                }
            },
            None => false,
        },
        _ => false,
    }
}

/// A gamepad-button binding keeps a `Triggered` action firing for as long
/// as the pad holds the button: in the frame it went down and in every
/// later frame until it is let go (whatever the keys and the mouse do). A
/// button that went down in this frame therefore also triggers, and one
/// that is up or just went up does not.
pub proof fn lemma_gamepad_binding_triggers_while_held(
    g: GamepadButton,
    keyboard: KeyboardState,
    mouse: MouseButtons,
    pad: GamepadState,
)
    ensures
        binding_fires(InputBinding::GamepadButton(g), ActionQuery::Triggered, keyboard, mouse, Some(pad))
            == (gamepad_state_of(pad.buttons(), button_code(g)) == GamepadButtonState::Pressed
                || gamepad_state_of(pad.buttons(), button_code(g)) == GamepadButtonState::JustPressed),
        gamepad_state_of(pad.buttons(), button_code(g)) == GamepadButtonState::Pressed ==>
            binding_fires(InputBinding::GamepadButton(g), ActionQuery::Triggered, keyboard, mouse, Some(pad)),
        binding_fires(InputBinding::GamepadButton(g), ActionQuery::JustPressed, keyboard, mouse, Some(pad)) ==>
            binding_fires(InputBinding::GamepadButton(g), ActionQuery::Triggered, keyboard, mouse, Some(pad)),
        !binding_fires(InputBinding::GamepadButton(g), ActionQuery::Triggered, keyboard, mouse, None),
{
}

/// A mouse-button binding keeps a `Triggered` action firing for as long as
/// the button is held (in the frame it went down and after), and never
/// while it is up; a key binding triggers in the frame the key went down,
/// as a `JustPressed` query does, and needs no gamepad.
pub proof fn lemma_mouse_and_key_bindings(
    m: u64,
    k: u32,
    keyboard: KeyboardState,
    mouse: MouseButtons,
    gamepad: Option<GamepadState>,
)
    ensures
        binding_fires(InputBinding::Mouse(m), ActionQuery::Triggered, keyboard, mouse, gamepad)
            == (mouse_state_of(mouse.states(), m) == MouseButtonState::Pressed
                || mouse_state_of(mouse.states(), m) == MouseButtonState::JustPressed),
        binding_fires(InputBinding::Mouse(m), ActionQuery::JustPressed, keyboard, mouse, gamepad)
            == (mouse_state_of(mouse.states(), m) == MouseButtonState::JustPressed),
        binding_fires(InputBinding::Mouse(m), ActionQuery::JustReleased, keyboard, mouse, gamepad)
            == (mouse_state_of(mouse.states(), m) == MouseButtonState::JustReleased),
        binding_fires(InputBinding::Key(k), ActionQuery::Triggered, keyboard, mouse, gamepad)
            == keyboard.pressed_now().contains(k),
        binding_fires(InputBinding::Key(k), ActionQuery::JustPressed, keyboard, mouse, gamepad)
            == keyboard.pressed_now().contains(k),
        binding_fires(InputBinding::Key(k), ActionQuery::JustReleased, keyboard, mouse, gamepad)
            == keyboard.released_now().contains(k),
{
}

/// A button reported down keeps a gamepad binding triggered across the
/// frame updates that follow: the phase the button takes when reported down
/// and the phase it settles into at the next update both trigger, from any
/// phase it was in before.
pub proof fn lemma_gamepad_held_across_frames(
    g: GamepadButton,
    keyboard: KeyboardState,
    mouse: MouseButtons,
    before: GamepadState,
    reported: GamepadState,
    settled: GamepadState,
)
    requires
        gamepad_state_of(reported.buttons(), button_code(g))
            == crate::input::gamepad::gamepad_next(gamepad_state_of(before.buttons(), button_code(g)), true),
        gamepad_state_of(settled.buttons(), button_code(g))
            == crate::input::gamepad::gamepad_settled(gamepad_state_of(reported.buttons(), button_code(g))),
    ensures
        binding_fires(InputBinding::GamepadButton(g), ActionQuery::Triggered, keyboard, mouse, Some(reported)),
        binding_fires(InputBinding::GamepadButton(g), ActionQuery::Triggered, keyboard, mouse, Some(settled)),
        !binding_fires(InputBinding::GamepadButton(g), ActionQuery::JustPressed, keyboard, mouse, Some(settled)),
{
}

/// Whether the action of `c` fires for `q`: all its bindings if it needs
/// all (so an action with no bindings fires), else at least one.
pub open spec fn action_fires(
    c: ActionConfig,
    q: ActionQuery,
    keyboard: KeyboardState,
    mouse: MouseButtons,
    gamepad: Option<GamepadState>,
) -> bool {
    if c.require_all {
        forall|i: int| 0 <= i < c.bindings@.len()
            ==> #[trigger] binding_fires(c.bindings@[i], q, keyboard, mouse, gamepad)
    } else {
        exists|i: int| 0 <= i < c.bindings@.len()
            && #[trigger] binding_fires(c.bindings@[i], q, keyboard, mouse, gamepad)
    }
}

fn evaluate_binding(
    b: InputBinding,
    q: ActionQuery,
    keyboard: &KeyboardState,
    mouse: &MouseButtons,
    gamepad: Option<&GamepadState>,
) -> (r: bool)
    ensures
        r == binding_fires(b, q, *keyboard, *mouse, match gamepad { Some(p) => Some(*p), None => None }),
{
    match b {
        InputBinding::Key(k) => match q {
            ActionQuery::JustReleased => keyboard.is_key_just_released(k),
            _ => keyboard.is_key_just_pressed(k),
        },
        InputBinding::Mouse(m) => match q {
            ActionQuery::Triggered => mouse.is_button_pressed(m),
            ActionQuery::JustPressed => mouse.is_button_just_pressed(m),
            ActionQuery::JustReleased => mouse.is_button_just_released(m),
        },
        InputBinding::GamepadButton(g) => match gamepad {
            Some(pad) => match q {
                ActionQuery::Triggered => pad.is_button_pressed(g),
                ActionQuery::JustPressed => pad.is_button_just_pressed(g),
                ActionQuery::JustReleased => pad.is_button_just_released(g),
            },
            None => false,
        },
        _ => false,
    }
}

/// Whether the action of `config` fires for `q`.
pub fn evaluate_action(
    config: &ActionConfig,
    q: ActionQuery,
    keyboard: &KeyboardState,
    mouse: &MouseButtons,
    gamepad: Option<&GamepadState>,
) -> (r: bool)
    ensures
        r == action_fires(*config, q, *keyboard, *mouse, match gamepad { Some(p) => Some(*p), None => None }),
{
    let ghost gp = match gamepad { Some(p) => Some(*p), None => None };
    let n = config.bindings.len();
    let mut all = true;
    let mut any = false;
    let mut i: usize = 0;
    while i < n
        invariant
            n == config.bindings@.len(),
            i <= n,
            gp == match gamepad { Some(p) => Some(*p), None => None },
            all == (forall|j: int| 0 <= j < i
                ==> #[trigger] binding_fires(config.bindings@[j], q, *keyboard, *mouse, gp)),
            any == (exists|j: int| 0 <= j < i
                && #[trigger] binding_fires(config.bindings@[j], q, *keyboard, *mouse, gp)),
        decreases n - i,
    {
        let f = evaluate_binding(config.bindings[i], q, keyboard, mouse, gamepad);
        proof {
            if !f {
                assert(!binding_fires(config.bindings@[i as int], q, *keyboard, *mouse, gp));
            } else {
                assert(binding_fires(config.bindings@[i as int], q, *keyboard, *mouse, gp));
            }
        }
        all = all && f;
        any = any || f;
        i = i + 1;
    }
    if config.require_all { all } else { any }
}

/// The actions of an input scheme, by name.
pub struct InputMap {
    actions: StrMap<ActionConfig>,
}

impl InputMap {
    /// The actions by name.
    pub closed spec fn action_map(&self) -> Map<Seq<char>, ActionConfig> {
        self.actions.view()
    }

    /// The map's storage is consistent.
    pub closed spec fn wf(&self) -> bool {
        self.actions.wf()
    }

    /// No actions.
    pub fn new() -> (r: InputMap)
        ensures
            r.wf(),
            r.action_map() == Map::<Seq<char>, ActionConfig>::empty(),
    {
        InputMap { actions: StrMap::new() }
    }

    /// Binds the action `action_name` to `key` alone, replacing its old bindings.
    pub fn bind_key_action(&mut self, action_name: &str, key: u32)
        requires
            old(self).wf(),
        ensures
            final(self).wf(),
            final(self).action_map().dom() == old(self).action_map().dom().insert(action_name@),
            forall|n: Seq<char>| n != action_name@ && #[trigger] old(self).action_map().contains_key(n)
                ==> final(self).action_map()[n] == old(self).action_map()[n],
            final(self).action_map()[action_name@].bindings@ == seq![InputBinding::Key(key)],
            !final(self).action_map()[action_name@].require_all,
    {
        let config = ActionConfig::new().add_binding(InputBinding::Key(key));
        self.add_action(action_name, config);
    }

    /// Binds the action `action_name` to the mouse button `button` alone.
    pub fn bind_mouse_action(&mut self, action_name: &str, button: u64)
        requires
            old(self).wf(),
        ensures
            final(self).wf(),
            final(self).action_map().dom() == old(self).action_map().dom().insert(action_name@),
            forall|n: Seq<char>| n != action_name@ && #[trigger] old(self).action_map().contains_key(n)
                ==> final(self).action_map()[n] == old(self).action_map()[n],
            final(self).action_map()[action_name@].bindings@ == seq![InputBinding::Mouse(button)],
            !final(self).action_map()[action_name@].require_all,
    {
        let config = ActionConfig::new().add_binding(InputBinding::Mouse(button));
        self.add_action(action_name, config);
    }

    /// Binds the action `action_name` to the gamepad button `button` alone.
    pub fn bind_gamepad_action(&mut self, action_name: &str, button: GamepadButton)
        requires
            old(self).wf(),
        ensures
            final(self).wf(),
            final(self).action_map().dom() == old(self).action_map().dom().insert(action_name@),
            forall|n: Seq<char>| n != action_name@ && #[trigger] old(self).action_map().contains_key(n)
                ==> final(self).action_map()[n] == old(self).action_map()[n],
            final(self).action_map()[action_name@].bindings@ == seq![InputBinding::GamepadButton(button)],
            !final(self).action_map()[action_name@].require_all,
    {
        let config = ActionConfig::new().add_binding(InputBinding::GamepadButton(button));
        self.add_action(action_name, config);
    }

    /// Sets the configuration of the action `action_name`.
    pub fn add_action(&mut self, action_name: &str, config: ActionConfig)
        requires
            old(self).wf(),
        ensures
            final(self).wf(),
            final(self).action_map() == old(self).action_map().insert(action_name@, config),
    {
        self.actions.insert(owned(action_name), config);
    }

    fn query(
        &self,
        action_name: &str,
        q: ActionQuery,
        keyboard: &KeyboardState,
        mouse: &MouseButtons,
        gamepad: Option<&GamepadState>,
    ) -> (r: bool)
        requires
            self.wf(),
        ensures
            r == (self.action_map().contains_key(action_name@) && action_fires(
                self.action_map()[action_name@], q, *keyboard, *mouse,
                match gamepad { Some(p) => Some(*p), None => None })),
    {
        match self.actions.get(action_name) {
            Some(config) => evaluate_action(config, q, keyboard, mouse, gamepad),
            None => false,
        }
    }

    /// Whether the action fires now; an unknown action never does.
    pub fn is_action_triggered(&self, action_name: &str, keyboard: &KeyboardState, mouse: &MouseButtons) -> (r: bool)
        requires
            self.wf(),
        ensures
            r == (self.action_map().contains_key(action_name@) && action_fires(
                self.action_map()[action_name@], ActionQuery::Triggered, *keyboard, *mouse, None)),
    {
        self.query(action_name, ActionQuery::Triggered, keyboard, mouse, None)
    }

    /// Whether the action went down in this frame.
    pub fn is_action_just_pressed(&self, action_name: &str, keyboard: &KeyboardState, mouse: &MouseButtons) -> (r: bool)
        requires
            self.wf(),
        ensures
            r == (self.action_map().contains_key(action_name@) && action_fires(
                self.action_map()[action_name@], ActionQuery::JustPressed, *keyboard, *mouse, None)),
    {
        self.query(action_name, ActionQuery::JustPressed, keyboard, mouse, None)
    }

    /// Whether the action went up in this frame.
    pub fn is_action_just_released(&self, action_name: &str, keyboard: &KeyboardState, mouse: &MouseButtons) -> (r: bool)
        requires
            self.wf(),
        ensures
            r == (self.action_map().contains_key(action_name@) && action_fires(
                self.action_map()[action_name@], ActionQuery::JustReleased, *keyboard, *mouse, None)),
    {
        self.query(action_name, ActionQuery::JustReleased, keyboard, mouse, None)
    }

    /// Whether the action fires now, gamepad bindings included.
    pub fn is_action_triggered_with_gamepad(
        &self,
        action_name: &str,
        keyboard: &KeyboardState,
        mouse: &MouseButtons,
        gamepad: Option<&GamepadState>,
    ) -> (r: bool)
        requires
            self.wf(),
        ensures
            r == (self.action_map().contains_key(action_name@) && action_fires(
                self.action_map()[action_name@], ActionQuery::Triggered, *keyboard, *mouse,
                match gamepad { Some(p) => Some(*p), None => None })),
    {
        self.query(action_name, ActionQuery::Triggered, keyboard, mouse, gamepad)
    }

    /// Removes the action `action_name`.
    pub fn remove_action(&mut self, action_name: &str)
        requires
            old(self).wf(),
        ensures
            final(self).wf(),
            final(self).action_map() == old(self).action_map().remove(action_name@),
    {
        self.actions.remove(action_name);
    }

    /// Removes every action.
    pub fn clear(&mut self)
        requires
            old(self).wf(),
        ensures
            final(self).wf(),
            final(self).action_map() == Map::<Seq<char>, ActionConfig>::empty(),
    {
        self.actions.clear();
    }

    /// The names of the actions, each once.
    pub fn action_names(&self) -> (r: Vec<String>)
        requires
            self.wf(),
        ensures
            r@.map_values(|s: String| s@).no_duplicates(),
            forall|n: Seq<char>| self.action_map().contains_key(n)
                <==> r@.map_values(|s: String| s@).contains(n),
    {
        self.actions.keys()
    }
}

} // verus!
