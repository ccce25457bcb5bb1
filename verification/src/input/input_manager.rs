//! The input manager: the keyboard, the mouse buttons and the named input
//! maps, one of which may be current.
use vstd::prelude::*;
use crate::collections::{owned, StrMap};
use crate::input::input_map::{action_fires, ActionQuery, InputMap};
use crate::input::keyboard::{key_pressed, key_released, KeyboardState, CONTROL_LEFT, KEY_A, KEY_D, KEY_S, KEY_W, SPACE};
use crate::input::mouse::{mouse_after_press, mouse_after_release, mouse_state_of, MouseButtonState, MouseButtons};

verus! {

/// The code of the left mouse button.
pub const MOUSE_LEFT: u64 = 0;

/// The code of the right mouse button.
pub const MOUSE_RIGHT: u64 = 1;

/// The code of the middle mouse button.
pub const MOUSE_MIDDLE: u64 = 2;

/// The state of all input devices and the input maps.
pub struct InputManager {
    keyboard: KeyboardState,
    mouse: MouseButtons,
    input_maps: StrMap<InputMap>,
    current_input_map: Option<String>,
}

impl InputManager {
    /// The keyboard.
    pub closed spec fn spec_keyboard(&self) -> KeyboardState {
        self.keyboard
    }

    /// The mouse buttons.
    pub closed spec fn spec_mouse(&self) -> MouseButtons {
        self.mouse
    }

    /// The input maps by name.
    pub closed spec fn maps(&self) -> Map<Seq<char>, InputMap> {
        self.input_maps.view()
    }

    /// The name of the current input map, if one is chosen.
    pub closed spec fn current_name(&self) -> Option<Seq<char>> {
        match self.current_input_map {
            Some(s) => Some(s@),
            None => None,
        }
    }

    /// Every map is consistent, and the current map, if any, is one of them.
    pub closed spec fn wf(&self) -> bool {
        &&& self.input_maps.wf()
        &&& forall|n: Seq<char>| #[trigger] self.input_maps.view().contains_key(n) ==> self.input_maps.view()[n].wf()
        &&& match self.current_input_map {
            Some(s) => self.input_maps.view().contains_key(s@),
            None => true,
        }
    }

    /// No keys or buttons down, no maps, none current.
    pub fn new() -> (r: InputManager)
        ensures
            r.wf(),
            r.spec_keyboard().down() == Set::<u32>::empty(),
            r.spec_keyboard().pressed_now() == Set::<u32>::empty(),
            r.spec_keyboard().released_now() == Set::<u32>::empty(),
            r.spec_keyboard().previous() == Set::<u32>::empty(),
            r.spec_mouse().states() == Map::<u64, MouseButtonState>::empty(),
            r.maps() == Map::<Seq<char>, InputMap>::empty(),
            r.current_name() is None,
    {
        InputManager {
            keyboard: KeyboardState::new(),
            mouse: MouseButtons::new(),
            input_maps: StrMap::new(),
            current_input_map: None,
        }
    }

    /// Starts a new frame for the keyboard and the mouse.
    pub fn update(&mut self)
        requires
            old(self).wf(),
        ensures
            final(self).wf(),
            final(self).maps() == old(self).maps(),
            final(self).current_name() == old(self).current_name(),
            final(self).spec_keyboard().down() == old(self).spec_keyboard().down(),
            final(self).spec_keyboard().previous() == old(self).spec_keyboard().down(),
            final(self).spec_keyboard().pressed_now() == Set::<u32>::empty(),
            final(self).spec_keyboard().released_now() == Set::<u32>::empty(),
            final(self).spec_mouse().states().dom() == old(self).spec_mouse().states().dom(),
            forall|b: u64| #[trigger] final(self).spec_mouse().states().contains_key(b)
                ==> final(self).spec_mouse().states()[b] == crate::input::mouse::mouse_settled(
                    old(self).spec_mouse().states()[b]),
    {
        self.keyboard.update();
        self.mouse.update();
    }

    /// A key event.
    pub fn handle_keyboard_input(&mut self, key: u32, pressed: bool)
        requires
            old(self).wf(),
        ensures
            final(self).wf(),
            final(self).maps() == old(self).maps(),
            final(self).current_name() == old(self).current_name(),
            final(self).spec_mouse() == old(self).spec_mouse(),
            pressed ==> key_pressed(old(self).spec_keyboard(), final(self).spec_keyboard(), key),
            !pressed ==> key_released(old(self).spec_keyboard(), final(self).spec_keyboard(), key),
    {
        self.keyboard.handle_key_event(key, pressed);
    }

    /// A mouse button event.
    pub fn handle_mouse_input(&mut self, button: u64, pressed: bool)
        requires
            old(self).wf(),
        ensures
            final(self).wf(),
            final(self).maps() == old(self).maps(),
            final(self).current_name() == old(self).current_name(),
            final(self).spec_keyboard() == old(self).spec_keyboard(),
            final(self).spec_mouse().states() == old(self).spec_mouse().states().insert(button,
                if pressed {
                    mouse_after_press(mouse_state_of(old(self).spec_mouse().states(), button))
                } else {
                    mouse_after_release(mouse_state_of(old(self).spec_mouse().states(), button))
                }),
    {
        self.mouse.handle_button_input(button, pressed);
    }

    /// The keyboard.
    pub fn keyboard(&self) -> (r: &KeyboardState)
        ensures
            *r == self.spec_keyboard(),
    {
        &self.keyboard
    }

    /// The mouse buttons.
    pub fn mouse(&self) -> (r: &MouseButtons)
        ensures
            *r == self.spec_mouse(),
    {
        &self.mouse
    }

    /// Stores `input_map` under `name`, replacing a map of that name.
    pub fn add_input_map(&mut self, name: &str, input_map: InputMap)
        requires
            old(self).wf(),
            input_map.wf(),
        ensures
            final(self).wf(),
            final(self).maps() == old(self).maps().insert(name@, input_map),
            final(self).current_name() == old(self).current_name(),
            final(self).spec_keyboard() == old(self).spec_keyboard(),
            final(self).spec_mouse() == old(self).spec_mouse(),
    {
        self.input_maps.insert(owned(name), input_map);
    }

    /// Makes the map `name` current if there is one; otherwise nothing changes.
    pub fn set_current_input_map(&mut self, name: &str)
        requires
            old(self).wf(),
        ensures
            final(self).wf(),
            final(self).maps() == old(self).maps(),
            final(self).current_name() == if old(self).maps().contains_key(name@) {
                Some(name@)
            } else {
                old(self).current_name()
            },
            final(self).spec_keyboard() == old(self).spec_keyboard(),
            final(self).spec_mouse() == old(self).spec_mouse(),
    {
        if self.input_maps.contains_key(name) {
            self.current_input_map = Some(owned(name));
        }
    }

    /// The current map, if one is chosen.
    pub fn current_input_map(&self) -> (r: Option<&InputMap>)
        requires
            self.wf(),
        ensures
            match self.current_name() {
                Some(n) => r == Some(&self.maps()[n]),
                None => r is None,
            },
    {
        match &self.current_input_map {
            Some(name) => self.input_maps.get(name.as_str()),
            None => None,
        }
    }

    /// Whether the action fires in the current map (never without one).
    pub fn is_action_triggered(&self, action_name: &str) -> (r: bool)
        requires
            self.wf(),
        ensures
            r == current_action_fires(self.maps(), self.current_name(), action_name@,
                ActionQuery::Triggered, self.spec_keyboard(), self.spec_mouse()),
    {
        match self.current_input_map() {
            Some(map) => map.is_action_triggered(action_name, &self.keyboard, &self.mouse),
            None => false,
        }
    }

    /// Whether the action went down in this frame in the current map.
    pub fn is_action_just_pressed(&self, action_name: &str) -> (r: bool)
        requires
            self.wf(),
        ensures
            r == current_action_fires(self.maps(), self.current_name(), action_name@,
                ActionQuery::JustPressed, self.spec_keyboard(), self.spec_mouse()),
    {
        match self.current_input_map() {
            Some(map) => map.is_action_just_pressed(action_name, &self.keyboard, &self.mouse),
            None => false,
        }
    }

    /// Whether the action went up in this frame in the current map.
    pub fn is_action_just_released(&self, action_name: &str) -> (r: bool)
        requires
            self.wf(),
        ensures
            r == current_action_fires(self.maps(), self.current_name(), action_name@,
                ActionQuery::JustReleased, self.spec_keyboard(), self.spec_mouse()),
    {
        match self.current_input_map() {
            Some(map) => map.is_action_just_released(action_name, &self.keyboard, &self.mouse),
            None => false,
        }
    }

    /// Forgets every key and button; the maps stay.
    pub fn reset(&mut self)
        requires
            old(self).wf(),
        ensures
            final(self).wf(),
            final(self).maps() == old(self).maps(),
            final(self).current_name() == old(self).current_name(),
            final(self).spec_keyboard().down() == Set::<u32>::empty(),
            final(self).spec_keyboard().pressed_now() == Set::<u32>::empty(),
            final(self).spec_keyboard().released_now() == Set::<u32>::empty(),
            final(self).spec_keyboard().previous() == Set::<u32>::empty(),
            final(self).spec_mouse().states() == Map::<u64, MouseButtonState>::empty(),
    {
        self.keyboard.reset();
        self.mouse.reset();
    }

    /// Adds the map `default` with the usual actions (W, S, A, D to move,
    /// space to jump, left control to crouch, the left and right mouse
    /// buttons for the two actions) and makes it current.
    pub fn create_default_input_map(&mut self)
        requires
            old(self).wf(),
        ensures
            final(self).wf(),
            final(self).maps().dom() == old(self).maps().dom().insert("default"@),
            forall|n: Seq<char>| n != "default"@ && #[trigger] old(self).maps().contains_key(n)
                ==> final(self).maps()[n] == old(self).maps()[n],
            is_default_map(final(self).maps()["default"@].action_map()),
            final(self).current_name() == Some("default"@),
            final(self).spec_keyboard() == old(self).spec_keyboard(),
            final(self).spec_mouse() == old(self).spec_mouse(),
    {
        let map = default_input_map();
        self.add_input_map("default", map);
        self.set_current_input_map("default");
    }

    /// The names of the maps, each once.
    pub fn input_map_names(&self) -> (r: Vec<String>)
        requires
            self.wf(),
        ensures
            r@.map_values(|s: String| s@).no_duplicates(),
            forall|n: Seq<char>| self.maps().contains_key(n)
                <==> r@.map_values(|s: String| s@).contains(n),
    {
        self.input_maps.keys()
    }

    /// Removes the map `name`; if it was current, no map is current any more.
    pub fn remove_input_map(&mut self, name: &str)
        requires
            old(self).wf(),
        ensures
            final(self).wf(),
            final(self).maps() == old(self).maps().remove(name@),
            final(self).current_name() == if old(self).current_name() == Some(name@) {
                None
            } else {
                old(self).current_name()
            },
            final(self).spec_keyboard() == old(self).spec_keyboard(),
            final(self).spec_mouse() == old(self).spec_mouse(),
    {
        let is_current = match &self.current_input_map {
            Some(current) => {
                let n = owned(name);
                *current == n
            },
            None => false,
        };
        if is_current {
            self.current_input_map = None;
        }
        self.input_maps.remove(name);
    }

    /// Removes every map; none is current.
    pub fn clear_input_maps(&mut self)
        requires
            old(self).wf(),
        ensures
            final(self).wf(),
            final(self).maps() == Map::<Seq<char>, InputMap>::empty(),
            final(self).current_name() is None,
            final(self).spec_keyboard() == old(self).spec_keyboard(),
            final(self).spec_mouse() == old(self).spec_mouse(),
    {
        self.input_maps.clear();
        self.current_input_map = None;
    }
}

impl Default for InputManager {
    /// A manager with the default map, current.
    fn default() -> (r: InputManager)
        ensures
            r.wf(),
            r.maps().dom() == Set::<Seq<char>>::empty().insert("default"@),
            is_default_map(r.maps()["default"@].action_map()),
            r.current_name() == Some("default"@),
            r.spec_keyboard().down() == Set::<u32>::empty(),
            r.spec_mouse().states() == Map::<u64, MouseButtonState>::empty(),
    {
        let mut m = InputManager::new();
        m.create_default_input_map();
        proof {
            assert(m.maps().dom() =~= Set::<Seq<char>>::empty().insert("default"@));
        }
        m
    }
}

/// Whether the action `action` fires for `q` in the current map.
pub open spec fn current_action_fires(
    maps: Map<Seq<char>, InputMap>,
    current: Option<Seq<char>>,
    action: Seq<char>,
    q: ActionQuery,
    keyboard: KeyboardState,
    mouse: MouseButtons,
) -> bool {
    match current {
        Some(n) => maps[n].action_map().contains_key(action)
            && action_fires(maps[n].action_map()[action], q, keyboard, mouse, None),
        None => false,
    }
}

/// The default map's actions.
pub open spec fn default_actions() -> Seq<(Seq<char>, crate::input::input_map::InputBinding)> {
    seq![
        ("move_forward"@, crate::input::input_map::InputBinding::Key(KEY_W)),
        ("move_backward"@, crate::input::input_map::InputBinding::Key(KEY_S)),
        ("move_left"@, crate::input::input_map::InputBinding::Key(KEY_A)),
        ("move_right"@, crate::input::input_map::InputBinding::Key(KEY_D)),
        ("jump"@, crate::input::input_map::InputBinding::Key(SPACE)),
        ("crouch"@, crate::input::input_map::InputBinding::Key(CONTROL_LEFT)),
        ("primary_action"@, crate::input::input_map::InputBinding::Mouse(MOUSE_LEFT)),
        ("secondary_action"@, crate::input::input_map::InputBinding::Mouse(MOUSE_RIGHT)),
    ]
}

/// Whether `m` holds exactly the default actions, each bound to its one binding.
pub open spec fn is_default_map(m: Map<Seq<char>, crate::input::input_map::ActionConfig>) -> bool {
    &&& m.dom() == default_actions().map_values(|p: (Seq<char>, crate::input::input_map::InputBinding)| p.0).to_set()
    &&& forall|i: int| 0 <= i < default_actions().len() ==> #[trigger] entry_bound(m, default_actions()[i])
}

/// The actions `lo..hi` of `d` are bound in `m` as `d` lists them.
spec fn bound_as(m: Map<Seq<char>, crate::input::input_map::ActionConfig>,
    d: Seq<(Seq<char>, crate::input::input_map::InputBinding)>, lo: int, hi: int) -> bool {
    forall|i: int| lo <= i < hi ==> #[trigger] entry_bound(m, d[i])
}

/// The action named `e.0` is bound in `m` to `e.1` alone.
pub open spec fn entry_bound(m: Map<Seq<char>, crate::input::input_map::ActionConfig>,
    e: (Seq<char>, crate::input::input_map::InputBinding)) -> bool {
    &&& m.contains_key(e.0)
    &&& m[e.0].bindings@ == seq![e.1]
    &&& !m[e.0].require_all
}

proof fn lemma_default_names_distinct()
    ensures
        forall|i: int, j: int| 0 <= i < j < default_actions().len()
            ==> default_actions()[i].0 != default_actions()[j].0,
{
    reveal_strlit("move_forward");
    reveal_strlit("move_backward");
    reveal_strlit("move_left");
    reveal_strlit("move_right");
    reveal_strlit("jump");
    reveal_strlit("crouch");
    reveal_strlit("primary_action");
    reveal_strlit("secondary_action");
    let d = default_actions();
    assert forall|i: int, j: int| 0 <= i < j < d.len() implies d[i].0 != d[j].0 by {
        assert(d[i].0.len() != d[j].0.len());
    }
}

proof fn lemma_bind_extends(
    prev: Map<Seq<char>, crate::input::input_map::ActionConfig>,
    next: Map<Seq<char>, crate::input::input_map::ActionConfig>,
    d: Seq<(Seq<char>, crate::input::input_map::InputBinding)>,
    k: int,
)
    requires
        0 <= k < d.len(),
        bound_as(prev, d, 0, k),
        forall|i: int, j: int| 0 <= i < j < d.len() ==> d[i].0 != d[j].0,
        next.dom() == prev.dom().insert(d[k].0),
        forall|n: Seq<char>| n != d[k].0 && #[trigger] prev.contains_key(n) ==> next[n] == prev[n],
        next[d[k].0].bindings@ == seq![d[k].1],
        !next[d[k].0].require_all,
    ensures
        bound_as(next, d, 0, k + 1),
{
    assert forall|i: int| 0 <= i < k + 1 implies #[trigger] entry_bound(next, d[i]) by {
        if i < k {
            assert(entry_bound(prev, d[i]));
            assert(d[i].0 != d[k].0);
        }
    }
}

fn default_input_map() -> (r: InputMap)
    ensures
        r.wf(),
        is_default_map(r.action_map()),
{
    proof {
        reveal_strlit("move_forward");
        reveal_strlit("move_backward");
        reveal_strlit("move_left");
        reveal_strlit("move_right");
        reveal_strlit("jump");
        reveal_strlit("crouch");
        reveal_strlit("primary_action");
        reveal_strlit("secondary_action");
    }
    let ghost d = default_actions();
    proof {
        lemma_default_names_distinct();
    }
    let mut m = InputMap::new();
    let ghost prev = m.action_map();
    m.bind_key_action("move_forward", KEY_W);
    proof {
        lemma_bind_extends(prev, m.action_map(), d, 0);
    }
    let ghost prev = m.action_map();
    m.bind_key_action("move_backward", KEY_S);
    proof {
        lemma_bind_extends(prev, m.action_map(), d, 1);
    }
    let ghost prev = m.action_map();
    m.bind_key_action("move_left", KEY_A);
    proof {
        lemma_bind_extends(prev, m.action_map(), d, 2);
    }
    let ghost prev = m.action_map();
    m.bind_key_action("move_right", KEY_D);
    proof {
        lemma_bind_extends(prev, m.action_map(), d, 3);
    }
    let ghost prev = m.action_map();
    m.bind_key_action("jump", SPACE);
    proof {
        lemma_bind_extends(prev, m.action_map(), d, 4);
    }
    let ghost prev = m.action_map();
    m.bind_key_action("crouch", CONTROL_LEFT);
    proof {
        lemma_bind_extends(prev, m.action_map(), d, 5);
    }
    let ghost prev = m.action_map();
    m.bind_mouse_action("primary_action", MOUSE_LEFT);
    proof {
        lemma_bind_extends(prev, m.action_map(), d, 6);
    }
    let ghost prev = m.action_map();
    m.bind_mouse_action("secondary_action", MOUSE_RIGHT);
    proof {
        lemma_bind_extends(prev, m.action_map(), d, 7);
    }
    proof {
        let names = default_actions().map_values(|p: (Seq<char>, crate::input::input_map::InputBinding)| p.0);
        assert(m.action_map().dom() =~= names.to_set()) by {
            assert forall|n: Seq<char>| m.action_map().dom().contains(n) implies names.to_set().contains(n) by {
                if n == "move_forward"@ { assert(names[0] == n); }
                else if n == "move_backward"@ { assert(names[1] == n); }
                else if n == "move_left"@ { assert(names[2] == n); }
                else if n == "move_right"@ { assert(names[3] == n); }
                else if n == "jump"@ { assert(names[4] == n); }
                else if n == "crouch"@ { assert(names[5] == n); }
                else if n == "primary_action"@ { assert(names[6] == n); }
                else { assert(names[7] == n); }
            }
            assert forall|n: Seq<char>| names.to_set().contains(n) implies m.action_map().dom().contains(n) by {
                let i = choose|i: int| 0 <= i < names.len() && names[i] == n;
            }
        }
    }
    m
}

} // verus!
