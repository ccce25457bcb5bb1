//! The engine's reaction to window events: input goes to the input
//! manager, a close request stops the engine, and resizing, cursor moves
//! and redraws are handed to the window and renderer side as actions.
use vstd::prelude::*;
use crate::input::input_manager::InputManager;
use crate::input::keyboard::{key_pressed, key_released};
use crate::input::mouse::{mouse_after_press, mouse_after_release, mouse_state_of};

verus! {

/// A window event, with what the engine reads of it.
#[derive(Debug, Clone, Copy, PartialEq, Eq, Structural)]
pub enum WindowInput {
    CloseRequested,
    Resized { width: u32, height: u32 },
    Key { key: u32, pressed: bool },
    MouseButton { button: u64, pressed: bool },
    CursorMoved,
    RedrawRequested,
    Other,
}

/// What the window and renderer side is to do.
#[derive(Debug, Clone, Copy, PartialEq, Eq, Structural)]
pub enum EngineAction {
    Nothing,
    ResizeRenderer { width: u32, height: u32 },
    MoveCursor,
    Render,
}

/// Whether the engine runs, and its input.
pub struct EngineCore {
    running: bool,
    input: InputManager,
}

impl EngineCore {
    /// Whether the engine runs.
    pub closed spec fn is_running(&self) -> bool {
        self.running
    }

    /// The input manager.
    pub closed spec fn spec_input(&self) -> InputManager {
        self.input
    }

    /// The input manager is consistent.
    pub closed spec fn wf(&self) -> bool {
        self.input.wf()
    }

    /// A stopped engine with fresh input.
    pub fn new() -> (r: EngineCore)
        ensures
            r.wf(),
            !r.is_running(),
    {
        EngineCore { running: false, input: InputManager::new() }
    }

    /// Starts running.
    pub fn start(&mut self)
        ensures
            final(self).is_running(),
            final(self).spec_input() == old(self).spec_input(),
            final(self).wf() == old(self).wf(),
    {
        self.running = true;
    }

    /// Whether the engine runs.
    pub fn running(&self) -> (r: bool)
        ensures
            r == self.is_running(),
    {
        self.running
    }

    /// The input manager.
    pub fn input(&self) -> (r: &InputManager)
        ensures
            *r == self.spec_input(),
    {
        &self.input
    }

    /// Starts a frame of input: keys and buttons settle.
    pub fn update(&mut self)
        requires
            old(self).wf(),
        ensures
            final(self).wf(),
            final(self).is_running() == old(self).is_running(),
            final(self).spec_input().maps() == old(self).spec_input().maps(),
            final(self).spec_input().current_name() == old(self).spec_input().current_name(),
            final(self).spec_input().spec_keyboard().down() == old(self).spec_input().spec_keyboard().down(),
            final(self).spec_input().spec_keyboard().previous() == old(self).spec_input().spec_keyboard().down(),
            final(self).spec_input().spec_keyboard().pressed_now() == Set::<u32>::empty(),
            final(self).spec_input().spec_keyboard().released_now() == Set::<u32>::empty(),
            final(self).spec_input().spec_mouse().states().dom() == old(self).spec_input().spec_mouse().states().dom(),
            forall|b: u64| #[trigger] final(self).spec_input().spec_mouse().states().contains_key(b)
                ==> final(self).spec_input().spec_mouse().states()[b] == crate::input::mouse::mouse_settled(
                    old(self).spec_input().spec_mouse().states()[b]),
    {
        self.input.update();
    }

    /// Reacts to a window event. Returns the action for the window side and
    /// whether the event loop must exit (the engine no longer runs).
    pub fn handle_window_event(&mut self, event: WindowInput) -> (r: (EngineAction, bool))
        requires
            old(self).wf(),
        ensures
            final(self).wf(),
            r.1 == !final(self).is_running(),
            final(self).is_running() == (old(self).is_running() && event != WindowInput::CloseRequested),
            match event {
                WindowInput::Resized { width, height } => r.0 == (EngineAction::ResizeRenderer { width, height }),
                WindowInput::CursorMoved => r.0 == EngineAction::MoveCursor,
                WindowInput::RedrawRequested => r.0 == EngineAction::Render,
                _ => r.0 == EngineAction::Nothing,
            },
            match event {
                WindowInput::Key { key, pressed } => {
                    &&& pressed ==> key_pressed(old(self).spec_input().spec_keyboard(), final(self).spec_input().spec_keyboard(), key)
                    &&& !pressed ==> key_released(old(self).spec_input().spec_keyboard(), final(self).spec_input().spec_keyboard(), key)
                    &&& final(self).spec_input().spec_mouse() == old(self).spec_input().spec_mouse()
                },
                WindowInput::MouseButton { button, pressed } => {
                    &&& final(self).spec_input().spec_mouse().states() == old(self).spec_input().spec_mouse().states().insert(button,
                        if pressed {
                            mouse_after_press(mouse_state_of(old(self).spec_input().spec_mouse().states(), button))
                        } else {
                            mouse_after_release(mouse_state_of(old(self).spec_input().spec_mouse().states(), button))
                        })
                    &&& final(self).spec_input().spec_keyboard() == old(self).spec_input().spec_keyboard()
                },
                _ => final(self).spec_input() == old(self).spec_input(),
            },
            final(self).spec_input().maps() == old(self).spec_input().maps(),
            final(self).spec_input().current_name() == old(self).spec_input().current_name(),
    {
        let action = match event {
            WindowInput::CloseRequested => {
                self.running = false;
                EngineAction::Nothing
            },
            WindowInput::Resized { width, height } => EngineAction::ResizeRenderer { width, height },
            WindowInput::Key { key, pressed } => {
                self.input.handle_keyboard_input(key, pressed);
                EngineAction::Nothing
            },
            WindowInput::MouseButton { button, pressed } => {
                self.input.handle_mouse_input(button, pressed);
                EngineAction::Nothing
            },
            WindowInput::CursorMoved => EngineAction::MoveCursor,
            WindowInput::RedrawRequested => EngineAction::Render,
            WindowInput::Other => EngineAction::Nothing,
        };
        (action, !self.running)
    }
}

} // verus!
