//! Input state: keyboard keys, mouse and gamepad buttons as four-phase state
//! machines, action maps and the manager that ties them together.
pub mod keyboard;
pub mod mouse;
pub mod gamepad;
pub mod input_map;
pub mod input_manager;
