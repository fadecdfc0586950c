//! The state of keyboard, mouse and gamepads, and the actions of the game
//! that follow from it by the bindings.

use vstd::prelude::*;
use vstd::string::StringExecFns;
use std::collections::{HashMap, HashSet};
use crate::config::UNIT;
use crate::control::{GameAction, InputBinding};
use crate::math::{magnitude, multiply, saturate, saturate_to_i32, Vector2};
use crate::util::strings::StringSet;

verus! {

/// What the window system reports. Keys come by name, mouse buttons by
/// number from one for the left button, places in whole pixels.
#[derive(Debug, Clone)]
pub enum InputEvent {
    /// A key went down, or is held and repeats.
    KeyDown { key: String, repeat: bool },
    /// A key went up.
    KeyUp { key: String },
    MouseButtonDown(u8),
    MouseButtonUp(u8),
    /// The mouse moved to (`x`, `y`), by (`xrel`, `yrel`).
    MouseMotion { x: i32, y: i32, xrel: i32, yrel: i32 },
    MouseWheel { x: i32, y: i32 },
}

/// The key under which what is known of a button or an axis of a gamepad
/// is kept.
pub open spec fn pad_key(gamepad_id: u32, control: u8) -> u64 {
    (gamepad_id * 256 + control) as u64
}

/// What an input state holds.
pub struct InputView {
    /// The keys that are down, by name.
    pub pressed_keys: Set<Seq<char>>,
    /// The keys that went down in this frame.
    pub just_pressed_keys: Set<Seq<char>>,
    /// The keys that went up in this frame.
    pub just_released_keys: Set<Seq<char>>,
    /// The mouse buttons that are down.
    pub pressed_mouse_buttons: Set<u8>,
    /// The mouse buttons that went down in this frame.
    pub just_pressed_mouse_buttons: Set<u8>,
    /// The mouse buttons that went up in this frame.
    pub just_released_mouse_buttons: Set<u8>,
    /// Where the mouse is.
    pub mouse_position: Vector2,
    /// By how much the mouse moved in this frame.
    pub mouse_delta: Vector2,
    /// By how much the wheel turned in this frame.
    pub mouse_wheel_delta: Vector2,
    /// Whether each button of a gamepad is down, as far as known.
    pub gamepad_buttons: Map<u64, bool>,
    /// Where each axis of a gamepad stands, as far as known.
    pub gamepad_axes: Map<u64, i32>,
}

impl InputView {
    /// Where an axis of a gamepad stands: at rest where nothing is known.
    pub open spec fn axis(self, gamepad_id: u32, axis: u8) -> i32 {
        if self.gamepad_axes.contains_key(pad_key(gamepad_id, axis)) {
            self.gamepad_axes[pad_key(gamepad_id, axis)]
        } else {
            0
        }
    }

    /// Whether a button of a gamepad is down: up where nothing is known.
    pub open spec fn button(self, gamepad_id: u32, button: u8) -> bool {
        self.gamepad_buttons.contains_key(pad_key(gamepad_id, button))
            && self.gamepad_buttons[pad_key(gamepad_id, button)]
    }

    /// The state in which nothing is down and nothing has moved.
    pub open spec fn at_rest() -> InputView {
        InputView {
            pressed_keys: Set::empty(),
            just_pressed_keys: Set::empty(),
            just_released_keys: Set::empty(),
            pressed_mouse_buttons: Set::empty(),
            just_pressed_mouse_buttons: Set::empty(),
            just_released_mouse_buttons: Set::empty(),
            mouse_position: Vector2::origin(),
            mouse_delta: Vector2::origin(),
            mouse_wheel_delta: Vector2::origin(),
            gamepad_buttons: Map::empty(),
            gamepad_axes: Map::empty(),
        }
    }

    /// The state at the start of the next frame: what went down or up and
    /// how far the mouse moved or the wheel turned is forgotten.
    pub open spec fn next_frame(self) -> InputView {
        InputView {
            just_pressed_keys: Set::empty(),
            just_released_keys: Set::empty(),
            just_pressed_mouse_buttons: Set::empty(),
            just_released_mouse_buttons: Set::empty(),
            mouse_delta: Vector2::origin(),
            mouse_wheel_delta: Vector2::origin(),
            ..self
        }
    }

    /// The state after an event. A key or a button that goes down is down
    /// and went down in this frame; one that goes up is no longer down and
    /// went up in this frame; a key that repeats changes nothing. The mouse
    /// is where it moved to, and moved by as much as is reported times the
    /// sensitivity.
    pub open spec fn after(self, event: InputEvent, sensitivity: i32) -> InputView {
        match event {
            InputEvent::KeyDown { key, repeat } => if repeat {
                self
            } else {
                InputView {
                    pressed_keys: self.pressed_keys.insert(key@),
                    just_pressed_keys: self.just_pressed_keys.insert(key@),
                    ..self
                }
            },
            InputEvent::KeyUp { key } => InputView {
                pressed_keys: self.pressed_keys.remove(key@),
                just_released_keys: self.just_released_keys.insert(key@),
                ..self
            },
            InputEvent::MouseButtonDown(button) => InputView {
                pressed_mouse_buttons: self.pressed_mouse_buttons.insert(button),
                just_pressed_mouse_buttons: self.just_pressed_mouse_buttons.insert(button),
                ..self
            },
            InputEvent::MouseButtonUp(button) => InputView {
                pressed_mouse_buttons: self.pressed_mouse_buttons.remove(button),
                just_released_mouse_buttons: self.just_released_mouse_buttons.insert(button),
                ..self
            },
            InputEvent::MouseMotion { x, y, xrel, yrel } => InputView {
                mouse_position: Vector2 {
                    x: saturate(x * UNIT) as i32,
                    y: saturate(y * UNIT) as i32,
                },
                mouse_delta: Vector2 {
                    x: saturate(xrel * sensitivity) as i32,
                    y: saturate(yrel * sensitivity) as i32,
                },
                ..self
            },
            InputEvent::MouseWheel { x, y } => InputView {
                mouse_wheel_delta: Vector2 {
                    x: saturate(x * UNIT) as i32,
                    y: saturate(y * UNIT) as i32,
                },
                ..self
            },
        }
    }
}

/// The state of keyboard, mouse and gamepads.
pub struct InputState {
    pressed_keys: StringSet,
    just_pressed_keys: StringSet,
    just_released_keys: StringSet,
    pressed_mouse_buttons: HashSet<u8>,
    just_pressed_mouse_buttons: HashSet<u8>,
    just_released_mouse_buttons: HashSet<u8>,
    mouse_position: Vector2,
    mouse_delta: Vector2,
    mouse_wheel_delta: Vector2,
    gamepad_buttons: HashMap<u64, bool>,
    gamepad_axes: HashMap<u64, i32>,
}

impl View for InputState {
    type V = InputView;

    closed spec fn view(&self) -> InputView {
        InputView {
            pressed_keys: self.pressed_keys@,
            just_pressed_keys: self.just_pressed_keys@,
            just_released_keys: self.just_released_keys@,
            pressed_mouse_buttons: self.pressed_mouse_buttons@,
            just_pressed_mouse_buttons: self.just_pressed_mouse_buttons@,
            just_released_mouse_buttons: self.just_released_mouse_buttons@,
            mouse_position: self.mouse_position,
            mouse_delta: self.mouse_delta,
            mouse_wheel_delta: self.mouse_wheel_delta,
            gamepad_buttons: self.gamepad_buttons@,
            gamepad_axes: self.gamepad_axes@,
        }
    }
}

/// The number under which a button or an axis of a gamepad is kept.
fn pad_key_of(gamepad_id: u32, control: u8) -> (key: u64)
    ensures
        key == pad_key(gamepad_id, control),
{
    gamepad_id as u64 * 256 + control as u64
}

/// A number of pixels as a length.
fn pixels(n: i32) -> (length: i32)
    ensures
        length == saturate(n * UNIT),
{
    saturate_to_i32(multiply(n as i64, UNIT as i64))
}

impl InputState {
    /// The sets of names are sound.
    pub closed spec fn wf(&self) -> bool {
        &&& self.pressed_keys.wf()
        &&& self.just_pressed_keys.wf()
        &&& self.just_released_keys.wf()
    }

    /// A state in which nothing is down and nothing has moved.
    pub fn new() -> (state: Self)
        ensures
            state.wf(),
            state@ == InputView::at_rest(),
    {
        Self {
            pressed_keys: StringSet::new(),
            just_pressed_keys: StringSet::new(),
            just_released_keys: StringSet::new(),
            pressed_mouse_buttons: HashSet::new(),
            just_pressed_mouse_buttons: HashSet::new(),
            just_released_mouse_buttons: HashSet::new(),
            mouse_position: Vector2::zero(),
            mouse_delta: Vector2::zero(),
            mouse_wheel_delta: Vector2::zero(),
            gamepad_buttons: HashMap::new(),
            gamepad_axes: HashMap::new(),
        }
    }

    /// Forgets what belongs to the frame that is over: see `next_frame`.
    pub fn clear_frame_data(&mut self)
        requires
            old(self).wf(),
        ensures
            final(self).wf(),
            final(self)@ == old(self)@.next_frame(),
    {
        self.just_pressed_keys = StringSet::new();
        self.just_released_keys = StringSet::new();
        self.just_pressed_mouse_buttons.clear();
        self.just_released_mouse_buttons.clear();
        self.mouse_delta = Vector2::zero();
        self.mouse_wheel_delta = Vector2::zero();
    }

    /// Takes note of an event: see `after`.
    pub fn apply(&mut self, event: &InputEvent, sensitivity: i32)
        requires
            old(self).wf(),
        ensures
            final(self).wf(),
            final(self)@ == old(self)@.after(*event, sensitivity),
    {
        broadcast use vstd::std_specs::hash::group_hash_axioms;

        match event {
            InputEvent::KeyDown { key, repeat } => {
                if !*repeat {
                    self.pressed_keys.insert(key.clone());
                    self.just_pressed_keys.insert(key.clone());
                }
            },
            InputEvent::KeyUp { key } => {
                let _ = self.pressed_keys.remove(key.as_str());
                self.just_released_keys.insert(key.clone());
            },
            InputEvent::MouseButtonDown(button) => {
                let _ = self.pressed_mouse_buttons.insert(*button);
                let _ = self.just_pressed_mouse_buttons.insert(*button);
            },
            InputEvent::MouseButtonUp(button) => {
                let _ = self.pressed_mouse_buttons.remove(button);
                let _ = self.just_released_mouse_buttons.insert(*button);
            },
            InputEvent::MouseMotion { x, y, xrel, yrel } => {
                self.mouse_position = Vector2 { x: pixels(*x), y: pixels(*y) };
                self.mouse_delta = Vector2 {
                    x: saturate_to_i32(multiply(*xrel as i64, sensitivity as i64)),
                    y: saturate_to_i32(multiply(*yrel as i64, sensitivity as i64)),
                };
            },
            InputEvent::MouseWheel { x, y } => {
                self.mouse_wheel_delta = Vector2 { x: pixels(*x), y: pixels(*y) };
            },
        }
    }

    /// Whether a key is down.
    pub fn is_key_pressed(&self, key: &str) -> (down: bool)
        requires
            self.wf(),
        ensures
            down == self@.pressed_keys.contains(key@),
    {
        self.pressed_keys.contains(key)
    }

    /// Whether a key went down in this frame.
    pub fn is_key_just_pressed(&self, key: &str) -> (down: bool)
        requires
            self.wf(),
        ensures
            down == self@.just_pressed_keys.contains(key@),
    {
        self.just_pressed_keys.contains(key)
    }

    /// Whether a key went up in this frame.
    pub fn is_key_just_released(&self, key: &str) -> (up: bool)
        requires
            self.wf(),
        ensures
            up == self@.just_released_keys.contains(key@),
    {
        self.just_released_keys.contains(key)
    }

    /// Whether a mouse button is down.
    pub fn is_mouse_button_pressed(&self, button: u8) -> (down: bool)
        ensures
            down == self@.pressed_mouse_buttons.contains(button),
    {
        broadcast use vstd::std_specs::hash::group_hash_axioms;

        self.pressed_mouse_buttons.contains(&button)
    }

    /// Whether a mouse button went down in this frame.
    pub fn is_mouse_button_just_pressed(&self, button: u8) -> (down: bool)
        ensures
            down == self@.just_pressed_mouse_buttons.contains(button),
    {
        broadcast use vstd::std_specs::hash::group_hash_axioms;

        self.just_pressed_mouse_buttons.contains(&button)
    }

    /// Whether a mouse button went up in this frame.
    pub fn is_mouse_button_just_released(&self, button: u8) -> (up: bool)
        ensures
            up == self@.just_released_mouse_buttons.contains(button),
    {
        broadcast use vstd::std_specs::hash::group_hash_axioms;

        self.just_released_mouse_buttons.contains(&button)
    }

    /// Where the mouse is.
    pub fn mouse_position(&self) -> (at: Vector2)
        ensures
            at == self@.mouse_position,
    {
        self.mouse_position
    }

    /// By how much the mouse moved in this frame.
    pub fn mouse_delta(&self) -> (by: Vector2)
        ensures
            by == self@.mouse_delta,
    {
        self.mouse_delta
    }

    /// By how much the wheel turned in this frame.
    pub fn mouse_wheel_delta(&self) -> (by: Vector2)
        ensures
            by == self@.mouse_wheel_delta,
    {
        self.mouse_wheel_delta
    }

    /// Where an axis of a gamepad stands.
    pub fn gamepad_axis(&self, gamepad_id: u32, axis: u8) -> (value: i32)
        ensures
            value == self@.axis(gamepad_id, axis),
    {
        broadcast use vstd::std_specs::hash::group_hash_axioms;

        match self.gamepad_axes.get(&pad_key_of(gamepad_id, axis)) {
            Some(v) => *v,
            None => 0,
        }
    }

    /// Whether a button of a gamepad is down.
    pub fn is_gamepad_button_pressed(&self, gamepad_id: u32, button: u8) -> (down: bool)
        ensures
            down == self@.button(gamepad_id, button),
    {
        broadcast use vstd::std_specs::hash::group_hash_axioms;

        match self.gamepad_buttons.get(&pad_key_of(gamepad_id, button)) {
            Some(v) => *v,
            None => false,
        }
    }

    /// Takes note of where an axis of a gamepad stands.
    pub fn set_gamepad_axis(&mut self, gamepad_id: u32, axis: u8, value: i32)
        ensures
            final(self).wf() == old(self).wf(),
            final(self)@ == (InputView {
                gamepad_axes: old(self)@.gamepad_axes.insert(pad_key(gamepad_id, axis), value),
                ..old(self)@
            }),
    {
        let _ = self.gamepad_axes.insert(pad_key_of(gamepad_id, axis), value);
    }

    /// Takes note of whether a button of a gamepad is down.
    pub fn set_gamepad_button(&mut self, gamepad_id: u32, button: u8, down: bool)
        ensures
            final(self).wf() == old(self).wf(),
            final(self)@ == (InputView {
                gamepad_buttons: old(self)@.gamepad_buttons.insert(
                    pad_key(gamepad_id, button),
                    down,
                ),
                ..old(self)@
            }),
    {
        let _ = self.gamepad_buttons.insert(pad_key_of(gamepad_id, button), down);
    }
}

/// Whether what a binding is bound to is held: the key or the button is
/// down, or the axis stands beyond the dead zone on the side of the
/// binding. Mouse buttons are numbered from one to five.
pub open spec fn held(state: InputView, deadzone: i32, binding: InputBinding) -> bool {
    match binding {
        InputBinding::Key(name) => state.pressed_keys.contains(name@),
        InputBinding::MouseButton(button) => 1 <= button <= 5
            && state.pressed_mouse_buttons.contains(button),
        InputBinding::GamepadButton(gamepad_id, button) => state.button(gamepad_id, button),
        InputBinding::GamepadAxis(gamepad_id, axis, positive) => if positive {
            state.axis(gamepad_id, axis) > deadzone
        } else {
            state.axis(gamepad_id, axis) < -deadzone
        },
    }
}

/// Whether what a binding is bound to went down in this frame. Of
/// gamepads nothing is known from one frame to the next.
pub open spec fn went_down(state: InputView, binding: InputBinding) -> bool {
    match binding {
        InputBinding::Key(name) => state.just_pressed_keys.contains(name@),
        InputBinding::MouseButton(button) => 1 <= button <= 5
            && state.just_pressed_mouse_buttons.contains(button),
        _ => false,
    }
}

/// Whether what a binding is bound to went up in this frame.
pub open spec fn went_up(state: InputView, binding: InputBinding) -> bool {
    match binding {
        InputBinding::Key(name) => state.just_released_keys.contains(name@),
        InputBinding::MouseButton(button) => 1 <= button <= 5
            && state.just_released_mouse_buttons.contains(button),
        _ => false,
    }
}

/// How strongly what a binding is bound to is held: a key or a button
/// fully or not at all, an axis by as much as it stands to the side of the
/// binding.
pub open spec fn strength(state: InputView, deadzone: i32, binding: InputBinding) -> int {
    match binding {
        InputBinding::GamepadAxis(gamepad_id, axis, positive) => {
            let value = if positive {
                state.axis(gamepad_id, axis) as int
            } else {
                -state.axis(gamepad_id, axis)
            };
            if value > 0 {
                saturate(value)
            } else {
                0
            }
        },
        _ => if held(state, deadzone, binding) {
            UNIT as int
        } else {
            0
        },
    }
}

/// The greatest strength among the bindings of a list; none at all where
/// the list is empty.
pub open spec fn strongest(state: InputView, deadzone: i32, list: Seq<InputBinding>) -> int
    decreases list.len(),
{
    if list.len() == 0 {
        0
    } else {
        let rest = strongest(state, deadzone, list.drop_last());
        let last = strength(state, deadzone, list.last());
        if last > rest {
            last
        } else {
            rest
        }
    }
}

/// A list of bindings without those to the same thing as `binding`.
pub open spec fn without(list: Seq<InputBinding>, binding: InputBinding) -> Seq<InputBinding>
    decreases list.len(),
{
    if list.len() == 0 {
        Seq::empty()
    } else if list[0].same(binding) {
        without(list.drop_first(), binding)
    } else {
        seq![list[0]] + without(list.drop_first(), binding)
    }
}

/// The bindings of a list are to the keys of the given names, in turn.
pub open spec fn binds_keys(list: Seq<InputBinding>, names: Seq<Seq<char>>) -> bool {
    &&& list.len() == names.len()
    &&& forall|i: int|
        0 <= i < list.len() ==> (#[trigger] list[i]) is Key && list[i]->Key_0@ == names[i]
}

/// The keys an action is bound to as long as nobody changes the bindings.
pub open spec fn default_keys(action: GameAction) -> Seq<Seq<char>> {
    match action {
        GameAction::MoveLeft => seq!["Left"@, "A"@],
        GameAction::MoveRight => seq!["Right"@, "D"@],
        GameAction::Jump => seq!["Space"@, "Up"@, "W"@],
        GameAction::Duck => seq!["Down"@, "S"@],
        GameAction::Run => seq!["Left Shift"@, "Right Shift"@],
        GameAction::Pause => seq!["P"@, "Escape"@],
        GameAction::Menu => seq!["Escape"@],
        GameAction::Confirm => seq!["Return"@, "Space"@],
        GameAction::Cancel => seq!["Escape"@],
        GameAction::ToggleDebug => seq!["F3"@],
        GameAction::Screenshot => seq!["F12"@],
        GameAction::MenuUp => seq!["Up"@, "W"@],
        GameAction::MenuDown => seq!["Down"@, "S"@],
        GameAction::MenuLeft => seq!["Left"@, "A"@],
        GameAction::MenuRight => seq!["Right"@, "D"@],
        GameAction::MenuSelect => seq!["Return"@, "Space"@],
        GameAction::MenuBack => seq!["Escape"@],
    }
}

/// What actions are bound to, and how the mouse and the gamepads are read.
#[derive(Debug, Clone)]
pub struct InputConfig {
    /// The bindings of each action, in the order of the actions.
    pub bindings: Vec<Vec<InputBinding>>,
    /// By what the movement of the mouse is multiplied.
    pub mouse_sensitivity: i32,
    /// How far an axis must stand from rest to count.
    pub gamepad_deadzone: i32,
}

/// Bindings to one, two or three keys.
fn keys(first: &str, second: Option<&str>, third: Option<&str>) -> (list: Vec<InputBinding>)
    ensures
        binds_keys(
            list@,
            seq![first@] + (match second {
                Some(s) => seq![s@],
                None => Seq::empty(),
            }) + (match third {
                Some(t) => seq![t@],
                None => Seq::empty(),
            }),
        ),
{
    let mut list: Vec<InputBinding> = Vec::new();
    list.push(InputBinding::Key(String::from_str(first)));
    if let Some(s) = second {
        list.push(InputBinding::Key(String::from_str(s)));
    }
    if let Some(t) = third {
        list.push(InputBinding::Key(String::from_str(t)));
    }
    list
}

impl InputConfig {
    /// There is a list of bindings for each action.
    pub open spec fn wf(&self) -> bool {
        self.bindings@.len() == 17
    }

    /// The bindings of an action.
    pub open spec fn bound(&self, action: GameAction) -> Seq<InputBinding> {
        self.bindings@[action.ordinal()]@
    }
}

impl Default for InputConfig {
    /// The bindings of `default_keys`, a mouse that moves as reported, and
    /// a dead zone of a tenth.
    fn default() -> (config: Self)
        ensures
            config.wf(),
            config.mouse_sensitivity == UNIT,
            config.gamepad_deadzone == 100,
            forall|action: GameAction| #[trigger]
                binds_keys(config.bound(action), default_keys(action)),
    {
        let mut bindings: Vec<Vec<InputBinding>> = Vec::new();
        bindings.push(keys("Left", Some("A"), None));
        bindings.push(keys("Right", Some("D"), None));
        bindings.push(keys("Space", Some("Up"), Some("W")));
        bindings.push(keys("Down", Some("S"), None));
        bindings.push(keys("Left Shift", Some("Right Shift"), None));
        bindings.push(keys("P", Some("Escape"), None));
        bindings.push(keys("Escape", None, None));
        bindings.push(keys("Return", Some("Space"), None));
        bindings.push(keys("Escape", None, None));
        bindings.push(keys("F3", None, None));
        bindings.push(keys("F12", None, None));
        bindings.push(keys("Up", Some("W"), None));
        bindings.push(keys("Down", Some("S"), None));
        bindings.push(keys("Left", Some("A"), None));
        bindings.push(keys("Right", Some("D"), None));
        bindings.push(keys("Return", Some("Space"), None));
        bindings.push(keys("Escape", None, None));
        let config = Self { bindings, mouse_sensitivity: UNIT, gamepad_deadzone: 100 };
        proof {
            assert forall|action: GameAction| #[trigger]
                binds_keys(config.bound(action), default_keys(action)) by {
                let names = default_keys(action);
                let list = config.bound(action);
                assert(list.len() == names.len());
            }
        }
        config
    }
}

/// Reads the input and says which actions it asks for.
pub struct InputManager {
    state: InputState,
    config: InputConfig,
}

/// What an input manager holds.
pub struct ManagerView {
    pub state: InputView,
    pub config: InputConfig,
}

impl ManagerView {
    /// Whether an action is asked for: something it is bound to is held.
    pub open spec fn pressed(self, action: GameAction) -> bool {
        exists|i: int|
            0 <= i < self.config.bound(action).len() && held(
                self.state,
                self.config.gamepad_deadzone,
                #[trigger] self.config.bound(action)[i],
            )
    }

    /// Whether an action was first asked for in this frame.
    pub open spec fn just_pressed(self, action: GameAction) -> bool {
        exists|i: int|
            0 <= i < self.config.bound(action).len() && went_down(
                self.state,
                #[trigger] self.config.bound(action)[i],
            )
    }

    /// Whether an action stopped being asked for in this frame.
    pub open spec fn just_released(self, action: GameAction) -> bool {
        exists|i: int|
            0 <= i < self.config.bound(action).len() && went_up(
                self.state,
                #[trigger] self.config.bound(action)[i],
            )
    }
}

impl View for InputManager {
    type V = ManagerView;

    closed spec fn view(&self) -> ManagerView {
        ManagerView { state: self.state@, config: self.config }
    }
}

impl InputManager {
    /// The state is sound and there are bindings for each action.
    pub closed spec fn wf(&self) -> bool {
        self.state.wf() && self.config.wf()
    }

    /// A manager with the default bindings, and nothing down.
    pub fn new() -> (manager: Self)
        ensures
            manager.wf(),
            manager@.state == InputView::at_rest(),
            manager@.config.mouse_sensitivity == UNIT,
            manager@.config.gamepad_deadzone == 100,
            forall|action: GameAction| #[trigger]
                binds_keys(manager@.config.bound(action), default_keys(action)),
    {
        Self { state: InputState::new(), config: InputConfig::default() }
    }

    /// Takes note of an event.
    pub fn process_event(&mut self, event: &InputEvent)
        requires
            old(self).wf(),
        ensures
            final(self).wf(),
            final(self)@ == (ManagerView {
                state: old(self)@.state.after(*event, old(self)@.config.mouse_sensitivity),
                ..old(self)@
            }),
    {
        self.state.apply(event, self.config.mouse_sensitivity);
    }

    /// Ends the frame: what went down or up in it is forgotten.
    pub fn update(&mut self)
        requires
            old(self).wf(),
        ensures
            final(self).wf(),
            final(self)@ == (ManagerView { state: old(self)@.state.next_frame(), ..old(self)@ }),
    {
        self.state.clear_frame_data();
    }

    /// Whether what a binding is bound to is held.
    pub fn is_binding_pressed(&self, binding: &InputBinding) -> (down: bool)
        requires
            self.wf(),
        ensures
            down == held(self@.state, self@.config.gamepad_deadzone, *binding),
    {
        match binding {
            InputBinding::Key(key_name) => self.state.is_key_pressed(key_name.as_str()),
            InputBinding::MouseButton(button) => {
                if *button >= 1 && *button <= 5 {
                    self.state.is_mouse_button_pressed(*button)
                } else {
                    false
                }
            },
            InputBinding::GamepadButton(gamepad_id, button) => {
                self.state.is_gamepad_button_pressed(*gamepad_id, *button)
            },
            InputBinding::GamepadAxis(gamepad_id, axis, positive) => {
                let value = self.state.gamepad_axis(*gamepad_id, *axis);
                if *positive {
                    value > self.config.gamepad_deadzone
                } else {
                    (value as i64) < -(self.config.gamepad_deadzone as i64)
                }
            },
        }
    }

    /// Whether what a binding is bound to went down in this frame.
    pub fn is_binding_just_pressed(&self, binding: &InputBinding) -> (down: bool)
        requires
            self.wf(),
        ensures
            down == went_down(self@.state, *binding),
    {
        match binding {
            InputBinding::Key(key_name) => self.state.is_key_just_pressed(key_name.as_str()),
            InputBinding::MouseButton(button) => {
                if *button >= 1 && *button <= 5 {
                    self.state.is_mouse_button_just_pressed(*button)
                } else {
                    false
                }
            },
            InputBinding::GamepadButton(_, _) => false,
            InputBinding::GamepadAxis(_, _, _) => false,
        }
    }

    /// Whether what a binding is bound to went up in this frame.
    pub fn is_binding_just_released(&self, binding: &InputBinding) -> (up: bool)
        requires
            self.wf(),
        ensures
            up == went_up(self@.state, *binding),
    {
        match binding {
            InputBinding::Key(key_name) => self.state.is_key_just_released(key_name.as_str()),
            InputBinding::MouseButton(button) => {
                if *button >= 1 && *button <= 5 {
                    self.state.is_mouse_button_just_released(*button)
                } else {
                    false
                }
            },
            InputBinding::GamepadButton(_, _) => false,
            InputBinding::GamepadAxis(_, _, _) => false,
        }
    }

    /// How strongly what a binding is bound to is held.
    pub fn get_binding_strength(&self, binding: &InputBinding) -> (value: i32)
        requires
            self.wf(),
        ensures
            value == strength(self@.state, self@.config.gamepad_deadzone, *binding),
    {
        match binding {
            InputBinding::GamepadAxis(gamepad_id, axis, positive) => {
                let value = self.state.gamepad_axis(*gamepad_id, *axis);
                let side: i64 = if *positive {
                    value as i64
                } else {
                    -(value as i64)
                };
                if side > 0 {
                    saturate_to_i32(side as i128)
                } else {
                    0
                }
            },
            _ => {
                if self.is_binding_pressed(binding) {
                    UNIT
                } else {
                    0
                }
            },
        }
    }

    /// Whether an action is asked for.
    pub fn is_action_pressed(&self, action: GameAction) -> (down: bool)
        requires
            self.wf(),
        ensures
            down == self@.pressed(action),
    {
        let list = &self.config.bindings[action.index()];
        let mut i: usize = 0;
        while i < list.len()
            invariant
                i <= list@.len(),
                self.wf(),
                *list == self.config.bindings@[action.ordinal()],
                forall|k: int|
                    0 <= k < i ==> !held(
                        self@.state,
                        self@.config.gamepad_deadzone,
                        #[trigger] list@[k],
                    ),
            decreases list@.len() - i,
        {
            if self.is_binding_pressed(&list[i]) {
                assert(held(
                    self@.state,
                    self@.config.gamepad_deadzone,
                    self@.config.bound(action)[i as int],
                ));
                return true;
            }
            i += 1;
        }
        false
    }

    /// Whether an action was first asked for in this frame.
    pub fn is_action_just_pressed(&self, action: GameAction) -> (down: bool)
        requires
            self.wf(),
        ensures
            down == self@.just_pressed(action),
    {
        let list = &self.config.bindings[action.index()];
        let mut i: usize = 0;
        while i < list.len()
            invariant
                i <= list@.len(),
                self.wf(),
                *list == self.config.bindings@[action.ordinal()],
                forall|k: int| 0 <= k < i ==> !went_down(self@.state, #[trigger] list@[k]),
            decreases list@.len() - i,
        {
            if self.is_binding_just_pressed(&list[i]) {
                assert(went_down(self@.state, self@.config.bound(action)[i as int]));
                return true;
            }
            i += 1;
        }
        false
    }

    /// Whether an action stopped being asked for in this frame.
    pub fn is_action_just_released(&self, action: GameAction) -> (up: bool)
        requires
            self.wf(),
        ensures
            up == self@.just_released(action),
    {
        let list = &self.config.bindings[action.index()];
        let mut i: usize = 0;
        while i < list.len()
            invariant
                i <= list@.len(),
                self.wf(),
                *list == self.config.bindings@[action.ordinal()],
                forall|k: int| 0 <= k < i ==> !went_up(self@.state, #[trigger] list@[k]),
            decreases list@.len() - i,
        {
            if self.is_binding_just_released(&list[i]) {
                assert(went_up(self@.state, self@.config.bound(action)[i as int]));
                return true;
            }
            i += 1;
        }
        false
    }

    /// How strongly an action is asked for: the greatest strength among
    /// its bindings.
    pub fn get_action_strength(&self, action: GameAction) -> (value: i32)
        requires
            self.wf(),
        ensures
            value == strongest(
                self@.state,
                self@.config.gamepad_deadzone,
                self@.config.bound(action),
            ),
    {
        let list = &self.config.bindings[action.index()];
        let mut max_strength: i32 = 0;
        let mut i: usize = 0;
        while i < list.len()
            invariant
                i <= list@.len(),
                self.wf(),
                *list == self.config.bindings@[action.ordinal()],
                max_strength == strongest(
                    self@.state,
                    self@.config.gamepad_deadzone,
                    list@.take(i as int),
                ),
            decreases list@.len() - i,
        {
            let value = self.get_binding_strength(&list[i]);
            proof {
                assert(list@.take(i + 1).drop_last() =~= list@.take(i as int));
                assert(list@.take(i + 1).last() == list@[i as int]);
            }
            if value > max_strength {
                max_strength = value;
            }
            i += 1;
        }
        proof {
            assert(list@.take(i as int) =~= list@);
        }
        max_strength
    }

    /// Where the player wants to go: one unit to the right where moving
    /// right is asked for, one to the left where moving left is, and
    /// nowhere where both are or neither is.
    pub fn get_movement_vector(&self) -> (movement: Vector2)
        requires
            self.wf(),
        ensures
            movement.y == 0,
            movement.x == (if self@.pressed(GameAction::MoveRight) {
                UNIT as int
            } else {
                0
            }) - (if self@.pressed(GameAction::MoveLeft) {
                UNIT as int
            } else {
                0
            }),
    {
        let mut x: i32 = 0;
        if self.is_action_pressed(GameAction::MoveLeft) {
            x = x - UNIT;
        }
        if self.is_action_pressed(GameAction::MoveRight) {
            x = x + UNIT;
        }
        Vector2::new(x, 0)
    }

    /// Takes note of where an axis of a gamepad stands.
    pub fn set_gamepad_axis(&mut self, gamepad_id: u32, axis: u8, value: i32)
        ensures
            final(self).wf() == old(self).wf(),
            final(self)@ == (ManagerView {
                state: InputView {
                    gamepad_axes: old(self)@.state.gamepad_axes.insert(
                        pad_key(gamepad_id, axis),
                        value,
                    ),
                    ..old(self)@.state
                },
                ..old(self)@
            }),
    {
        self.state.set_gamepad_axis(gamepad_id, axis, value);
    }

    /// Takes note of whether a button of a gamepad is down.
    pub fn set_gamepad_button(&mut self, gamepad_id: u32, button: u8, down: bool)
        ensures
            final(self).wf() == old(self).wf(),
            final(self)@ == (ManagerView {
                state: InputView {
                    gamepad_buttons: old(self)@.state.gamepad_buttons.insert(
                        pad_key(gamepad_id, button),
                        down,
                    ),
                    ..old(self)@.state
                },
                ..old(self)@
            }),
    {
        self.state.set_gamepad_button(gamepad_id, button, down);
    }

    /// The state of the devices.
    pub fn state(&self) -> (state: &InputState)
        ensures
            state@ == self@.state,
            self.wf() ==> state.wf(),
    {
        &self.state
    }

    /// The bindings and settings.
    pub fn config(&self) -> (config: &InputConfig)
        ensures
            *config == self@.config,
    {
        &self.config
    }

    /// Puts other bindings and settings in place of those there are.
    pub fn set_config(&mut self, config: InputConfig)
        requires
            config.wf(),
        ensures
            final(self)@ == (ManagerView { config, ..old(self)@ }),
            old(self).wf() ==> final(self).wf(),
    {
        self.config = config;
    }

    /// Binds an action to one thing more.
    pub fn add_binding(&mut self, action: GameAction, binding: InputBinding)
        requires
            old(self).wf(),
        ensures
            final(self).wf(),
            final(self)@.state == old(self)@.state,
            final(self)@.config.mouse_sensitivity == old(self)@.config.mouse_sensitivity,
            final(self)@.config.gamepad_deadzone == old(self)@.config.gamepad_deadzone,
            final(self)@.config.bound(action) == old(self)@.config.bound(action).push(binding),
            forall|other: GameAction|
                other != action ==> #[trigger] final(self)@.config.bound(other) == old(
                    self,
                )@.config.bound(other),
    {
        let i = action.index();
        proof {
            assert forall|other: GameAction| other != action implies other.ordinal()
                != action.ordinal() by {}
        }
        let list = &mut self.config.bindings[i];
        list.push(binding);
    }

    /// Unbinds an action from a thing: every binding of the action to the
    /// same thing goes.
    pub fn remove_binding(&mut self, action: GameAction, binding: &InputBinding)
        requires
            old(self).wf(),
        ensures
            final(self).wf(),
            final(self)@.state == old(self)@.state,
            final(self)@.config.mouse_sensitivity == old(self)@.config.mouse_sensitivity,
            final(self)@.config.gamepad_deadzone == old(self)@.config.gamepad_deadzone,
            final(self)@.config.bound(action) == without(
                old(self)@.config.bound(action),
                *binding,
            ),
            forall|other: GameAction|
                other != action ==> #[trigger] final(self)@.config.bound(other) == old(
                    self,
                )@.config.bound(other),
    {
        let i = action.index();
        proof {
            assert forall|other: GameAction| other != action implies other.ordinal()
                != action.ordinal() by {}
        }
        let mut remaining: Vec<InputBinding> = Vec::new();
        core::mem::swap(&mut self.config.bindings[i], &mut remaining);
        let ghost all = remaining@;
        let mut kept: Vec<InputBinding> = Vec::new();
        while remaining.len() > 0
            invariant
                kept@ + without(remaining@, *binding) == without(all, *binding),
            decreases remaining@.len(),
        {
            let ghost before = remaining@;
            let ghost kept_before = kept@;
            let first = remaining.remove(0);
            proof {
                assert(remaining@ =~= before.drop_first());
            }
            if !first.same_as(binding) {
                kept.push(first);
                proof {
                    assert(kept@ + without(remaining@, *binding) =~= kept_before + (seq![first]
                        + without(remaining@, *binding)));
                }
            }
        }
        proof {
            assert(kept@ + without(remaining@, *binding) =~= kept@);
        }
        self.config.bindings.set(i, kept);
    }

    /// Unbinds an action from everything.
    pub fn clear_bindings(&mut self, action: GameAction)
        requires
            old(self).wf(),
        ensures
            final(self).wf(),
            final(self)@.state == old(self)@.state,
            final(self)@.config.mouse_sensitivity == old(self)@.config.mouse_sensitivity,
            final(self)@.config.gamepad_deadzone == old(self)@.config.gamepad_deadzone,
            final(self)@.config.bound(action) == Seq::<InputBinding>::empty(),
            forall|other: GameAction|
                other != action ==> #[trigger] final(self)@.config.bound(other) == old(
                    self,
                )@.config.bound(other),
    {
        let i = action.index();
        proof {
            assert forall|other: GameAction| other != action implies other.ordinal()
                != action.ordinal() by {}
        }
        self.config.bindings.set(i, Vec::new());
    }
}

} // verus!
