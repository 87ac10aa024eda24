//! The keyboard tracker: which keys are down, and which changed in the
//! current frame.

use std::collections::HashMap;

use vstd::prelude::*;

use crate::io::event::{ElementState, InputEvent};

verus! {

broadcast use vstd::std_specs::hash::group_hash_axioms;

/// What is known of one key: level state and the edge flag of the current
/// frame.
pub struct KeyState {
    pub currently_down: bool,
    pub changed_this_frame: bool,
}

/// The mathematical state of a [`Keyboard`]: one [`KeyState`] for each key
/// that an event has named so far. A key enters on its first event and never
/// leaves.
#[verifier::ext_equal]
pub struct KeyboardState {
    pub keys: Map<u32, KeyState>,
}

impl KeyboardState {
    /// The state of a tracker that has seen no event.
    pub open spec fn initial() -> KeyboardState {
        KeyboardState { keys: Map::empty() }
    }

    /// `key` went down (`pressed`) or came up, in this frame.
    pub open spec fn key_changed(self, key: u32, pressed: bool) -> KeyboardState {
        KeyboardState {
            keys: self.keys.insert(
                key,
                KeyState { currently_down: pressed, changed_this_frame: true },
            ),
        }
    }

    /// The state after one event. Only a key event that names its key
    /// changes anything.
    pub open spec fn after_event(self, event: InputEvent) -> KeyboardState {
        match event {
            InputEvent::KeyboardInput { state, virtual_keycode: Some(key) } => self.key_changed(
                key,
                state == ElementState::Pressed,
            ),
            _ => self,
        }
    }

    /// The state at the start of the next frame: the same keys, each as far
    /// down as before, none of them changed.
    pub open spec fn after_frame(self) -> KeyboardState {
        KeyboardState {
            keys: Map::new(
                |key: u32| self.keys.contains_key(key),
                |key: u32|
                    KeyState {
                        currently_down: self.keys[key].currently_down,
                        changed_this_frame: false,
                    },
            ),
        }
    }

    /// `key` is down. A key that no event has named is up.
    pub open spec fn is_pressed(self, key: u32) -> bool {
        self.keys.contains_key(key) && self.keys[key].currently_down
    }

    /// `key` changed state in this frame.
    pub open spec fn changed_this_frame(self, key: u32) -> bool {
        self.keys.contains_key(key) && self.keys[key].changed_this_frame
    }

    /// `key` went down in this frame and is still down.
    pub open spec fn pressed_this_frame(self, key: u32) -> bool {
        self.is_pressed(key) && self.changed_this_frame(key)
    }

    /// `key` came up in this frame and is still up.
    pub open spec fn released_this_frame(self, key: u32) -> bool {
        !self.is_pressed(key) && self.changed_this_frame(key)
    }

    /// A key event for `key`, in the shape the tracker receives it.
    pub open spec fn key_event(key: u32, state: ElementState) -> InputEvent {
        InputEvent::KeyboardInput { state, virtual_keycode: Some(key) }
    }

    /// For every key: once it is pressed, it reads as down and as pressed in
    /// this frame; when the next frame begins it is still down, but no
    /// longer pressed in this frame.
    pub proof fn lemma_press_is_seen_for_one_frame(self, key: u32)
        ensures
            self.after_event(Self::key_event(key, ElementState::Pressed)).is_pressed(key),
            self.after_event(Self::key_event(key, ElementState::Pressed)).pressed_this_frame(key),
            self.after_event(Self::key_event(key, ElementState::Pressed)).after_frame().is_pressed(
                key,
            ),
            !self.after_event(
                Self::key_event(key, ElementState::Pressed),
            ).after_frame().pressed_this_frame(key),
    {
    }

    /// For every key: pressed and released within one frame, it reads as up
    /// and as released in this frame.
    pub proof fn lemma_press_then_release_in_one_frame(self, key: u32)
        ensures
            !self.after_event(Self::key_event(key, ElementState::Pressed)).after_event(
                Self::key_event(key, ElementState::Released),
            ).is_pressed(key),
            self.after_event(Self::key_event(key, ElementState::Pressed)).after_event(
                Self::key_event(key, ElementState::Released),
            ).released_this_frame(key),
    {
    }

    /// An event about one key says nothing about any other key.
    pub proof fn lemma_other_keys_untouched(self, event: InputEvent, key: u32)
        requires
            !(event matches InputEvent::KeyboardInput { virtual_keycode: Some(k), .. } && k == key),
        ensures
            self.after_event(event).keys.contains_key(key) == self.keys.contains_key(key),
            self.after_event(event).keys[key] == self.keys[key],
    {
    }

    /// The start of a frame changes no level state and forgets no key.
    pub proof fn lemma_frame_keeps_levels(self, key: u32)
        ensures
            self.after_frame().is_pressed(key) == self.is_pressed(key),
            self.after_frame().keys.contains_key(key) == self.keys.contains_key(key),
            !self.after_frame().changed_this_frame(key),
    {
    }
}

/// Tracks the keys of the keyboard from the events it is handed. A key is
/// named by the code that the windowing backend gives it.
pub struct Keyboard {
    keys: HashMap<u32, bool>,
    this_frame: HashMap<u32, bool>,
}

impl View for Keyboard {
    type V = KeyboardState;

    closed spec fn view(&self) -> KeyboardState {
        KeyboardState {
            keys: Map::new(
                |key: u32| self.keys@.contains_key(key),
                |key: u32|
                    KeyState {
                        currently_down: self.keys@[key],
                        changed_this_frame: self.this_frame@.contains_key(key)
                            && self.this_frame@[key],
                    },
            ),
        }
    }
}

impl Keyboard {
    /// A tracker that has seen no event: it knows no key.
    pub fn new() -> (keyboard: Keyboard)
        ensures
            keyboard@ == KeyboardState::initial(),
    {
        let keyboard = Keyboard { keys: HashMap::new(), this_frame: HashMap::new() };
        assert(keyboard@.keys =~= KeyboardState::initial().keys);
        keyboard
    }

    fn press(&mut self, key: u32)
        ensures
            final(self)@ == old(self)@.key_changed(key, true),
    {
        self.keys.insert(key, true);
        self.this_frame.insert(key, true);
        assert(self@.keys =~= old(self)@.key_changed(key, true).keys);
    }

    fn release(&mut self, key: u32)
        ensures
            final(self)@ == old(self)@.key_changed(key, false),
    {
        self.keys.insert(key, false);
        self.this_frame.insert(key, true);
        assert(self@.keys =~= old(self)@.key_changed(key, false).keys);
    }

    /// Brings the tracker up to date with one event.
    ///
    /// A key event that names its key sets that key's level state and marks
    /// it as changed in this frame. A key event without a name, and every
    /// other event, is ignored.
    pub fn handle_event(&mut self, event: &InputEvent)
        ensures
            final(self)@ == old(self)@.after_event(*event),
    {
        match *event {
            InputEvent::KeyboardInput { state, virtual_keycode } => {
                match virtual_keycode {
                    None => {},
                    Some(key) => {
                        match state {
                            ElementState::Pressed => self.press(key),
                            ElementState::Released => self.release(key),
                        }
                    },
                }
            },
            _ => {},
        }
    }

    /// Whether `key` went down in this frame.
    pub fn pressed_this_frame(&self, key: &u32) -> (yes: bool)
        ensures
            yes == self@.pressed_this_frame(*key),
    {
        match self.keys.get(key) {
            Some(true) => match self.this_frame.get(key) {
                Some(true) => true,
                _ => false,
            },
            _ => false,
        }
    }

    /// Whether `key` came up in this frame.
    pub fn released_this_frame(&self, key: &u32) -> (yes: bool)
        ensures
            yes == self@.released_this_frame(*key),
    {
        match self.keys.get(key) {
            Some(false) => match self.this_frame.get(key) {
                Some(true) => true,
                _ => false,
            },
            _ => false,
        }
    }

    /// Whether `key` is down.
    pub fn is_pressed(&self, key: &u32) -> (down: bool)
        ensures
            down == self@.is_pressed(*key),
    {
        match self.keys.get(key) {
            Some(true) => true,
            _ => false,
        }
    }

    /// Starts the next frame: clears every changed flag.
    pub fn next_frame(&mut self)
        ensures
            final(self)@ == old(self)@.after_frame(),
    {
        self.this_frame.clear();
        assert(self@.keys =~= old(self)@.after_frame().keys);
    }
}

} // verus!
