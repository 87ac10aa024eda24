//! The mouse tracker: where the pointer is, how far it moved in the current
//! frame, and which buttons are down or changed in the current frame.

use vstd::prelude::*;

use crate::io::event::{ElementState, InputEvent, MouseButton, BUTTON_SLOTS};

verus! {

/// The `i32` that differs from `v` by a multiple of 2^32: what two's
/// complement arithmetic on 32 bits makes of `v`.
pub open spec fn wrap_i32(v: int) -> int {
    (v + 0x8000_0000) % 0x1_0000_0000 - 0x8000_0000
}

/// Within the range of `i32`, wrapping changes nothing.
pub proof fn lemma_wrap_i32_in_range(v: int)
    requires
        i32::MIN <= v <= i32::MAX,
    ensures
        wrap_i32(v) == v,
{
}

/// Wrapping always lands in the range of `i32`, on a value congruent to the
/// argument.
pub proof fn lemma_wrap_i32_congruent(v: int)
    ensures
        i32::MIN <= wrap_i32(v) <= i32::MAX,
        (wrap_i32(v) - v) % 0x1_0000_0000 == 0,
{
}

/// Wrapping a sum gives the same whether or not one summand was wrapped
/// before.
pub proof fn lemma_wrap_i32_absorbs(a: int, b: int)
    ensures
        wrap_i32(wrap_i32(a) + b) == wrap_i32(a + b),
{
    assert(wrap_i32(wrap_i32(a) + b) == wrap_i32(a + b)) by (nonlinear_arith);
}

/// One button slot: level state and the edge flag of the current frame.
pub struct ButtonState {
    pub pressed: bool,
    pub changed_this_frame: bool,
}

/// The mathematical state of a [`Mouse`].
pub struct MouseState {
    /// Last reported absolute position.
    pub position: (int, int),
    /// Movement accumulated since the frame began.
    pub frame_delta: (int, int),
    /// One entry per button slot.
    pub buttons: Seq<ButtonState>,
}

impl MouseState {
    /// The state of a tracker that has seen no event.
    pub open spec fn initial() -> MouseState {
        MouseState {
            position: (0, 0),
            frame_delta: (0, 0),
            buttons: Seq::new(
                BUTTON_SLOTS as nat,
                |i: int| ButtonState { pressed: false, changed_this_frame: false },
            ),
        }
    }

    /// Every [`Mouse`] has a state of this shape: one entry per slot, and
    /// coordinates that fit in `i32`.
    pub open spec fn wf(self) -> bool {
        &&& self.buttons.len() == BUTTON_SLOTS
        &&& i32::MIN <= self.position.0 <= i32::MAX
        &&& i32::MIN <= self.position.1 <= i32::MAX
        &&& i32::MIN <= self.frame_delta.0 <= i32::MAX
        &&& i32::MIN <= self.frame_delta.1 <= i32::MAX
    }

    /// The pointer is reported at `(x, y)`: that becomes the position, and
    /// the signed difference to the old position is added to the frame's
    /// delta, wrapping at the ends of `i32`.
    pub open spec fn moved_to(self, x: int, y: int) -> MouseState {
        MouseState {
            position: (x, y),
            frame_delta: (
                wrap_i32(self.frame_delta.0 + (x - self.position.0)),
                wrap_i32(self.frame_delta.1 + (y - self.position.1)),
            ),
            buttons: self.buttons,
        }
    }

    /// The button in `slot` went down (`pressed`) or came up, in this frame.
    pub open spec fn button_changed(self, slot: int, pressed: bool) -> MouseState {
        MouseState {
            position: self.position,
            frame_delta: self.frame_delta,
            buttons: self.buttons.update(
                slot,
                ButtonState { pressed, changed_this_frame: true },
            ),
        }
    }

    /// The state after one event. A button without a slot, and any event
    /// that is neither a move nor a button, leave the state as it is.
    pub open spec fn after_event(self, event: InputEvent) -> MouseState {
        match event {
            InputEvent::CursorMoved { x, y } => self.moved_to(x as int, y as int),
            InputEvent::MouseInput { state, button } => match button.spec_slot() {
                Some(slot) => self.button_changed(slot as int, state == ElementState::Pressed),
                None => self,
            },
            _ => self,
        }
    }

    /// The state after each event of `events` in turn.
    pub open spec fn after_events(self, events: Seq<InputEvent>) -> MouseState
        decreases events.len(),
    {
        if events.len() == 0 {
            self
        } else {
            self.after_events(events.drop_last()).after_event(events.last())
        }
    }

    /// The state at the start of the next frame: the delta is zero and no
    /// button has changed; position and level states stay.
    pub open spec fn after_frame(self) -> MouseState {
        MouseState {
            position: self.position,
            frame_delta: (0, 0),
            buttons: Seq::new(
                self.buttons.len(),
                |i: int|
                    ButtonState { pressed: self.buttons[i].pressed, changed_this_frame: false },
            ),
        }
    }

    /// A button event, in the shape the tracker receives it.
    pub open spec fn button_event(button: MouseButton, state: ElementState) -> InputEvent {
        InputEvent::MouseInput { state, button }
    }

    /// A button event for a button without a slot changes nothing: for
    /// every `n` from [`BUTTON_SLOTS`] on, `Other(n)` is dropped, pressed or
    /// released.
    pub proof fn lemma_button_without_slot_is_dropped(self, state: ElementState, n: u16)
        requires
            n >= BUTTON_SLOTS,
        ensures
            self.after_event(Self::button_event(MouseButton::Other(n), state)) == self,
    {
    }

    /// A button event changes its own slot and no other, and leaves
    /// position and delta alone.
    pub proof fn lemma_button_event_touches_one_slot(
        self,
        state: ElementState,
        button: MouseButton,
        slot: int,
    )
        requires
            self.wf(),
            button.spec_slot() is Some,
        ensures
            ({
                let own = button.spec_slot().unwrap() as int;
                let after = self.after_event(Self::button_event(button, state));
                &&& after.wf()
                &&& after.position == self.position
                &&& after.frame_delta == self.frame_delta
                &&& after.is_pressed(own) == (state == ElementState::Pressed)
                &&& after.changed_this_frame(own)
                &&& slot != own ==> after.is_pressed(slot) == self.is_pressed(slot)
                &&& slot != own ==> after.changed_this_frame(slot) == self.changed_this_frame(slot)
            }),
    {
    }

    /// The start of a frame zeroes the delta and clears every changed flag;
    /// the position and the level state of every button stay.
    pub proof fn lemma_frame_keeps_position_and_levels(self, slot: int)
        ensures
            self.after_frame().frame_delta == (0int, 0int),
            self.after_frame().position == self.position,
            self.after_frame().is_pressed(slot) == self.is_pressed(slot),
            !self.after_frame().changed_this_frame(slot),
            self.wf() ==> self.after_frame().wf(),
    {
    }

    /// In a frame that began with the pointer at rest, one move leaves the
    /// way it went as the delta, as long as that way fits in `i32`.
    pub proof fn lemma_first_move_of_a_frame(self, x: int, y: int)
        requires
            self.frame_delta == (0int, 0int),
            i32::MIN <= x - self.position.0 <= i32::MAX,
            i32::MIN <= y - self.position.1 <= i32::MAX,
        ensures
            self.moved_to(x, y).position == (x, y),
            self.moved_to(x, y).frame_delta == (x - self.position.0, y - self.position.1),
    {
    }

    /// However the pointer moved within a frame, the delta is the way from
    /// where the frame began to where the pointer is now, wrapped to `i32`:
    /// the moves in between cancel out, and no other event touches it.
    pub proof fn lemma_delta_is_displacement(self, events: Seq<InputEvent>)
        requires
            self.wf(),
            self.frame_delta == (0int, 0int),
        ensures
            self.after_events(events).wf(),
            self.after_events(events).frame_delta.0 == wrap_i32(
                self.after_events(events).position.0 - self.position.0,
            ),
            self.after_events(events).frame_delta.1 == wrap_i32(
                self.after_events(events).position.1 - self.position.1,
            ),
        decreases events.len(),
    {
        if events.len() > 0 {
            let before = self.after_events(events.drop_last());
            self.lemma_delta_is_displacement(events.drop_last());
            match events.last() {
                InputEvent::CursorMoved { x, y } => {
                    lemma_wrap_i32_absorbs(
                        before.position.0 - self.position.0,
                        x - before.position.0,
                    );
                    lemma_wrap_i32_absorbs(
                        before.position.1 - self.position.1,
                        y - before.position.1,
                    );
                },
                _ => {},
            }
        }
    }

    /// The button in `slot` is down. No button is down in a slot that does
    /// not exist.
    pub open spec fn is_pressed(self, slot: int) -> bool {
        0 <= slot < self.buttons.len() && self.buttons[slot].pressed
    }

    /// The button in `slot` changed state in this frame.
    pub open spec fn changed_this_frame(self, slot: int) -> bool {
        0 <= slot < self.buttons.len() && self.buttons[slot].changed_this_frame
    }

    /// The button in `slot` went down in this frame and is still down.
    pub open spec fn pressed_this_frame(self, slot: int) -> bool {
        self.is_pressed(slot) && self.changed_this_frame(slot)
    }

    /// The button in `slot` came up in this frame and is still up.
    pub open spec fn released_this_frame(self, slot: int) -> bool {
        !self.is_pressed(slot) && self.changed_this_frame(slot)
    }
}

/// Why a request to the mouse tracker was refused.
#[derive(Clone, Copy, Debug, PartialEq, Eq, Structural)]
pub enum MouseError {
    /// The tracker cannot move the platform's cursor, so it does not pretend
    /// to: the position stays what the platform last reported.
    SetPositionUnsupported,
}

/// Tracks the pointer and ten mouse buttons from the events it is handed.
pub struct Mouse {
    this_frame: [bool; 10],
    pressed: [bool; 10],
    pos: (i32, i32),
    delta: (i32, i32),
}

impl View for Mouse {
    type V = MouseState;

    closed spec fn view(&self) -> MouseState {
        MouseState {
            position: (self.pos.0 as int, self.pos.1 as int),
            frame_delta: (self.delta.0 as int, self.delta.1 as int),
            buttons: Seq::new(
                BUTTON_SLOTS as nat,
                |i: int|
                    ButtonState {
                        pressed: self.pressed@[i],
                        changed_this_frame: self.this_frame@[i],
                    },
            ),
        }
    }
}

impl Mouse {
    /// The state of any tracker is well formed.
    pub proof fn lemma_view_wf(&self)
        ensures
            self@.wf(),
    {
    }

    /// A tracker that has seen no event: pointer at the origin, nothing
    /// pressed, nothing changed.
    pub fn new() -> (mouse: Mouse)
        ensures
            mouse@ == MouseState::initial(),
    {
        let mouse = Mouse {
            this_frame: [false; 10],
            pressed: [false; 10],
            pos: (0, 0),
            delta: (0, 0),
        };
        assert(mouse@.buttons =~= MouseState::initial().buttons);
        mouse
    }

    fn press_button(&mut self, button: usize)
        requires
            button < BUTTON_SLOTS,
        ensures
            final(self)@ == old(self)@.button_changed(button as int, true),
    {
        self.this_frame[button] = true;
        self.pressed[button] = true;
        assert(self@.buttons =~= old(self)@.button_changed(button as int, true).buttons);
    }

    fn release_button(&mut self, button: usize)
        requires
            button < BUTTON_SLOTS,
        ensures
            final(self)@ == old(self)@.button_changed(button as int, false),
    {
        self.this_frame[button] = true;
        self.pressed[button] = false;
        assert(self@.buttons =~= old(self)@.button_changed(button as int, false).buttons);
    }

    /// Takes `pos` as the new position and adds the way there to the delta.
    fn update_pos(&mut self, pos: (i32, i32))
        ensures
            final(self)@ == old(self)@.moved_to(pos.0 as int, pos.1 as int),
    {
        self.delta.0 = self.delta.0.wrapping_add(pos.0.wrapping_sub(self.pos.0));
        self.delta.1 = self.delta.1.wrapping_add(pos.1.wrapping_sub(self.pos.1));
        self.pos = pos;
        assert(self@.buttons =~= old(self)@.buttons);
    }

    /// Brings the tracker up to date with one event.
    ///
    /// A move sets the position and adds to the frame's delta. A button
    /// event sets the level state of the button's slot and marks the slot as
    /// changed in this frame; a button without a slot is dropped. Every
    /// other event is ignored.
    pub fn handle_event(&mut self, event: &InputEvent)
        ensures
            final(self)@ == old(self)@.after_event(*event),
            final(self)@.wf(),
    {
        match *event {
            InputEvent::CursorMoved { x, y } => {
                self.update_pos((x, y));
            },
            InputEvent::MouseInput { state, button } => {
                match button.slot() {
                    Some(slot) => {
                        match state {
                            ElementState::Pressed => self.press_button(slot),
                            ElementState::Released => self.release_button(slot),
                        }
                    },
                    None => {},
                }
            },
            _ => {},
        }
    }

    /// Moving the platform's cursor is not something this tracker can do.
    /// The request is refused, always, and the tracker is left untouched.
    pub fn set_pos(&mut self, pos: (i32, i32)) -> (refused: Result<(), MouseError>)
        ensures
            refused == Err::<(), MouseError>(MouseError::SetPositionUnsupported),
            *final(self) == *old(self),
    {
        Err(MouseError::SetPositionUnsupported)
    }

    /// Starts the next frame: clears the delta and every changed flag.
    pub fn next_frame(&mut self)
        ensures
            final(self)@ == old(self)@.after_frame(),
            final(self)@.wf(),
    {
        self.delta = (0, 0);
        self.this_frame = [false; 10];
        assert(self@.buttons =~= old(self)@.after_frame().buttons);
    }

    /// The last reported position.
    pub fn get_pos(&self) -> (pos: (i32, i32))
        ensures
            pos.0 == self@.position.0,
            pos.1 == self@.position.1,
    {
        self.pos
    }

    /// The movement accumulated in this frame.
    pub fn get_delta(&self) -> (delta: (i32, i32))
        ensures
            delta.0 == self@.frame_delta.0,
            delta.1 == self@.frame_delta.1,
    {
        self.delta
    }

    /// Whether the button in slot `button` is down.
    pub fn is_pressed(&self, button: usize) -> (down: bool)
        ensures
            down == self@.is_pressed(button as int),
            self@.wf(),
    {
        button < 10 && self.pressed[button]
    }

    /// Whether the button in slot `button` went down in this frame.
    pub fn pressed_this_frame(&self, button: usize) -> (yes: bool)
        ensures
            yes == self@.pressed_this_frame(button as int),
            self@.wf(),
    {
        button < 10 && self.pressed[button] && self.this_frame[button]
    }

    /// Whether the button in slot `button` came up in this frame.
    pub fn released_this_frame(&self, button: usize) -> (yes: bool)
        ensures
            yes == self@.released_this_frame(button as int),
            self@.wf(),
    {
        button < 10 && !self.pressed[button] && self.this_frame[button]
    }
}

} // verus!
