//! What the application is lent while it runs: the display, the GUI backend
//! and the two input trackers.

use vstd::prelude::*;

use crate::io::event::InputEvent;
use crate::io::keyboard::{Keyboard, KeyboardState};
use crate::io::mouse::{Mouse, MouseState};

verus! {

/// The display handle `dis`, the GUI backend `gui`, and the input trackers.
///
/// The two handles are the host's: the library stores them and gives them
/// back, and does nothing else with them. It keeps the trackers up to date.
pub struct Context<D, G> {
    pub dis: D,
    pub gui: G,
    pub mouse: Mouse,
    pub keyboard: Keyboard,
}

impl<D, G> Context<D, G> {
    /// A context around the two handles, with trackers that have seen no
    /// event.
    pub fn new(dis: D, gui: G) -> (context: Context<D, G>)
        ensures
            context.dis == dis,
            context.gui == gui,
            context.mouse@ == MouseState::initial(),
            context.keyboard@ == KeyboardState::initial(),
    {
        Context { dis, gui, mouse: Mouse::new(), keyboard: Keyboard::new() }
    }

    /// Hands one event to both trackers.
    pub fn handle_event(&mut self, event: &InputEvent)
        ensures
            final(self).keyboard@ == old(self).keyboard@.after_event(*event),
            final(self).mouse@ == old(self).mouse@.after_event(*event),
            final(self).dis == old(self).dis,
            final(self).gui == old(self).gui,
    {
        self.keyboard.handle_event(event);
        self.mouse.handle_event(event);
    }

    /// Starts the next frame of both trackers.
    pub fn next_frame(&mut self)
        ensures
            final(self).keyboard@ == old(self).keyboard@.after_frame(),
            final(self).mouse@ == old(self).mouse@.after_frame(),
            final(self).dis == old(self).dis,
            final(self).gui == old(self).gui,
    {
        self.mouse.next_frame();
        self.keyboard.next_frame();
    }
}

} // verus!
