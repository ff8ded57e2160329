//! Keyboard and mouse-button state with edge detection: what is held now,
//! and what changed since the previous batch of events.

use vstd::prelude::*;

verus! {

/// The number of key codes tracked.
pub const KEY_COUNT: usize = 161;

/// The number of mouse buttons tracked.
pub const MOUSE_BUTTON_COUNT: usize = 32;

/// A mouse button as the window system reports it.
#[derive(Clone, Copy, PartialEq, Eq, Structural, Debug)]
pub enum MouseButton {
    Left,
    Right,
    Middle,
    Other(u8),
}

/// An input event, reduced to what the key and button state depends on.
#[derive(Clone, Copy, PartialEq, Eq, Structural, Debug)]
pub enum InputEvent {
    /// A key went down (`pressed`) or up; `code` is none for a key without
    /// a known code.
    Key { code: Option<usize>, pressed: bool },
    /// A mouse button went down (`pressed`) or up.
    Mouse { button: MouseButton, pressed: bool },
    /// Anything else.
    Other,
}

/// The slot of a mouse button: 0, 1 and 2 for left, right and middle, the
/// window system's number for any other.
pub open spec fn mouse_slot(button: MouseButton) -> nat {
    match button {
        MouseButton::Left => 0,
        MouseButton::Right => 1,
        MouseButton::Middle => 2,
        MouseButton::Other(n) => n as nat,
    }
}

/// The slot of a mouse button (see `mouse_slot`).
pub fn mouse_code_to_id(mouse_button: MouseButton) -> (r: usize)
    ensures
        r == mouse_slot(mouse_button),
{
    match mouse_button {
        MouseButton::Left => 0,
        MouseButton::Right => 1,
        MouseButton::Middle => 2,
        MouseButton::Other(n) => n as usize,
    }
}

/// Key and mouse-button state for this batch of events and the last.
pub struct Input {
    last_keys: Vec<bool>,
    current_keys: Vec<bool>,
    last_mouse: Vec<bool>,
    current_mouse: Vec<bool>,
}

impl Input {
    /// Which keys are down now, by code.
    pub closed spec fn keys(&self) -> Seq<bool> {
        self.current_keys@
    }

    /// Which keys were down after the previous batch of events.
    pub closed spec fn last_keys(&self) -> Seq<bool> {
        self.last_keys@
    }

    /// Which mouse buttons are down now, by slot.
    pub closed spec fn mouse(&self) -> Seq<bool> {
        self.current_mouse@
    }

    /// Which mouse buttons were down after the previous batch of events.
    pub closed spec fn last_mouse(&self) -> Seq<bool> {
        self.last_mouse@
    }

    /// Every table has its full size.
    pub open spec fn wf(&self) -> bool {
        &&& self.keys().len() == KEY_COUNT
        &&& self.last_keys().len() == KEY_COUNT
        &&& self.mouse().len() == MOUSE_BUTTON_COUNT
        &&& self.last_mouse().len() == MOUSE_BUTTON_COUNT
    }

    /// Nothing held, now or before.
    pub fn new() -> (r: Input)
        ensures
            r.wf(),
            forall|i: int| 0 <= i < KEY_COUNT ==> !r.keys()[i] && !r.last_keys()[i],
            forall|i: int| 0 <= i < MOUSE_BUTTON_COUNT ==> !r.mouse()[i] && !r.last_mouse()[i],
    {
        Input {
            last_keys: vec![false; KEY_COUNT],
            current_keys: vec![false; KEY_COUNT],
            last_mouse: vec![false; MOUSE_BUTTON_COUNT],
            current_mouse: vec![false; MOUSE_BUTTON_COUNT],
        }
    }

    /// The key went down since the previous batch.
    pub fn get_key_down(&self, code: usize) -> (r: bool)
        requires
            self.wf(),
            code < KEY_COUNT,
        ensures
            r == (self.keys()[code as int] && !self.last_keys()[code as int]),
    {
        self.current_keys[code] && !self.last_keys[code]
    }

    /// The key is down.
    pub fn get_key(&self, code: usize) -> (r: bool)
        requires
            self.wf(),
            code < KEY_COUNT,
        ensures
            r == self.keys()[code as int],
    {
        self.current_keys[code]
    }

    /// The key went up since the previous batch.
    pub fn get_key_up(&self, code: usize) -> (r: bool)
        requires
            self.wf(),
            code < KEY_COUNT,
        ensures
            r == (!self.keys()[code as int] && self.last_keys()[code as int]),
    {
        !self.current_keys[code] && self.last_keys[code]
    }

    /// The button went down since the previous batch.
    pub fn get_mouse_down(&self, mouse_button: MouseButton) -> (r: bool)
        requires
            self.wf(),
            mouse_slot(mouse_button) < MOUSE_BUTTON_COUNT,
        ensures
            r == (self.mouse()[mouse_slot(mouse_button) as int] && !self.last_mouse()[mouse_slot(
                mouse_button,
            ) as int]),
    {
        let id = mouse_code_to_id(mouse_button);
        self.current_mouse[id] && !self.last_mouse[id]
    }

    /// The button is down.
    pub fn get_mouse(&self, mouse_button: MouseButton) -> (r: bool)
        requires
            self.wf(),
            mouse_slot(mouse_button) < MOUSE_BUTTON_COUNT,
        ensures
            r == self.mouse()[mouse_slot(mouse_button) as int],
    {
        self.current_mouse[mouse_code_to_id(mouse_button)]
    }

    /// The button went up since the previous batch.
    pub fn get_mouse_up(&self, mouse_button: MouseButton) -> (r: bool)
        requires
            self.wf(),
            mouse_slot(mouse_button) < MOUSE_BUTTON_COUNT,
        ensures
            r == (!self.mouse()[mouse_slot(mouse_button) as int] && self.last_mouse()[mouse_slot(
                mouse_button,
            ) as int]),
    {
        let id = mouse_code_to_id(mouse_button);
        !self.current_mouse[id] && self.last_mouse[id]
    }

    /// Starts a new batch of events: the current state becomes the last.
    pub fn start_event_proc(&mut self)
        requires
            old(self).wf(),
        ensures
            final(self).wf(),
            final(self).keys() == old(self).keys(),
            final(self).last_keys() == old(self).keys(),
            final(self).mouse() == old(self).mouse(),
            final(self).last_mouse() == old(self).mouse(),
    {
        let mut i: usize = 0;
        while i < self.current_keys.len()
            invariant
                self.wf(),
                i <= KEY_COUNT,
                self.keys() == old(self).keys(),
                self.mouse() == old(self).mouse(),
                self.last_mouse() == old(self).last_mouse(),
                forall|j: int| 0 <= j < i ==> self.last_keys()[j] == self.keys()[j],
            decreases KEY_COUNT - i,
        {
            let v = self.current_keys[i];
            self.last_keys.set(i, v);
            i += 1;
        }
        assert(self.last_keys() =~= self.keys());
        let mut i: usize = 0;
        while i < self.current_mouse.len()
            invariant
                self.wf(),
                i <= MOUSE_BUTTON_COUNT,
                self.keys() == old(self).keys(),
                self.last_keys() == old(self).keys(),
                self.mouse() == old(self).mouse(),
                forall|j: int| 0 <= j < i ==> self.last_mouse()[j] == self.mouse()[j],
            decreases MOUSE_BUTTON_COUNT - i,
        {
            let v = self.current_mouse[i];
            self.last_mouse.set(i, v);
            i += 1;
        }
        assert(self.last_mouse() =~= self.mouse());
    }

    /// Records a key or button going down or up; other events, and keys
    /// without a code, change nothing.
    pub fn process_events(&mut self, event: &InputEvent)
        requires
            old(self).wf(),
            *event matches InputEvent::Key { code: Some(c), .. } ==> c < KEY_COUNT,
            *event matches InputEvent::Mouse { button, .. } ==> mouse_slot(button) < MOUSE_BUTTON_COUNT,
        ensures
            final(self).wf(),
            final(self).last_keys() == old(self).last_keys(),
            final(self).last_mouse() == old(self).last_mouse(),
            final(self).keys() == (match *event {
                InputEvent::Key { code: Some(c), pressed } => old(self).keys().update(c as int, pressed),
                _ => old(self).keys(),
            }),
            final(self).mouse() == (match *event {
                InputEvent::Mouse { button, pressed } => old(self).mouse().update(
                    mouse_slot(button) as int,
                    pressed,
                ),
                _ => old(self).mouse(),
            }),
    {
        match *event {
            InputEvent::Key { code: Some(c), pressed } => {
                self.current_keys.set(c, pressed);
            },
            InputEvent::Mouse { button, pressed } => {
                self.current_mouse.set(mouse_code_to_id(button), pressed);
            },
            _ => {},
        }
    }
}

} // verus!
