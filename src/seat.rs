use vstd::prelude::*;

verus! {

/// Input focus of the seat: one keyboard focus and at most one pointer focus.
pub struct InputManager {
    keyboard_focus: Option<u64>,
    pointer_focus: Option<u64>,
}

impl InputManager {
    pub closed spec fn keyboard_spec(&self) -> Option<u64> {
        self.keyboard_focus
    }

    pub closed spec fn pointer_spec(&self) -> Option<u64> {
        self.pointer_focus
    }

    pub fn new() -> (m: Self)
        ensures
            m.keyboard_spec() is None,
            m.pointer_spec() is None,
    {
        InputManager { keyboard_focus: None, pointer_focus: None }
    }

    pub fn keyboard_focus(&self) -> (r: Option<u64>)
        ensures
            r == self.keyboard_spec(),
    {
        self.keyboard_focus
    }

    pub fn pointer_focus(&self) -> (r: Option<u64>)
        ensures
            r == self.pointer_spec(),
    {
        self.pointer_focus
    }

    /// Moves keyboard focus; the previous holder loses it.
    pub fn set_keyboard_focus(&mut self, surface: Option<u64>)
        ensures
            final(self).keyboard_spec() == surface,
            final(self).pointer_spec() == old(self).pointer_spec(),
    {
        self.keyboard_focus = surface;
    }

    /// Moves pointer focus to the surface under the pointer, if any.
    pub fn set_pointer_focus(&mut self, surface: Option<u64>)
        ensures
            final(self).pointer_spec() == surface,
            final(self).keyboard_spec() == old(self).keyboard_spec(),
    {
        self.pointer_focus = surface;
    }

    /// A destroyed surface holds no focus.
    pub fn surface_destroyed(&mut self, surface: u64)
        ensures
            final(self).keyboard_spec() == (if old(self).keyboard_spec() == Some(surface) {
                None
            } else {
                old(self).keyboard_spec()
            }),
            final(self).pointer_spec() == (if old(self).pointer_spec() == Some(surface) {
                None
            } else {
                old(self).pointer_spec()
            }),
    {
        if self.keyboard_focus == Some(surface) {
            self.keyboard_focus = None;
        }
        if self.pointer_focus == Some(surface) {
            self.pointer_focus = None;
        }
    }
}

} // verus!
