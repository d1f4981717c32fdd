//! The state of the input devices across update ticks.

use vstd::prelude::*;

verus! {

/// Input button state.
#[derive(Debug, Clone, Copy, PartialEq, Eq, Structural, Default)]
pub enum ButtonState {
    /// Button is not being pressed.
    #[default]
    Up,
    /// Button was released this update tick.
    Released,
    /// Button is being pressed down this update tick.
    Pressed,
    /// Button is being held down.
    Down,
}

/// How a button ages by one update tick: the one-tick states `Released`
/// and `Pressed` settle into `Up` and `Down`; the resting states stay.
pub open spec fn ticked(s: ButtonState) -> ButtonState {
    match s {
        ButtonState::Released => ButtonState::Up,
        ButtonState::Pressed => ButtonState::Down,
        other => other,
    }
}

/// How a pressed-or-not reading from the window folds into a button state:
/// an up state becomes `Pressed` on a pressed reading, a down state becomes
/// `Released` on a released reading, anything else stays.
pub open spec fn folded_reading(s: ButtonState, pressed: bool) -> ButtonState {
    if (s == ButtonState::Up || s == ButtonState::Released) && pressed {
        ButtonState::Pressed
    } else if (s == ButtonState::Pressed || s == ButtonState::Down) && !pressed {
        ButtonState::Released
    } else {
        s
    }
}

impl ButtonState {
    /// Whether the button is pressed this tick.
    pub fn is_pressed(&self) -> (b: bool)
        ensures
            b == (*self == ButtonState::Pressed),
    {
        *self == ButtonState::Pressed
    }

    /// Whether the button is being held down.
    pub fn is_down(&self) -> (b: bool)
        ensures
            b == (*self == ButtonState::Pressed || *self == ButtonState::Down),
    {
        *self == ButtonState::Pressed || *self == ButtonState::Down
    }

    /// Whether the button is released this tick.
    pub fn is_released(&self) -> (b: bool)
        ensures
            b == (*self == ButtonState::Released),
    {
        *self == ButtonState::Released
    }

    /// Age the one-tick states by one update tick.
    pub fn update(&mut self)
        ensures
            *final (self) == ticked(*old(self)),
    {
        if *self == ButtonState::Released {
            *self = ButtonState::Up;
        } else if *self == ButtonState::Pressed {
            *self = ButtonState::Down;
        }
    }

    /// Fold a pressed-or-not reading from the window into the state.
    pub fn handle_bool(&mut self, pressed: bool)
        ensures
            *final (self) == folded_reading(*old(self), pressed),
    {
        if (*self == ButtonState::Up || *self == ButtonState::Released) && pressed {
            *self = ButtonState::Pressed;
        } else if (*self == ButtonState::Pressed || *self == ButtonState::Down) && !pressed {
            *self = ButtonState::Released;
        }
    }
}

/// Current input: the mouse position in window pixels and the state of
/// every button the editor reads.
#[derive(Debug, Clone, Copy, PartialEq, Eq, Structural, Default)]
pub struct Input {
    /// Horizontal mouse position.
    pub mouse_x: i32,
    /// Vertical mouse position.
    pub mouse_y: i32,
    /// Left mouse button.
    pub left_mouse: ButtonState,
    /// Right mouse button.
    pub right_mouse: ButtonState,
    /// Up arrow key.
    pub up: ButtonState,
    /// Down arrow key.
    pub down: ButtonState,
    /// Left arrow key.
    pub left: ButtonState,
    /// Right arrow key.
    pub right: ButtonState,
    /// Space bar.
    pub space: ButtonState,
    /// The R key.
    pub r: ButtonState,
    /// The G key.
    pub g: ButtonState,
    /// The C key.
    pub c: ButtonState,
    /// The O key.
    pub o: ButtonState,
    /// The N key.
    pub n: ButtonState,
    /// The X key.
    pub x: ButtonState,
}

impl Input {
    /// Age every button by one update tick; the mouse position stays.
    pub fn update(&mut self)
        ensures
            final (self).mouse_x == old(self).mouse_x,
            final (self).mouse_y == old(self).mouse_y,
            final (self).left_mouse == ticked(old(self).left_mouse),
            final (self).right_mouse == ticked(old(self).right_mouse),
            final (self).up == ticked(old(self).up),
            final (self).down == ticked(old(self).down),
            final (self).left == ticked(old(self).left),
            final (self).right == ticked(old(self).right),
            final (self).space == ticked(old(self).space),
            final (self).r == ticked(old(self).r),
            final (self).g == ticked(old(self).g),
            final (self).c == ticked(old(self).c),
            final (self).o == ticked(old(self).o),
            final (self).n == ticked(old(self).n),
            final (self).x == ticked(old(self).x),
    {
        self.left_mouse.update();
        self.right_mouse.update();
        self.up.update();
        self.down.update();
        self.left.update();
        self.right.update();
        self.space.update();
        self.r.update();
        self.g.update();
        self.c.update();
        self.o.update();
        self.n.update();
        self.x.update();
    }
}

} // verus!
