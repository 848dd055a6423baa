//! The widget styles the interface chooses between. Their colours are
//! floating-point values and belong to the GUI toolkit, which is outside this
//! library; here they are plain choices.

use vstd::prelude::*;

verus! {

/// Style of a container.
#[derive(Clone, Copy, Debug, PartialEq, Eq, Structural)]
pub enum Container {
    Default,
    Card,
    Header,
    Success,
    Selected,
    Thumbnail,
    Export,
}

impl Default for Container {
    fn default() -> (r: Self)
        ensures
            r == Container::Default,
    {
        Container::Default
    }
}

/// Style of a button.
#[derive(Clone, Copy, Debug, PartialEq, Eq, Structural)]
pub enum Button {
    Primary,
    Secondary,
    Danger,
    Success,
    Export,
    Link,
    Icon,
    Upload,
    Thumbnail,
    Disabled,
}

impl Default for Button {
    fn default() -> (r: Self)
        ensures
            r == Button::Primary,
    {
        Button::Primary
    }
}

impl Button {
    /// Whether hovering changes the look of the button: the success,
    /// thumbnail and disabled buttons look the same hovered as at rest.
    pub fn has_hover_look(&self) -> (r: bool)
        ensures
            r == !(*self == Button::Success || *self == Button::Thumbnail || *self
                == Button::Disabled),
    {
        match self {
            Button::Success | Button::Thumbnail | Button::Disabled => false,
            _ => true,
        }
    }
}

/// Style of a text.
#[derive(Clone, Copy, Debug, PartialEq, Eq, Structural)]
pub enum Text {
    Default,
    Bold,
    Muted,
}

impl Default for Text {
    fn default() -> (r: Self)
        ensures
            r == Text::Default,
    {
        Text::Default
    }
}

/// Style of a checkbox.
#[derive(Clone, Copy, Debug, PartialEq, Eq, Structural)]
pub enum Checkbox {
    Default,
}

impl Default for Checkbox {
    fn default() -> (r: Self)
        ensures
            r == Checkbox::Default,
    {
        Checkbox::Default
    }
}

/// Style of a scroll bar.
#[derive(Clone, Copy, Debug, PartialEq, Eq, Structural)]
pub enum Scrollbar {
    Default,
}

impl Default for Scrollbar {
    fn default() -> (r: Self)
        ensures
            r == Scrollbar::Default,
    {
        Scrollbar::Default
    }
}

} // verus!
