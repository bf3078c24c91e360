//! The host's computer-use surface.

use crate::ffi::handle::MahiError;
use crate::model::{clone_opt_string, opt};
use vstd::prelude::*;

verus! {

/// A captured screen frame.
#[derive(Debug)]
pub struct ScreenshotFfi {
    pub png: Vec<u8>,
    pub width: u32,
    pub height: u32,
}

/// One element of the user interface.
#[derive(Debug)]
pub struct UiElementFfi {
    pub role: String,
    pub label: Option<String>,
    pub x: i32,
    pub y: i32,
    pub width: u32,
    pub height: u32,
    pub focused: bool,
}

/// What the host can do with the screen, the pointer and the keyboard.
pub trait ComputerUseHost {
    fn screenshot(&self) -> Result<ScreenshotFfi, MahiError>;

    fn describe_ui(&self) -> Result<Vec<UiElementFfi>, MahiError>;

    fn click(&self, x: i32, y: i32, button: String) -> Result<(), MahiError>;

    fn move_mouse(&self, x: i32, y: i32) -> Result<(), MahiError>;

    fn type_text(&self, text: String) -> Result<(), MahiError>;

    fn scroll(&self, dx: i32, dy: i32) -> Result<(), MahiError>;

    fn key(&self, combo: String) -> Result<(), MahiError>;

    fn is_sensitive_context(&self) -> bool;
}

/// A button of the pointer.
#[derive(Clone, Copy, Debug, PartialEq, Eq, Structural)]
pub enum MouseButton {
    Left,
    Right,
    Middle,
}

/// The name of a button.
pub open spec fn button_name(button: MouseButton) -> Seq<char> {
    match button {
        MouseButton::Left => "left"@,
        MouseButton::Right => "right"@,
        MouseButton::Middle => "middle"@,
    }
}

/// The name of a button.
pub fn mouse_button_str(button: MouseButton) -> (r: String)
    ensures
        r@ == button_name(button),
{
    match button {
        MouseButton::Left => "left".to_owned(),
        MouseButton::Right => "right".to_owned(),
        MouseButton::Middle => "middle".to_owned(),
    }
}

/// A captured screen frame, as the tools take it.
#[derive(Debug)]
pub struct Screenshot {
    pub bytes: Vec<u8>,
    pub width: u32,
    pub height: u32,
    pub description: String,
}

/// Where an element stands on the screen.
#[derive(Clone, Copy, Debug, PartialEq, Eq, Structural)]
pub struct UiBounds {
    pub x: i32,
    pub y: i32,
    pub width: u32,
    pub height: u32,
}

/// One element of the user interface, as the tools take it.
#[derive(Debug)]
pub struct UiElement {
    pub role: String,
    pub label: Option<String>,
    pub bounds: UiBounds,
    pub focused: bool,
}

/// The frame that a host captured, without a description.
pub fn screenshot_of(shot: ScreenshotFfi) -> (r: Screenshot)
    ensures
        r.bytes == shot.png,
        r.width == shot.width,
        r.height == shot.height,
        r.description@.len() == 0,
{
    Screenshot {
        bytes: shot.png,
        width: shot.width,
        height: shot.height,
        description: String::new(),
    }
}

/// Whether an element is what the host found.
pub open spec fn is_element_of(r: UiElement, e: UiElementFfi) -> bool {
    &&& r.role@ == e.role@
    &&& opt(r.label) == opt(e.label)
    &&& r.bounds == (UiBounds { x: e.x, y: e.y, width: e.width, height: e.height })
    &&& r.focused == e.focused
}

/// The elements that a host found, in order.
pub fn ui_elements_of(elements: &Vec<UiElementFfi>) -> (r: Vec<UiElement>)
    ensures
        r.len() == elements.len(),
        forall|i: int| 0 <= i < r.len() ==> is_element_of(#[trigger] r@[i], elements@[i]),
{
    let mut out: Vec<UiElement> = Vec::new();
    let mut i: usize = 0;
    while i < elements.len()
        invariant
            i <= elements.len(),
            out.len() == i,
            forall|j: int| 0 <= j < i ==> is_element_of(#[trigger] out@[j], elements@[j]),
        decreases elements.len() - i,
    {
        let e = &elements[i];
        out.push(
            UiElement {
                role: e.role.clone(),
                label: clone_opt_string(&e.label),
                bounds: UiBounds { x: e.x, y: e.y, width: e.width, height: e.height },
                focused: e.focused,
            },
        );
        i += 1;
    }
    out
}

/// Every button has a name of its own.
pub proof fn law_buttons_are_told_apart(a: MouseButton, b: MouseButton)
    requires
        button_name(a) == button_name(b),
    ensures
        a == b,
{
    reveal_strlit("left");
    reveal_strlit("right");
    reveal_strlit("middle");
    assert("left"@.len() == 4 && "right"@.len() == 5 && "middle"@.len() == 6);
}

/// An element is what the host found: its role, its label, its place and its focus.
pub proof fn law_element_is_what_was_found(r: UiElement, e: UiElementFfi)
    requires
        is_element_of(r, e),
    ensures
        r.role@ == e.role@,
        opt(r.label) == opt(e.label),
        r.bounds.x == e.x && r.bounds.y == e.y,
        r.bounds.width == e.width && r.bounds.height == e.height,
        r.focused == e.focused,
{
}

} // verus!
