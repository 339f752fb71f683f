//! The pointer: what a move and a click are made of.
//!
//! Nothing here touches a device. Each function lays out the steps of one action, waits
//! included, and the caller performs them in their order.

use vstd::prelude::*;

verus! {

/// The device that performs the steps.
#[derive(Clone, Copy, Debug, PartialEq, Eq, Structural)]
pub enum InputMethod {
    /// A virtual device of the kernel, under Wayland.
    Uinput,
    /// The pointer of the X server or of Windows.
    InputBot,
    /// No device is set.
    Unset,
}

/// A button of the pointer.
#[derive(Clone, Copy, Debug, PartialEq, Eq, Structural)]
pub enum Button {
    Left,
    Right,
}

/// One step of an action.
#[derive(Clone, Copy, Debug, PartialEq, Eq, Structural)]
pub enum Step {
    /// Make the device ready.
    Wake,
    /// Put the pointer at a point of the screen.
    Move { x: i32, y: i32 },
    /// Press a button and hold it.
    Press(Button),
    /// Let a button go.
    Release(Button),
    /// Press a button and let it go at once.
    Tap(Button),
    /// Do nothing for so many milliseconds.
    Wait(u64),
}

/// How long the pointer rests after a move, and a button after each change, in
/// milliseconds.
pub const SETTLE: u64 = 10;

/// How long the pointer rests between the move and the press of a click, in milliseconds.
pub const AIM: u64 = 30;

/// The steps that make a device ready: one wake-up, where a device is set.
pub open spec fn init_steps(method: InputMethod) -> Seq<Step> {
    match method {
        InputMethod::Unset => Seq::empty(),
        _ => seq![Step::Wake],
    }
}

/// The steps of a move: the move, and a rest.
pub open spec fn move_steps(x: i32, y: i32) -> Seq<Step> {
    seq![Step::Move { x, y }, Step::Wait(SETTLE)]
}

/// The steps of pressing a button and letting it go. A virtual device taps; any other
/// presses, rests, lets go and rests.
pub open spec fn button_steps(method: InputMethod, button: Button) -> Seq<Step> {
    match method {
        InputMethod::Uinput => seq![Step::Tap(button), Step::Wait(SETTLE)],
        _ => seq![
            Step::Press(button),
            Step::Wait(SETTLE),
            Step::Release(button),
            Step::Wait(SETTLE),
        ],
    }
}

/// The button that a click presses: the left one of a virtual device, the right one of
/// any other.
pub open spec fn click_button(method: InputMethod) -> Button {
    match method {
        InputMethod::Uinput => Button::Left,
        _ => Button::Right,
    }
}

/// The button that a right click presses: the other one.
pub open spec fn right_click_button(method: InputMethod) -> Button {
    match method {
        InputMethod::Uinput => Button::Right,
        _ => Button::Left,
    }
}

/// The steps of a click with `button` at a point: the move, a rest to aim, the button.
pub open spec fn click_steps(method: InputMethod, button: Button, x: i32, y: i32) -> Seq<Step> {
    move_steps(x, y) + seq![Step::Wait(AIM)] + button_steps(method, button)
}

/// The steps that make the device ready.
pub fn init(method: InputMethod) -> (steps: Vec<Step>)
    ensures
        steps@ == init_steps(method),
{
    let mut steps: Vec<Step> = Vec::new();
    match method {
        InputMethod::Unset => {},
        _ => {
            steps.push(Step::Wake);
        },
    }
    assert(steps@ =~= init_steps(method));
    steps
}

/// The steps that put the pointer at a point.
pub fn move_mouse(x: i32, y: i32) -> (steps: Vec<Step>)
    ensures
        steps@ == move_steps(x, y),
{
    let mut steps: Vec<Step> = Vec::new();
    steps.push(Step::Move { x, y });
    steps.push(Step::Wait(SETTLE));
    assert(steps@ =~= move_steps(x, y));
    steps
}

/// The steps that press a button and let it go.
pub fn click_release(method: InputMethod, button: Button) -> (steps: Vec<Step>)
    ensures
        steps@ == button_steps(method, button),
{
    let mut steps: Vec<Step> = Vec::new();
    match method {
        InputMethod::Uinput => {
            steps.push(Step::Tap(button));
            steps.push(Step::Wait(SETTLE));
        },
        _ => {
            steps.push(Step::Press(button));
            steps.push(Step::Wait(SETTLE));
            steps.push(Step::Release(button));
            steps.push(Step::Wait(SETTLE));
        },
    }
    assert(steps@ =~= button_steps(method, button));
    steps
}

/// The steps of a click with `button` at a point.
fn click_with(method: InputMethod, button: Button, x: i32, y: i32) -> (steps: Vec<Step>)
    ensures
        steps@ == click_steps(method, button, x, y),
{
    let mut steps = move_mouse(x, y);
    steps.push(Step::Wait(AIM));
    let mut press = click_release(method, button);
    steps.append(&mut press);
    assert(steps@ =~= click_steps(method, button, x, y));
    steps
}

/// The steps of a click at a point.
pub fn click(method: InputMethod, x: i32, y: i32) -> (steps: Vec<Step>)
    ensures
        steps@ == click_steps(method, click_button(method), x, y),
{
    let button = match method {
        InputMethod::Uinput => Button::Left,
        _ => Button::Right,
    };
    click_with(method, button, x, y)
}

/// The steps of a right click at a point.
pub fn click_right(method: InputMethod, x: i32, y: i32) -> (steps: Vec<Step>)
    ensures
        steps@ == click_steps(method, right_click_button(method), x, y),
{
    let button = match method {
        InputMethod::Uinput => Button::Right,
        _ => Button::Left,
    };
    click_with(method, button, x, y)
}

} // verus!
