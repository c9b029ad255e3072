use vstd::prelude::*;
use crate::window::WindowInfo;

verus! {

/// Why a window could not be changed.
#[derive(Debug, Clone, PartialEq, Eq)]
pub enum Error {
    /// The handle did not name a live window when the change was asked for.
    InvalidWindowHandle,
    /// The window system refused the placement; the text is its diagnostic.
    SetWindowPositionFailed(String),
}

impl Error {
    /// The window system's diagnostic text carried by the error, if any.
    pub fn detail(&self) -> (r: Option<String>)
        ensures
            self is InvalidWindowHandle ==> r is None,
            self matches Error::SetWindowPositionFailed(d) ==> (r matches Some(t) && t@ == d@),
    {
        match self {
            Error::InvalidWindowHandle => None,
            Error::SetWindowPositionFailed(d) => Some(d.clone()),
        }
    }
}

/// A placement to hand to the window system: move and resize the window to this
/// rectangle, put it at the top of its siblings' z-order (not always-on-top),
/// show it, and recalculate its frame.
#[derive(Debug, Clone, Copy, PartialEq, Eq)]
pub struct Placement {
    pub handle: isize,
    pub x: i32,
    pub y: i32,
    pub width: i32,
    pub height: i32,
}

/// One step of the sequence that brings a window to the foreground.
#[derive(Debug, Clone, Copy, PartialEq, Eq)]
pub enum ActivationStep {
    /// Minimize the window.
    Minimize,
    /// Restore the window from its minimized state.
    Restore,
    /// Ask for foreground activation.
    Foreground,
}

/// The foreground sequence: minimize, restore, then ask for activation.
pub open spec fn activation_sequence() -> Seq<ActivationStep> {
    seq![ActivationStep::Minimize, ActivationStep::Restore, ActivationStep::Foreground]
}

/// Decides a change of a window's bounds once the window system has said whether
/// `handle` names a live window (`handle_is_live`): a dead handle is refused with
/// `InvalidWindowHandle` and nothing is to be done; a live one gets exactly the
/// placement asked for.
pub fn set_window_position_safe(
    handle: isize,
    x: i32,
    y: i32,
    width: i32,
    height: i32,
    handle_is_live: bool,
) -> (r: Result<Placement, Error>)
    ensures
        !handle_is_live <==> r matches Err(Error::InvalidWindowHandle),
        handle_is_live <==> r == Ok::<Placement, Error>(
            Placement { handle, x, y, width, height },
        ),
{
    if !handle_is_live {
        return Err(Error::InvalidWindowHandle);
    }
    Ok(Placement { handle, x, y, width, height })
}

/// Decides a change of a window's bounds to those of `window_info`; only its
/// handle and rectangle are consulted.
pub fn set_window_position(window_info: WindowInfo, handle_is_live: bool) -> (r: Result<
    Placement,
    Error,
>)
    ensures
        !handle_is_live <==> r matches Err(Error::InvalidWindowHandle),
        handle_is_live <==> r == Ok::<Placement, Error>(
            Placement {
                handle: window_info.handle,
                x: window_info.x,
                y: window_info.y,
                width: window_info.width,
                height: window_info.height,
            },
        ),
{
    set_window_position_safe(
        window_info.handle,
        window_info.x,
        window_info.y,
        window_info.width,
        window_info.height,
        handle_is_live,
    )
}

/// The outcome of a placement from the window system's answer: success, or
/// `SetWindowPositionFailed` with its diagnostic text.
pub fn placement_outcome(placed: Result<(), String>) -> (r: Result<(), Error>)
    ensures
        placed is Ok <==> r is Ok,
        placed matches Err(d) ==> (r matches Err(Error::SetWindowPositionFailed(t)) && t@ == d@),
{
    match placed {
        Ok(()) => Ok(()),
        Err(d) => Err(Error::SetWindowPositionFailed(d)),
    }
}

/// Decides how to bring a window to the foreground once the window system has
/// said whether `handle` names a live window: a dead handle is refused with
/// `InvalidWindowHandle`; a live one always succeeds, with the steps to take in
/// order, each of them best effort.
pub fn set_window_to_top(handle: isize, handle_is_live: bool) -> (r: Result<
    Vec<ActivationStep>,
    Error,
>)
    ensures
        !handle_is_live <==> r matches Err(Error::InvalidWindowHandle),
        handle_is_live <==> r is Ok,
        r matches Ok(steps) ==> steps@ == activation_sequence(),
{
    if !handle_is_live {
        return Err(Error::InvalidWindowHandle);
    }
    let steps = vec![ActivationStep::Minimize, ActivationStep::Restore, ActivationStep::Foreground];
    assert(steps@ =~= activation_sequence());
    Ok(steps)
}

} // verus!
