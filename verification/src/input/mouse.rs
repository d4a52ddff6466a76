use vstd::prelude::*;

verus! {

/// A button of the mouse.
#[derive(Clone, Copy, Debug, PartialEq, Eq, Structural)]
pub enum MouseButton {
    Middle,
    Right,
    Left,
    Misc(u16),
}

/// The button held down after `button` went down (`pressed`) or up: that
/// button, or none.
pub fn pressed_button(button: MouseButton, pressed: bool) -> (r: Option<MouseButton>)
    ensures
        r == if pressed {
            Some(button)
        } else {
            None
        },
{
    if pressed {
        Some(button)
    } else {
        None
    }
}

/// The shapes the mouse cursor can take.
pub enum MouseCursor {
    Default,
    Crosshair,
    Hand,
    Arrow,
    Move,
    Text,
    Wait,
    Help,
    Progress,
    NotAllowed,
    ContextMenu,
    Cell,
    VerticalText,
    Alias,
    Copy,
    NoDrop,
    Grab,
    Grabbing,
    AllScroll,
    ZoomIn,
    ZoomOut,
    EResize,
    NResize,
    NeResize,
    NwResize,
    SResize,
    SeResize,
    SwResize,
    WResize,
    EwResize,
    NsResize,
    NeswResize,
    NwseResize,
    ColResize,
    RowResize,
}

} // verus!
