//! Choosing the display server to draw on.

use vstd::prelude::*;

verus! {

/// The kinds of display server the eyelids can be drawn on.
#[derive(PartialEq, Eq, Structural, Debug, Clone, Copy)]
pub enum DisplayServer {
    Wayland,
    X11,
}

/// The message when no display server can be found.
pub open spec fn no_display_message() -> Seq<char> {
    "no display found: neither WAYLAND_DISPLAY nor DISPLAY is set"@
}

/// Picks the display server from which of the variables `WAYLAND_DISPLAY` and
/// `DISPLAY` are set: Wayland is preferred, then X11.
pub fn detect(wayland_display_set: bool, display_set: bool) -> (res: Result<DisplayServer, String>)
    ensures
        wayland_display_set ==> res == Ok::<DisplayServer, String>(DisplayServer::Wayland),
        !wayland_display_set && display_set ==> res == Ok::<DisplayServer, String>(
            DisplayServer::X11,
        ),
        !wayland_display_set && !display_set ==> (res matches Err(e) && e@
            == no_display_message()),
{
    if wayland_display_set {
        return Ok(DisplayServer::Wayland);
    }
    if display_set {
        return Ok(DisplayServer::X11);
    }
    Err(String::from_str("no display found: neither WAYLAND_DISPLAY nor DISPLAY is set"))
}

} // verus!
