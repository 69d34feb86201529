//! Window state requests: fullscreen, maximize and minimize transitions for
//! native toplevels and for bridged X11 windows. The protocol demands a
//! configure reply to every request, fulfilled or not; an X11 window keeps
//! its pre-maximize geometry aside and gets it back when the state clears.

use vstd::prelude::*;

use crate::geometry::Rect;

verus! {

/// What the client advertised it can handle.
#[derive(Clone, Copy, Debug, PartialEq, Eq, Structural)]
pub struct WmCapabilities {
    pub fullscreen: bool,
    pub maximize: bool,
}

/// The state a toplevel's next configure will carry.
#[derive(Clone, Copy, Debug, PartialEq, Eq, Structural)]
pub struct PendingToplevel {
    pub fullscreen: bool,
    pub maximized: bool,
    pub minimized: bool,
    /// The size the compositor dictates, when a state demands one.
    pub size: Option<crate::geometry::Extent>,
}

/// Make a toplevel fullscreen: only honored when the client advertises the
/// capability and an output geometry exists; the state then pins the size to
/// the output. Honored or not, a configure always follows.
pub fn fullscreen_request(
    state: PendingToplevel,
    caps: WmCapabilities,
    output_geometry: Option<Rect>,
) -> (r: PendingToplevel)
    ensures
        r == (if caps.fullscreen && output_geometry is Some {
            PendingToplevel {
                fullscreen: true,
                size: Some(output_geometry->Some_0.size),
                ..state
            }
        } else {
            state
        }),
{
    match output_geometry {
        Some(geo) => {
            if caps.fullscreen {
                PendingToplevel { fullscreen: true, size: Some(geo.size), ..state }
            } else {
                state
            }
        },
        None => state,
    }
}

/// Leave fullscreen. A toplevel that is not fullscreen is left as it is,
/// with no configure; one that is drops the state and the dictated size.
pub fn unfullscreen_request(state: PendingToplevel) -> (r: (PendingToplevel, bool))
    ensures
        state.fullscreen ==> r == (
            PendingToplevel { fullscreen: false, size: None, ..state },
            true,
        ),
        !state.fullscreen ==> r == (state, false),
{
    if state.fullscreen {
        (PendingToplevel { fullscreen: false, size: None, ..state }, true)
    } else {
        (state, false)
    }
}

/// Maximize a toplevel: honored when the client advertises the capability
/// and an output geometry exists. A configure always follows.
pub fn maximize_request(
    state: PendingToplevel,
    caps: WmCapabilities,
    output_geometry: Option<Rect>,
) -> (r: PendingToplevel)
    ensures
        r == (if caps.maximize && output_geometry is Some {
            PendingToplevel {
                maximized: true,
                size: Some(output_geometry->Some_0.size),
                ..state
            }
        } else {
            state
        }),
{
    match output_geometry {
        Some(geo) => {
            if caps.maximize {
                PendingToplevel { maximized: true, size: Some(geo.size), ..state }
            } else {
                state
            }
        },
        None => state,
    }
}

/// Leave the maximized state; a toplevel that is not maximized is left
/// untouched with no configure.
pub fn unmaximize_request(state: PendingToplevel) -> (r: (PendingToplevel, bool))
    ensures
        state.maximized ==> r == (
            PendingToplevel { maximized: false, size: None, ..state },
            true,
        ),
        !state.maximized ==> r == (state, false),
{
    if state.maximized {
        (PendingToplevel { maximized: false, size: None, ..state }, true)
    } else {
        (state, false)
    }
}

/// Minimize or restore a toplevel. Minimization carries no size of its own.
pub fn minimize_request(state: PendingToplevel, minimized: bool) -> (r: PendingToplevel)
    ensures
        r == (PendingToplevel { minimized, ..state }),
{
    PendingToplevel { minimized, ..state }
}

/// A bridged X11 window: its current geometry, its state flags, and the
/// geometry put aside while maximized or fullscreen.
#[derive(Clone, Copy, Debug, PartialEq, Eq, Structural)]
pub struct X11Window {
    pub geometry: Rect,
    pub maximized: bool,
    pub fullscreen: bool,
    pub saved_geometry: Option<Rect>,
}

impl X11Window {
    /// Maximize: the old geometry is put aside and the window is configured
    /// to span the output.
    pub fn maximize(&mut self, output_geometry: Rect)
        ensures
            *final(self) == (X11Window {
                geometry: output_geometry,
                maximized: true,
                fullscreen: old(self).fullscreen,
                saved_geometry: Some(old(self).geometry),
            }),
    {
        self.saved_geometry = Some(self.geometry);
        self.geometry = output_geometry;
        self.maximized = true;
    }

    /// Unmaximize: the put-aside geometry, if any, comes back and is
    /// consumed.
    pub fn unmaximize(&mut self)
        ensures
            !final(self).maximized,
            final(self).fullscreen == old(self).fullscreen,
            final(self).saved_geometry is None,
            final(self).geometry == (match old(self).saved_geometry {
                Some(g) => g,
                None => old(self).geometry,
            }),
    {
        self.maximized = false;
        if let Some(g) = self.saved_geometry {
            self.geometry = g;
            self.saved_geometry = None;
        }
    }

    /// Fullscreen: like maximize, spanning the output.
    pub fn fullscreen(&mut self, output_geometry: Rect)
        ensures
            *final(self) == (X11Window {
                geometry: output_geometry,
                maximized: old(self).maximized,
                fullscreen: true,
                saved_geometry: Some(old(self).geometry),
            }),
    {
        self.saved_geometry = Some(self.geometry);
        self.geometry = output_geometry;
        self.fullscreen = true;
    }

    /// Leave fullscreen and restore the put-aside geometry, if any.
    pub fn unfullscreen(&mut self)
        ensures
            !final(self).fullscreen,
            final(self).maximized == old(self).maximized,
            final(self).saved_geometry is None,
            final(self).geometry == (match old(self).saved_geometry {
                Some(g) => g,
                None => old(self).geometry,
            }),
    {
        self.fullscreen = false;
        if let Some(g) = self.saved_geometry {
            self.geometry = g;
            self.saved_geometry = None;
        }
    }
}

} // verus!
