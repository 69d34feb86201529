//! The legacy-X11 bridge's window bookkeeping: matching X11 windows to
//! surfaces that arrive over a different socket, choosing a window title
//! from the property fallback chain, spotting popup windows, and granting
//! configure requests pinned to the output size.

use vstd::prelude::*;

use crate::geometry::Pos;

verus! {

/// An X11 window whose surface has not arrived yet: the window, where it
/// asked to be, keyed by the surface identifier it announced.
#[derive(Clone, Copy, Debug, PartialEq, Eq, Structural)]
pub struct PendingX11 {
    pub surface_id: u32,
    pub window: u32,
    pub location: Pos,
}

/// The unpaired X11 windows, each surface identifier at most once.
pub struct UnpairedSurfaces {
    entries: Vec<PendingX11>,
}

impl UnpairedSurfaces {
    pub closed spec fn view(&self) -> Seq<PendingX11> {
        self.entries@
    }

    pub open spec fn wf(&self) -> bool {
        forall|i: int, j: int|
            0 <= i < j < self@.len() ==> #[trigger] self@[i].surface_id != #[trigger] self@[j].surface_id
    }

    pub open spec fn spec_contains(&self, surface_id: u32) -> bool {
        exists|i: int| 0 <= i < self@.len() && self@[i].surface_id == surface_id
    }

    pub open spec fn spec_index_of(&self, surface_id: u32) -> int {
        choose|i: int| 0 <= i < self@.len() && self@[i].surface_id == surface_id
    }

    pub fn new() -> (r: UnpairedSurfaces)
        ensures
            r@ =~= Seq::<PendingX11>::empty(),
            r.wf(),
    {
        UnpairedSurfaces { entries: Vec::new() }
    }

    fn find(&self, surface_id: u32) -> (r: Option<usize>)
        ensures
            match r {
                Some(i) => i < self@.len() && self@[i as int].surface_id == surface_id,
                None => !self.spec_contains(surface_id),
            },
    {
        let mut i: usize = 0;
        while i < self.entries.len()
            invariant
                i <= self@.len(),
                forall|j: int| 0 <= j < i ==> self@[j].surface_id != surface_id,
            decreases self@.len() - i,
        {
            if self.entries[i].surface_id == surface_id {
                return Some(i);
            }
            i += 1;
        }
        None
    }

    /// Record a window whose surface is still missing. A second announcement
    /// under the same surface identifier replaces the first.
    pub fn register(&mut self, surface_id: u32, window: u32, location: Pos)
        requires
            old(self).wf(),
        ensures
            final(self).wf(),
            final(self).spec_contains(surface_id),
            final(self)@.len() <= old(self)@.len() + 1,
            forall|i: int|
                0 <= i < final(self)@.len() && (#[trigger] final(self)@[i]).surface_id
                    != surface_id ==> old(self)@.contains(final(self)@[i]),
            exists|i: int|
                0 <= i < final(self)@.len() && final(self)@[i] == (PendingX11 {
                    surface_id,
                    window,
                    location,
                }),
    {
        let entry = PendingX11 { surface_id, window, location };
        match self.find(surface_id) {
            Some(i) => {
                let _ = self.entries.remove(i);
                self.entries.insert(i, entry);
                proof {
                    let s = old(self)@;
                    assert(self@ =~= s.update(i as int, entry));
                    assert(self@[i as int] == entry);
                    assert forall|a: int, b: int| 0 <= a < b < self@.len() implies #[trigger] self@[a].surface_id
                        != #[trigger] self@[b].surface_id by {
                        assert(self@[a] == if a == i as int { entry } else { s[a] });
                        assert(self@[b] == if b == i as int { entry } else { s[b] });
                        assert(s[a].surface_id != s[b].surface_id);
                    }
                }
            },
            None => {
                self.entries.push(entry);
                proof {
                    let s = old(self)@;
                    assert(self@ =~= s.push(entry));
                    assert(self@[self@.len() - 1] == entry);
                    assert forall|a: int, b: int| 0 <= a < b < self@.len() implies #[trigger] self@[a].surface_id
                        != #[trigger] self@[b].surface_id by {
                        if b == self@.len() - 1 {
                            assert(self@[a] == s[a]);
                        } else {
                            assert(self@[a] == s[a]);
                            assert(self@[b] == s[b]);
                        }
                    }
                }
            },
        }
    }

    /// When a surface commits, claim the window that was waiting for it, if
    /// any; the entry leaves the record.
    pub fn take(&mut self, surface_id: u32) -> (r: Option<PendingX11>)
        requires
            old(self).wf(),
        ensures
            final(self).wf(),
            match r {
                Some(p) => old(self).spec_contains(surface_id) && p.surface_id == surface_id
                    && old(self)@.contains(p) && final(self)@ == old(self)@.remove(
                    old(self).spec_index_of(surface_id),
                ),
                None => !old(self).spec_contains(surface_id) && final(self)@ == old(self)@,
            },
    {
        match self.find(surface_id) {
            Some(i) => {
                proof {
                    let w = old(self).spec_index_of(surface_id);
                    assert(old(self)@[i as int].surface_id == surface_id);
                    assert(0 <= w < old(self)@.len() && old(self)@[w].surface_id == surface_id);
                    assert(w == i as int);
                }
                let p = self.entries.remove(i);
                proof {
                    let s = old(self)@;
                    assert forall|a: int, b: int| 0 <= a < b < self@.len() implies #[trigger] self@[a].surface_id
                        != #[trigger] self@[b].surface_id by {
                        assert(self@[a] == if a < i as int { s[a] } else { s[a + 1] });
                        assert(self@[b] == if b < i as int { s[b] } else { s[b + 1] });
                    }
                }
                Some(p)
            },
            None => None,
        }
    }
}

/// Choose a window title from the property fallback chain: the first
/// candidate that exists and is not empty, in the order the chain queries
/// them.
pub fn pick_title(candidates: &Vec<Option<String>>) -> (r: Option<String>)
    ensures
        match r {
            Some(t) => exists|i: int|
                0 <= i < candidates@.len() && ((#[trigger] candidates@[i]) matches Some(c) && c@
                    == t@) && t@.len() > 0 && (forall|j: int|
                    0 <= j < i ==> !candidate_usable(#[trigger] candidates@[j])),
            None => forall|j: int|
                0 <= j < candidates@.len() ==> !candidate_usable(#[trigger] candidates@[j]),
        },
{
    let mut i: usize = 0;
    while i < candidates.len()
        invariant
            i <= candidates@.len(),
            forall|j: int| 0 <= j < i ==> !candidate_usable(#[trigger] candidates@[j]),
        decreases candidates@.len() - i,
    {
        match &candidates[i] {
            Some(t) => {
                if t.as_str().unicode_len() > 0 {
                    return Some(t.clone());
                }
            },
            None => {},
        }
        i += 1;
    }
    None
}

/// A title candidate that exists and is non-empty.
pub open spec fn candidate_usable(c: Option<String>) -> bool {
    match c {
        Some(t) => t@.len() > 0,
        None => false,
    }
}

/// Whether the window-type property marks an X11 window as a popup menu:
/// the first advertised window-type atom is the menu atom.
pub fn window_type_is_menu(atoms: &Vec<u32>, menu_atom: u32) -> (r: bool)
    ensures
        r == (atoms@.len() > 0 && atoms@[0] == menu_atom),
{
    if atoms.len() > 0 {
        atoms[0] == menu_atom
    } else {
        false
    }
}

/// One granted X11 configure request: the window never moves itself - the
/// position is pinned to the origin whenever it asked to move - and it
/// always spans the primary output.
#[derive(Clone, Copy, Debug, PartialEq, Eq, Structural)]
pub struct X11ConfigureValues {
    pub x: Option<i32>,
    pub y: Option<i32>,
    pub width: u32,
    pub height: u32,
    pub border_width: Option<u32>,
}

/// Grant a configure request: requested positions collapse to the origin,
/// the size is always the primary output's, and the border is kept only when
/// the client set it.
pub fn grant_configure(
    wants_x: bool,
    wants_y: bool,
    wants_border: bool,
    border_width: u32,
    output_w: u32,
    output_h: u32,
) -> (r: X11ConfigureValues)
    ensures
        r.x == if wants_x {
            Some(0i32)
        } else {
            None::<i32>
        },
        r.y == if wants_y {
            Some(0i32)
        } else {
            None::<i32>
        },
        r.width == output_w,
        r.height == output_h,
        r.border_width == if wants_border {
            Some(border_width)
        } else {
            None::<u32>
        },
{
    X11ConfigureValues {
        x: if wants_x {
            Some(0)
        } else {
            None
        },
        y: if wants_y {
            Some(0)
        } else {
            None
        },
        width: output_w,
        height: output_h,
        border_width: if wants_border {
            Some(border_width)
        } else {
            None
        },
    }
}

} // verus!
