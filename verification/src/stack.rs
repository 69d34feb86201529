//! The ordered stack of top-level windows. Index 0 is the topmost window,
//! the one keyboard routing treats as active unless a grab overrides it.

use vstd::prelude::*;

use crate::geometry::Rect;

verus! {

/// How the toplevel reached the compositor.
#[derive(Clone, Copy, Debug, PartialEq, Eq, Structural)]
pub enum WindowKind {
    /// A native toplevel surface.
    Wayland,
    /// A legacy window bridged through the embedded X server; an
    /// override-redirect window is an unmanaged popup.
    X11 { override_redirect: bool },
}

/// One stack entry: a toplevel window with its bounding box.
#[derive(Clone, Copy, Debug, PartialEq, Eq, Structural)]
pub struct WindowEntry {
    /// Identifier of the underlying client resource; unique within the stack.
    pub id: u64,
    /// Bounding box in logical coordinates.
    pub bbox: Rect,
    pub kind: WindowKind,
    pub mapped: bool,
}

/// The stacking order after moving the entry at `i` to the top:
/// that entry first, everything else in its old relative order.
pub open spec fn to_top(s: Seq<WindowEntry>, i: int) -> Seq<WindowEntry>
    recommends
        0 <= i < s.len(),
{
    seq![s[i]] + s.remove(i)
}

/// Where the entry at old position `m` (other than the raised one at `i`)
/// stands after the raise.
pub open spec fn raised_index(i: int, m: int) -> int {
    if m < i {
        m + 1
    } else {
        m
    }
}

/// Raising the entry at `i` puts it at stacking index 0, keeps every other
/// entry, and does not change the relative order of any two other entries:
/// the old positions map through `raised_index`, which is strictly monotone
/// away from `i`.
pub proof fn lemma_raise_preserves_order(s: Seq<WindowEntry>, i: int)
    requires
        0 <= i < s.len(),
    ensures
        to_top(s, i).len() == s.len(),
        to_top(s, i)[0] == s[i],
        forall|m: int|
            0 <= m < s.len() && m != i ==> 0 < raised_index(i, m) < s.len() && to_top(s, i)[
                raised_index(i, m)
            ] == s[m],
        forall|m1: int, m2: int|
            0 <= m1 < m2 < s.len() && m1 != i && m2 != i ==> raised_index(i, m1) < raised_index(
                i,
                m2,
            ),
{
    assert forall|m: int| 0 <= m < s.len() && m != i implies 0 < raised_index(i, m) < s.len()
        && to_top(s, i)[raised_index(i, m)] == s[m] by {
        if m < i {
            assert(s.remove(i)[m] == s[m]);
        } else {
            assert(s.remove(i)[m - 1] == s[m]);
        }
    }
}

/// The ordered collection of top-level windows.
pub struct WindowStack {
    entries: Vec<WindowEntry>,
}

impl WindowStack {
    /// Top-to-bottom stacking order: index 0 is topmost.
    pub closed spec fn view(&self) -> Seq<WindowEntry> {
        self.entries@
    }

    /// No two entries share an identifier.
    pub open spec fn wf(&self) -> bool {
        forall|i: int, j: int|
            0 <= i < j < self@.len() ==> #[trigger] self@[i].id != #[trigger] self@[j].id
    }

    pub open spec fn spec_contains_id(&self, id: u64) -> bool {
        exists|i: int| 0 <= i < self@.len() && self@[i].id == id
    }

    /// The position of the entry with the given identifier.
    pub open spec fn spec_index_of(&self, id: u64) -> int {
        choose|i: int| 0 <= i < self@.len() && self@[i].id == id
    }

    pub fn new() -> (r: WindowStack)
        ensures
            r@ == Seq::<WindowEntry>::empty(),
            r.wf(),
    {
        WindowStack { entries: Vec::new() }
    }

    pub fn len(&self) -> (r: usize)
        ensures
            r == self@.len(),
    {
        self.entries.len()
    }

    pub fn get(&self, i: usize) -> (r: &WindowEntry)
        requires
            i < self@.len(),
        ensures
            *r == self@[i as int],
    {
        &self.entries[i]
    }

    /// The topmost window, if any: the one the compositor considers active.
    pub fn top(&self) -> (r: Option<&WindowEntry>)
        ensures
            match r {
                Some(e) => self@.len() > 0 && *e == self@[0],
                None => self@.len() == 0,
            },
    {
        if self.entries.len() > 0 {
            Some(&self.entries[0])
        } else {
            None
        }
    }

    pub fn index_of(&self, id: u64) -> (r: Option<usize>)
        ensures
            match r {
                Some(i) => i < self@.len() && self@[i as int].id == id,
                None => !self.spec_contains_id(id),
            },
    {
        let mut i: usize = 0;
        while i < self.entries.len()
            invariant
                i <= self@.len(),
                forall|j: int| 0 <= j < i ==> self@[j].id != id,
            decreases self@.len() - i,
        {
            if self.entries[i].id == id {
                return Some(i);
            }
            i += 1;
        }
        None
    }

    /// Insert a newly mapped window; new windows become topmost.
    pub fn insert(&mut self, entry: WindowEntry)
        requires
            old(self).wf(),
            !old(self).spec_contains_id(entry.id),
        ensures
            final(self)@ == seq![entry] + old(self)@,
            final(self).wf(),
    {
        self.entries.insert(0, entry);
        proof {
            assert(self@.remove(0) =~= old(self)@);
            assert(self@ =~= seq![entry] + old(self)@);
        }
    }

    /// Move the entry at position `n` to the top of the stack; the relative
    /// order of all other entries is unchanged (see
    /// `lemma_raise_preserves_order`). The window-switcher menu commits a
    /// selection through this.
    pub fn bring_nth_to_top(&mut self, n: usize)
        requires
            old(self).wf(),
            n < old(self)@.len(),
        ensures
            final(self)@ == to_top(old(self)@, n as int),
            final(self).wf(),
    {
        let entry = self.entries.remove(n);
        self.entries.insert(0, entry);
        proof {
            assert(self@ =~= to_top(old(self)@, n as int));
            lemma_raise_preserves_order(old(self)@, n as int);
            assert forall|i: int, j: int| 0 <= i < j < self@.len() implies self@[i].id
                != self@[j].id by {
                let s = old(self)@;
                if i == 0 {
                    assert(self@[j] == s.remove(n as int)[j - 1]);
                } else {
                    assert(self@[i] == s.remove(n as int)[i - 1]);
                    assert(self@[j] == s.remove(n as int)[j - 1]);
                }
            }
        }
    }

    /// Raise the window with the given identifier to the top, as on
    /// focus-click and on map. A window not in the stack leaves it unchanged.
    pub fn raise(&mut self, id: u64) -> (raised: bool)
        requires
            old(self).wf(),
        ensures
            final(self).wf(),
            raised == old(self).spec_contains_id(id),
            raised ==> final(self)@ == to_top(old(self)@, old(self).spec_index_of(id)),
            !raised ==> final(self)@ == old(self)@,
    {
        match self.index_of(id) {
            Some(i) => {
                proof {
                    let w = old(self).spec_index_of(id);
                    assert(old(self)@[i as int].id == id);
                    assert(0 <= w < old(self)@.len() && old(self)@[w].id == id);
                    assert(w == i as int);
                }
                self.bring_nth_to_top(i);
                true
            },
            None => false,
        }
    }

    /// Remove the window with the given identifier. Because the stack closes
    /// up, the next entry is promoted to topmost whenever the removed entry
    /// held index 0.
    pub fn remove(&mut self, id: u64) -> (removed: bool)
        requires
            old(self).wf(),
        ensures
            final(self).wf(),
            removed == old(self).spec_contains_id(id),
            removed ==> final(self)@ == old(self)@.remove(old(self).spec_index_of(id)),
            !removed ==> final(self)@ == old(self)@,
    {
        match self.index_of(id) {
            Some(i) => {
                proof {
                    let w = old(self).spec_index_of(id);
                    assert(old(self)@[i as int].id == id);
                    assert(0 <= w < old(self)@.len() && old(self)@[w].id == id);
                    assert(w == i as int);
                }
                self.entries.remove(i);
                proof {
                    assert forall|a: int, b: int| 0 <= a < b < self@.len() implies self@[a].id
                        != self@[b].id by {
                        let s = old(self)@;
                        let w = i as int;
                        assert(self@[a] == if a < w { s[a] } else { s[a + 1] });
                        assert(self@[b] == if b < w { s[b] } else { s[b + 1] });
                    }
                }
                true
            },
            None => false,
        }
    }
}

} // verus!
