//! The compositor state: the single owner of the window stack, the scene
//! mode, the seat's routing state, the output bridges and the XWayland
//! lifecycle. All mutation happens on the event-loop thread, one iteration
//! at a time.

use vstd::prelude::*;

use crate::router::{KeyAction, LaunchTarget, RouterState, SeatCall, SeatState, SerialCounter};
use crate::scene::SceneMode;
use crate::stack::{to_top, WindowEntry, WindowStack};
use crate::toplevel::{new_toplevel, refresh_toplevel, ToplevelData, ToplevelDelta, ToplevelInfo};

verus! {

/// Where the embedded X server stands.
#[derive(Clone, Copy, Debug, PartialEq, Eq, Structural)]
pub enum XWaylandStatus {
    /// Not started yet.
    Stopped,
    /// The compositor asked for the launch; the connection is pending.
    LaunchRequested,
    /// The window manager connection is up.
    Ready,
    /// The X server went away; its windows are gone.
    Exited,
}

/// What a key action asks of the surrounding process, beyond the state
/// change the compositor core performs itself.
#[derive(Clone, Copy, Debug, PartialEq, Eq, Structural)]
pub enum Effect {
    Nothing,
    /// Stop the event loop and exit cleanly.
    Quit,
    /// Switch to this virtual terminal.
    VtSwitch(i32),
    /// Spawn this program.
    Spawn(LaunchTarget),
    ToggleTint,
    ScaleUp,
    ScaleDown,
    RotateOutput,
}

/// The compositor core's state.
pub struct ConsolationState {
    pub stack: WindowStack,
    pub scene: SceneMode,
    pub router: RouterState,
    pub xwayland: XWaylandStatus,
    pub unpaired: crate::bridge::UnpairedSurfaces,
    /// Foreign-toplevel records, keyed by root surface identifier.
    pub toplevels: Vec<ToplevelData>,
}

impl ConsolationState {
    pub open spec fn toplevel_surfaces(&self) -> Seq<u64> {
        self.toplevels@.map_values(|d: ToplevelData| d.surface)
    }

    /// The stack holds each window once, the menu selection stays within the
    /// stack, and each toplevel is tracked once.
    pub open spec fn wf(&self) -> bool {
        &&& self.stack.wf()
        &&& self.scene.wf(self.stack@.len() as nat)
        &&& self.unpaired.wf()
        &&& forall|i: int, j: int|
            0 <= i < j < self.toplevel_surfaces().len() ==> #[trigger] self.toplevel_surfaces()[i]
                != #[trigger] self.toplevel_surfaces()[j]
    }

    pub fn new(seat: SeatState) -> (r: ConsolationState)
        ensures
            r.wf(),
            r.stack@ =~= Seq::<WindowEntry>::empty(),
            r.scene == SceneMode::Single,
            r.xwayland == XWaylandStatus::Stopped,
            r.toplevels@ =~= Seq::<ToplevelData>::empty(),
    {
        let r = ConsolationState {
            stack: WindowStack::new(),
            scene: SceneMode::Single,
            router: RouterState::new(seat),
            xwayland: XWaylandStatus::Stopped,
            unpaired: crate::bridge::UnpairedSurfaces::new(),
            toplevels: Vec::new(),
        };
        proof {
            assert(r.toplevel_surfaces() =~= Seq::<u64>::empty());
        }
        r
    }

    /// Ask for the embedded X server. Only a stopped instance is launched;
    /// the process start itself happens outside the core.
    pub fn start_xwayland(&mut self)
        ensures
            final(self).stack@ == old(self).stack@,
            final(self).scene == old(self).scene,
            final(self).toplevels@ == old(self).toplevels@,
            final(self).xwayland == (if old(self).xwayland == XWaylandStatus::Stopped {
                XWaylandStatus::LaunchRequested
            } else {
                old(self).xwayland
            }),
    {
        if let XWaylandStatus::Stopped = self.xwayland {
            self.xwayland = XWaylandStatus::LaunchRequested;
        }
    }

    /// The X11 window-manager connection is up.
    pub fn xwayland_ready(&mut self)
        ensures
            final(self).stack@ == old(self).stack@,
            final(self).scene == old(self).scene,
            final(self).toplevels@ == old(self).toplevels@,
            final(self).xwayland == XWaylandStatus::Ready,
    {
        self.xwayland = XWaylandStatus::Ready;
    }

    /// The X server crashed or exited.
    pub fn xwayland_exited(&mut self)
        ensures
            final(self).stack@ == old(self).stack@,
            final(self).scene == old(self).scene,
            final(self).toplevels@ == old(self).toplevels@,
            final(self).xwayland == XWaylandStatus::Exited,
    {
        self.xwayland = XWaylandStatus::Exited;
    }

    /// The window the compositor considers current: the topmost of the
    /// stack.
    pub fn current_window(&self) -> (r: Option<u64>)
        ensures
            match r {
                Some(id) => self.stack@.len() > 0 && id == self.stack@[0].id,
                None => self.stack@.len() == 0,
            },
    {
        match self.stack.top() {
            Some(e) => Some(e.id),
            None => None,
        }
    }

    /// Map a new window: it enters the stack topmost.
    pub fn map_window(&mut self, entry: WindowEntry)
        requires
            old(self).wf(),
            !old(self).stack.spec_contains_id(entry.id),
        ensures
            final(self).wf(),
            final(self).stack@ == seq![entry] + old(self).stack@,
            final(self).scene == old(self).scene,
            final(self).toplevels@ == old(self).toplevels@,
    {
        self.stack.insert(entry);
        proof {
            assert(self.toplevel_surfaces() =~= old(self).toplevel_surfaces());
        }
    }

    /// A window is gone: it leaves the stack, and when it was the topmost -
    /// the focused one - the next entry is thereby promoted. A menu selection
    /// past the shrunken stack clamps to the new last row.
    pub fn unmap_window(&mut self, id: u64) -> (removed: bool)
        requires
            old(self).wf(),
        ensures
            final(self).wf(),
            removed == old(self).stack.spec_contains_id(id),
            removed ==> final(self).stack@ == old(self).stack@.remove(
                old(self).stack.spec_index_of(id),
            ),
            !removed ==> final(self).stack@ == old(self).stack@,
            final(self).toplevels@ == old(self).toplevels@,
    {
        let removed = self.stack.remove(id);
        let count = self.stack.len();
        match self.scene {
            SceneMode::MenuOpen { selected } => {
                if count == 0 {
                    self.scene = SceneMode::Single;
                } else if selected >= count {
                    self.scene = SceneMode::MenuOpen { selected: count - 1 };
                }
            },
            SceneMode::Single => {},
        }
        proof {
            assert(self.toplevel_surfaces() =~= old(self).toplevel_surfaces());
        }
        removed
    }

    /// Raise a window to the top, as on focus-click and on map.
    pub fn raise_window(&mut self, id: u64) -> (raised: bool)
        requires
            old(self).wf(),
        ensures
            final(self).wf(),
            raised == old(self).stack.spec_contains_id(id),
            raised ==> final(self).stack@ == to_top(
                old(self).stack@,
                old(self).stack.spec_index_of(id),
            ),
            !raised ==> final(self).stack@ == old(self).stack@,
            final(self).scene == old(self).scene,
            final(self).toplevels@ == old(self).toplevels@,
    {
        let raised = self.stack.raise(id);
        proof {
            assert(self.toplevel_surfaces() =~= old(self).toplevel_surfaces());
        }
        raised
    }

    /// Apply one intercepted key action. The menu actions drive the scene
    /// state machine - confirm also commits the selection by raising the
    /// selected window - and everything the core cannot do itself comes back
    /// as an effect for the surrounding process.
    pub fn apply_key_action(&mut self, action: &KeyAction) -> (r: Effect)
        requires
            old(self).wf(),
        ensures
            final(self).wf(),
            final(self).toplevels@ == old(self).toplevels@,
            match action {
                KeyAction::Quit => r == Effect::Quit && final(self).stack@ == old(self).stack@
                    && final(self).scene == old(self).scene,
                KeyAction::VtSwitch(vt) => r == Effect::VtSwitch(*vt) && final(self).stack@ == old(self).stack@ && final(self).scene == old(self).scene,
                KeyAction::Run(p) => r == Effect::Spawn(*p) && final(self).stack@ == old(self).stack@ && final(self).scene == old(self).scene,
                KeyAction::ToggleTint => r == Effect::ToggleTint && final(self).stack@ == old(self).stack@ && final(self).scene == old(self).scene,
                KeyAction::ToggleMenu => {
                    &&& r == Effect::Nothing
                    &&& final(self).stack@ == old(self).stack@
                    &&& (old(self).scene is Single && old(self).stack@.len() > 0 ==> final(self).scene == (SceneMode::MenuOpen { selected: 0usize }))
                    &&& (old(self).scene is MenuOpen || old(self).stack@.len() == 0 ==> final(self).scene == old(self).scene)
                },
                KeyAction::ArrowUp => {
                    &&& r == Effect::Nothing
                    &&& final(self).stack@ == old(self).stack@
                    &&& match old(self).scene {
                        SceneMode::MenuOpen { selected } => final(self).scene
                            == (SceneMode::MenuOpen {
                            selected: if selected > 0 {
                                (selected - 1) as usize
                            } else {
                                0usize
                            },
                        }),
                        SceneMode::Single => final(self).scene == old(self).scene,
                    }
                },
                KeyAction::ArrowDown => {
                    &&& r == Effect::Nothing
                    &&& final(self).stack@ == old(self).stack@
                    &&& match old(self).scene {
                        SceneMode::MenuOpen { selected } => final(self).scene
                            == (SceneMode::MenuOpen {
                            selected: if selected + 1 < old(self).stack@.len() {
                                (selected + 1) as usize
                            } else {
                                selected
                            },
                        }),
                        SceneMode::Single => final(self).scene == old(self).scene,
                    }
                },
                KeyAction::ArrowLeft | KeyAction::ArrowRight | KeyAction::NoAction => r
                    == Effect::Nothing && final(self).stack@ == old(self).stack@ && final(self).scene == old(self).scene,
                KeyAction::Select => {
                    &&& r == Effect::Nothing
                    &&& final(self).scene == SceneMode::Single
                    &&& match old(self).scene {
                        SceneMode::MenuOpen { selected } => final(self).stack@ == to_top(
                            old(self).stack@,
                            selected as int,
                        ),
                        SceneMode::Single => final(self).stack@ == old(self).stack@,
                    }
                },
                KeyAction::Back => r == Effect::Nothing && final(self).stack@ == old(self).stack@
                    && final(self).scene == SceneMode::Single,
            },
    {
        proof {
            assert(self.toplevel_surfaces() =~= old(self).toplevel_surfaces());
        }
        match action {
            KeyAction::Quit => Effect::Quit,
            KeyAction::VtSwitch(vt) => Effect::VtSwitch(*vt),
            KeyAction::Run(p) => Effect::Spawn(*p),
            KeyAction::ToggleTint => Effect::ToggleTint,
            KeyAction::ToggleMenu => {
                let count = self.stack.len();
                self.scene.toggle_menu(count);
                Effect::Nothing
            },
            KeyAction::ArrowUp => {
                let count = self.stack.len();
                self.scene.selection_up(count);
                Effect::Nothing
            },
            KeyAction::ArrowDown => {
                let count = self.stack.len();
                self.scene.selection_down(count);
                Effect::Nothing
            },
            KeyAction::ArrowLeft => Effect::Nothing,
            KeyAction::ArrowRight => Effect::Nothing,
            KeyAction::Select => {
                match self.scene.confirm() {
                    Some(n) => {
                        self.stack.bring_nth_to_top(n);
                    },
                    None => {},
                }
                Effect::Nothing
            },
            KeyAction::Back => {
                self.scene.cancel();
                Effect::Nothing
            },
            KeyAction::NoAction => Effect::Nothing,
        }
    }
    /// Republish the foreign-toplevel state against the current window list,
    /// topmost first: a window no longer in the list is announced closed and
    /// dropped; every live window is diffed against its published record,
    /// the topmost counting as activated; a window seen for the first time
    /// is announced in full. Afterwards exactly the live windows are
    /// tracked.
    #[verifier::rlimit(100)]
    pub fn refresh_toplevels(&mut self, infos: &Vec<ToplevelInfo>) -> (r: Vec<ToplevelDelta>)
        requires
            old(self).wf(),
            forall|i: int, j: int|
                0 <= i < j < infos@.len() ==> #[trigger] infos@[i].surface != #[trigger] infos@[j].surface,
        ensures
            final(self).wf(),
            final(self).stack@ == old(self).stack@,
            final(self).scene == old(self).scene,
            final(self).xwayland == old(self).xwayland,
            forall|j: int|
                0 <= j < infos@.len() ==> final(self).toplevel_surfaces().contains(
                    #[trigger] infos@[j].surface,
                ),
            forall|s: u64|
                final(self).toplevel_surfaces().contains(s) ==> exists|j: int|
                    0 <= j < infos@.len() && (#[trigger] infos@[j]).surface == s,
            forall|s: u64|
                old(self).toplevel_surfaces().contains(s) && !(exists|j: int|
                    0 <= j < infos@.len() && (#[trigger] infos@[j]).surface == s) ==> r@.contains(
                    ToplevelDelta::Closed { surface: s },
                ),
    {
        let ghost orig = old(self).toplevels@;
        proof {
            assert(self.toplevels@ =~= orig.take(orig.len() as int));
            assert forall|i: int, j: int| 0 <= i < j < orig.len() implies #[trigger] orig[i].surface
                != #[trigger] orig[j].surface by {
                assert(old(self).toplevel_surfaces()[i] == orig[i].surface);
                assert(old(self).toplevel_surfaces()[j] == orig[j].surface);
            }
        }
        let mut out: Vec<ToplevelDelta> = Vec::new();
        let mut kept: Vec<ToplevelData> = Vec::new();
        while self.toplevels.len() > 0
            invariant
                self.stack@ == old(self).stack@,
                self.scene == old(self).scene,
                self.xwayland == old(self).xwayland,
                self.unpaired.wf(),
                self.stack.wf(),
                self.scene.wf(self.stack@.len() as nat),
                self.toplevels@.len() <= orig.len(),
                self.toplevels@ == orig.take(self.toplevels@.len() as int),
                forall|i: int, j: int|
                    0 <= i < j < orig.len() ==> #[trigger] orig[i].surface != #[trigger] orig[j].surface,
                forall|i: int, j: int|
                    0 <= i < j < kept@.len() ==> #[trigger] kept@[i].surface != #[trigger] kept@[j].surface,
                forall|i: int, j: int|
                    0 <= i < kept@.len() && 0 <= j < self.toplevels@.len() ==> (
                    #[trigger] kept@[i]).surface != (#[trigger] self.toplevels@[j]).surface,
                forall|i: int|
                    0 <= i < kept@.len() ==> exists|j: int|
                        0 <= j < infos@.len() && (#[trigger] infos@[j]).surface == (
                        #[trigger] kept@[i]).surface,
                forall|a: int|
                    0 <= a < orig.len() ==> (a < self.toplevels@.len()) || (exists|i: int|
                        0 <= i < kept@.len() && (#[trigger] kept@[i]).surface == (
                        #[trigger] orig[a]).surface) || out@.contains(
                        ToplevelDelta::Closed { surface: orig[a].surface },
                    ),
            decreases self.toplevels@.len(),
        {
            let ghost pre = self.toplevels@;
            let d = match self.toplevels.pop() {
                Some(d) => d,
                None => vstd::pervasive::unreached(),
            };
            proof {
                assert(pre == orig.take(pre.len() as int));
                assert(d == pre[pre.len() - 1]);
                assert(pre[pre.len() - 1] == orig[pre.len() - 1]);
                assert(self.toplevels@ =~= pre.subrange(0, pre.len() - 1));
                assert(self.toplevels@ =~= orig.take(self.toplevels@.len() as int));
            }
            if Self::infos_contain(infos, d.surface) {
                let ghost kept_old = kept@;
                kept.push(d);
                proof {
                    assert(kept@ =~= kept_old.push(d));
                    assert(kept@[kept@.len() - 1] == d);
                    assert forall|a: int|
                        0 <= a < orig.len() implies (a < self.toplevels@.len()) || (exists|i1: int|
                        0 <= i1 < kept@.len() && (#[trigger] kept@[i1]).surface == (
                        #[trigger] orig[a]).surface) || out@.contains(
                        ToplevelDelta::Closed { surface: orig[a].surface },
                    ) by {
                        if a == pre.len() - 1 {
                            assert(kept@[kept@.len() - 1].surface == orig[a].surface);
                        } else if a >= pre.len() {
                            if exists|i1: int|
                                0 <= i1 < kept_old.len() && (#[trigger] kept_old[i1]).surface == (
                                orig[a]).surface {
                                let i1 = choose|i1: int|
                                    0 <= i1 < kept_old.len() && (#[trigger] kept_old[i1]).surface
                                        == (orig[a]).surface;
                                assert(kept@[i1] == kept_old[i1]);
                            }
                        }
                    }
                }
            } else {
                let ghost pre_out = out@;
                out.push(ToplevelDelta::Closed { surface: d.surface });
                proof {
                    assert(out@.last() == (ToplevelDelta::Closed { surface: d.surface }));
                    assert forall|x: ToplevelDelta| pre_out.contains(x) implies out@.contains(
                        x,
                    ) by {
                        let w = choose|w: int| 0 <= w < pre_out.len() && pre_out[w] == x;
                        assert(out@[w] == x);
                    }
                    assert forall|a: int|
                        0 <= a < orig.len() implies (a < self.toplevels@.len()) || (exists|i1: int|
                        0 <= i1 < kept@.len() && (#[trigger] kept@[i1]).surface == (
                        #[trigger] orig[a]).surface) || out@.contains(
                        ToplevelDelta::Closed { surface: orig[a].surface },
                    ) by {
                        if a == pre.len() - 1 {
                            assert(out@[out@.len() - 1] == (ToplevelDelta::Closed {
                                surface: orig[a].surface,
                            }));
                        } else if a >= pre.len() {
                            if pre_out.contains(ToplevelDelta::Closed { surface: orig[a].surface })
                                {
                                assert(out@.contains(ToplevelDelta::Closed {
                                    surface: orig[a].surface,
                                }));
                            }
                        }
                    }
                }
            }
        }
        let ghost kept_fin = kept@;
        let ghost closed_out = out@;
        proof {
            assert forall|s: u64|
                (exists|a: int| 0 <= a < orig.len() && (#[trigger] orig[a]).surface == s) && !(
                exists|i1: int|
                    0 <= i1 < kept_fin.len() && (#[trigger] kept_fin[i1]).surface
                        == s) implies closed_out.contains(
                ToplevelDelta::Closed { surface: s },
            ) by {
                let a = choose|a: int| 0 <= a < orig.len() && (#[trigger] orig[a]).surface == s;
                assert(0 <= a < orig.len());
                assert(self.toplevels@.len() == 0);
                assert((a < self.toplevels@.len()) || (exists|i1: int|
                    0 <= i1 < kept@.len() && (#[trigger] kept@[i1]).surface == (
                    orig[a]).surface) || out@.contains(
                    ToplevelDelta::Closed { surface: orig[a].surface },
                ));
                assert(kept_fin == kept@);
                assert(closed_out == out@);
                if exists|i1: int|
                    0 <= i1 < kept@.len() && (#[trigger] kept@[i1]).surface == (orig[a]).surface {
                    assert(exists|i1: int|
                        0 <= i1 < kept_fin.len() && (#[trigger] kept_fin[i1]).surface == s);
                    assert(false);
                } else {
                    assert(out@.contains(ToplevelDelta::Closed { surface: orig[a].surface }));
                    assert(closed_out.contains(ToplevelDelta::Closed { surface: s }));
                }
            }
        }
        self.toplevels = kept;
        let ghost after_close = self.toplevels@;
        let mut i: usize = 0;
        while i < infos.len()
            invariant
                self.stack@ == old(self).stack@,
                self.scene == old(self).scene,
                self.xwayland == old(self).xwayland,
                self.unpaired.wf(),
                self.stack.wf(),
                self.scene.wf(self.stack@.len() as nat),
                i <= infos@.len(),
                forall|a: int, b: int|
                    0 <= a < b < infos@.len() ==> #[trigger] infos@[a].surface != #[trigger] infos@[b].surface,
                forall|a: int, b: int|
                    0 <= a < b < self.toplevels@.len() ==> (#[trigger] self.toplevels@[a]).surface
                        != (#[trigger] self.toplevels@[b]).surface,
                forall|a: int|
                    0 <= a < self.toplevels@.len() ==> exists|j: int|
                        0 <= j < infos@.len() && (#[trigger] infos@[j]).surface == (
                        #[trigger] self.toplevels@[a]).surface,
                forall|j: int|
                    0 <= j < i ==> exists|a: int|
                        0 <= a < self.toplevels@.len() && (#[trigger] infos@[j]).surface == (
                        #[trigger] self.toplevels@[a]).surface,
                closed_out.len() <= out@.len(),
                closed_out =~= out@.take(closed_out.len() as int),
            decreases infos@.len() - i,
        {
            let ghost before = self.toplevels@;
            let info = &infos[i];
            let has_focus = i == 0;
            match Self::find_toplevel(&self.toplevels, info.surface) {
                Some(k) => {
                    let mut d = self.toplevels.remove(k);
                    let ghost removed_seq = self.toplevels@;
                    let mut ds = refresh_toplevel(&mut d, info, has_focus);
                    out.append(&mut ds);
                    self.toplevels.insert(k, d);
                    proof {
                        assert(d.surface == before[k as int].surface);
                        assert(self.toplevels@ =~= removed_seq.insert(k as int, d));
                        assert(self.toplevels@.len() == before.len());
                        assert forall|a: int|
                            0 <= a < self.toplevels@.len() implies (
                        #[trigger] self.toplevels@[a]).surface == before[a].surface by {
                            if a < k as int {
                                assert(removed_seq[a] == before[a]);
                                assert(self.toplevels@[a] == removed_seq[a]);
                            } else if a == k as int {
                                assert(self.toplevels@[a] == d);
                            } else {
                                assert(self.toplevels@[a] == removed_seq[a - 1]);
                                assert(removed_seq[a - 1] == before[a]);
                            }
                        }
                        assert(self.toplevels@[k as int].surface == infos@[i as int].surface);
                        assert forall|j: int| 0 <= j < i + 1 implies exists|a: int|
                            0 <= a < self.toplevels@.len() && (#[trigger] infos@[j]).surface == (
                            #[trigger] self.toplevels@[a]).surface by {
                            if j < i {
                                let a = choose|a: int|
                                    0 <= a < before.len() && (#[trigger] infos@[j]).surface == (
                                    #[trigger] before[a]).surface;
                                assert(self.toplevels@[a].surface == before[a].surface);
                            } else {
                                assert(self.toplevels@[k as int].surface == infos@[j].surface);
                            }
                        }
                    }
                },
                None => {
                    let pair = new_toplevel(info, has_focus);
                    let mut ds = pair.1;
                    out.append(&mut ds);
                    self.toplevels.push(pair.0);
                    proof {
                        assert(self.toplevels@ =~= before.push(pair.0));
                        assert(self.toplevels@[self.toplevels@.len() - 1].surface
                            == infos@[i as int].surface);
                        assert forall|j: int| 0 <= j < i + 1 implies exists|a: int|
                            0 <= a < self.toplevels@.len() && (#[trigger] infos@[j]).surface == (
                            #[trigger] self.toplevels@[a]).surface by {
                            if j < i {
                                let a = choose|a: int|
                                    0 <= a < before.len() && (#[trigger] infos@[j]).surface == (
                                    #[trigger] before[a]).surface;
                                assert(self.toplevels@[a] == before[a]);
                            } else {
                                assert(self.toplevels@[self.toplevels@.len() - 1].surface
                                    == infos@[j].surface);
                            }
                        }
                    }
                },
            }
            i += 1;
        }
        proof {
            assert forall|i1: int, j1: int|
                0 <= i1 < j1 < self.toplevel_surfaces().len() implies #[trigger] self.toplevel_surfaces()[i1]
                != #[trigger] self.toplevel_surfaces()[j1] by {
                assert(self.toplevel_surfaces()[i1] == self.toplevels@[i1].surface);
                assert(self.toplevel_surfaces()[j1] == self.toplevels@[j1].surface);
            }
            assert forall|j: int| 0 <= j < infos@.len() implies final(self).toplevel_surfaces().contains(
                #[trigger] infos@[j].surface,
            ) by {
                let a = choose|a: int|
                    0 <= a < self.toplevels@.len() && infos@[j].surface
                        == self.toplevels@[a].surface;
                assert(self.toplevel_surfaces()[a] == self.toplevels@[a].surface);
            }
            assert forall|s: u64| final(self).toplevel_surfaces().contains(s) implies exists|j: int|
                0 <= j < infos@.len() && (#[trigger] infos@[j]).surface == s by {
                let a = choose|a: int|
                    0 <= a < self.toplevel_surfaces().len() && self.toplevel_surfaces()[a] == s;
                assert(self.toplevels@[a].surface == s);
            }
            assert forall|s: u64|
                old(self).toplevel_surfaces().contains(s) && !(exists|j: int|
                    0 <= j < infos@.len() && (#[trigger] infos@[j]).surface == s) implies out@.contains(
                ToplevelDelta::Closed { surface: s },
            ) by {
                let a = choose|a: int|
                    0 <= a < old(self).toplevel_surfaces().len() && old(
                        self,
                    ).toplevel_surfaces()[a] == s;
                assert(orig[a].surface == s);
                if exists|i1: int|
                    0 <= i1 < kept_fin.len() && (#[trigger] kept_fin[i1]).surface == s {
                    let i1 = choose|i1: int|
                        0 <= i1 < kept_fin.len() && (#[trigger] kept_fin[i1]).surface == s;
                    assert(after_close[i1].surface == s);
                    assert(exists|j: int|
                        0 <= j < infos@.len() && (#[trigger] infos@[j]).surface == s);
                    assert(false);
                } else {
                    assert(closed_out.contains(ToplevelDelta::Closed { surface: s }));
                    let w = choose|w: int|
                        0 <= w < closed_out.len() && closed_out[w] == (ToplevelDelta::Closed {
                            surface: s,
                        });
                    assert(out@.take(closed_out.len() as int)[w] == (ToplevelDelta::Closed {
                        surface: s,
                    }));
                    assert(out@[w] == (ToplevelDelta::Closed { surface: s }));
                }
            }
        }
        out
    }

    /// The bounding-box extent of the topmost window, which relative pointer
    /// motion clamps against.
    pub open spec fn spec_top_extent(&self) -> Option<crate::geometry::Extent> {
        if self.stack@.len() > 0 {
            Some(self.stack@[0].bbox.size)
        } else {
            None
        }
    }

    fn top_extent(&self) -> (r: Option<crate::geometry::Extent>)
        ensures
            r == self.spec_top_extent(),
    {
        match self.stack.top() {
            Some(e) => Some(e.bbox.size),
            None => None,
        }
    }

    /// Route relative pointer motion through the scene: while the menu is
    /// open it consumes all pointer input, so nothing reaches any window
    /// content and the tracked location stays put; otherwise the event goes
    /// to the seat under the ungrabbed routing rules, clamped to the topmost
    /// window's bounding box.
    pub fn route_pointer_motion(
        &mut self,
        locked: bool,
        dx: i32,
        dy: i32,
        time: u32,
        utime: u64,
    ) -> (r: Vec<SeatCall>)
        requires
            old(self).wf(),
            old(self).router.serials.value < u32::MAX,
            old(self).stack@.len() > 0 ==> old(self).stack@[0].bbox.size.w <= i32::MAX && old(
                self,
            ).stack@[0].bbox.size.h <= i32::MAX,
        ensures
            final(self).wf(),
            final(self).stack@ == old(self).stack@,
            final(self).scene == old(self).scene,
            old(self).scene is MenuOpen ==> *final(self) == *old(self) && r@ == Seq::<
                SeatCall,
            >::empty(),
            old(self).scene is Single ==> {
                &&& SerialCounter::spec_issued(
                    old(self).router.serials,
                    final(self).router.serials,
                    final(self).router.serials.value,
                )
                &&& ({
                    let serial = final(self).router.serials.value;
                    let rel: Seq<SeatCall> = match old(self).spec_top_extent() {
                        Some(_) => seq![SeatCall::RelativeMotion { dx, dy, utime }],
                        None => Seq::empty(),
                    };
                    if locked {
                        final(self).router.pointer == old(self).router.pointer && r@ == rel + seq![
                            SeatCall::PointerFrame,
                        ]
                    } else {
                        ({
                            let p = match old(self).spec_top_extent() {
                                Some(e) => crate::geometry::Pos {
                                    x: crate::router::spec_clamp(
                                        old(self).router.pointer.x + dx,
                                        e.w as int,
                                    ) as i32,
                                    y: crate::router::spec_clamp(
                                        old(self).router.pointer.y + dy,
                                        e.h as int,
                                    ) as i32,
                                },
                                None => crate::geometry::Pos {
                                    x: (old(self).router.pointer.x + dx) as i32,
                                    y: (old(self).router.pointer.y + dy) as i32,
                                },
                            };
                            final(self).router.pointer == p && r@ == rel + seq![
                                SeatCall::Motion { x: p.x, y: p.y, serial, time },
                                SeatCall::PointerFrame,
                            ]
                        })
                    }
                })
            },
    {
        if self.scene.consumes_pointer() {
            return Vec::new();
        }
        let extent = self.top_extent();
        let r = self.router.pointer_motion(extent, locked, dx, dy, time, utime);
        proof {
            assert(self.toplevel_surfaces() =~= old(self).toplevel_surfaces());
        }
        r
    }

    /// Route absolute pointer motion; an open menu consumes it.
    pub fn route_pointer_motion_absolute(&mut self, x: i64, y: i64, time: u32) -> (r: Vec<
        SeatCall,
    >)
        requires
            old(self).wf(),
            old(self).router.serials.value < u32::MAX,
            old(self).stack@.len() > 0 ==> old(self).stack@[0].bbox.size.w <= i32::MAX && old(
                self,
            ).stack@[0].bbox.size.h <= i32::MAX,
        ensures
            final(self).wf(),
            final(self).stack@ == old(self).stack@,
            final(self).scene == old(self).scene,
            old(self).scene is MenuOpen ==> *final(self) == *old(self) && r@ == Seq::<
                SeatCall,
            >::empty(),
            old(self).scene is Single ==> {
                &&& SerialCounter::spec_issued(
                    old(self).router.serials,
                    final(self).router.serials,
                    final(self).router.serials.value,
                )
                &&& ({
                    let serial = final(self).router.serials.value;
                    match old(self).spec_top_extent() {
                        Some(e) => {
                            let p = crate::geometry::Pos {
                                x: crate::router::spec_clamp(x as int, e.w as int) as i32,
                                y: crate::router::spec_clamp(y as int, e.h as int) as i32,
                            };
                            final(self).router.pointer == p && r@ == seq![
                                SeatCall::Motion { x: p.x, y: p.y, serial, time },
                                SeatCall::PointerFrame,
                            ]
                        },
                        None => final(self).router.pointer == old(self).router.pointer && r@
                            == seq![SeatCall::PointerFrame],
                    }
                })
            },
    {
        if self.scene.consumes_pointer() {
            return Vec::new();
        }
        let extent = self.top_extent();
        let r = self.router.pointer_motion_absolute(extent, x, y, time);
        proof {
            assert(self.toplevel_surfaces() =~= old(self).toplevel_surfaces());
        }
        r
    }

    /// Route a pointer axis event; an open menu consumes it.
    pub fn route_pointer_axis(&mut self, input: crate::router::AxisInput) -> (r: Vec<SeatCall>)
        requires
            old(self).wf(),
        ensures
            final(self).wf(),
            *final(self) == *old(self),
            old(self).scene is MenuOpen ==> r@ == Seq::<SeatCall>::empty(),
            old(self).scene is Single ==> r@ == seq![
                SeatCall::Axis(crate::router::spec_axis_frame(input)),
                SeatCall::PointerFrame,
            ],
    {
        if self.scene.consumes_pointer() {
            return Vec::new();
        }
        let r = self.router.pointer_axis(input);
        proof {
            assert(self.toplevel_surfaces() =~= old(self).toplevel_surfaces());
        }
        r
    }

    /// Whether a window list names this surface.
    fn infos_contain(infos: &Vec<ToplevelInfo>, surface: u64) -> (r: bool)
        ensures
            r == exists|j: int| 0 <= j < infos@.len() && (#[trigger] infos@[j]).surface == surface,
    {
        let mut j: usize = 0;
        while j < infos.len()
            invariant
                j <= infos@.len(),
                forall|a: int| 0 <= a < j ==> (#[trigger] infos@[a]).surface != surface,
            decreases infos@.len() - j,
        {
            if infos[j].surface == surface {
                return true;
            }
            j += 1;
        }
        false
    }

    /// Position of the record tracking this surface.
    fn find_toplevel(toplevels: &Vec<ToplevelData>, surface: u64) -> (r: Option<usize>)
        ensures
            match r {
                Some(k) => k < toplevels@.len() && toplevels@[k as int].surface == surface,
                None => forall|a: int|
                    0 <= a < toplevels@.len() ==> (#[trigger] toplevels@[a]).surface != surface,
            },
    {
        let mut j: usize = 0;
        while j < toplevels.len()
            invariant
                j <= toplevels@.len(),
                forall|a: int| 0 <= a < j ==> (#[trigger] toplevels@[a]).surface != surface,
            decreases toplevels@.len() - j,
        {
            if toplevels[j].surface == surface {
                return Some(j);
            }
            j += 1;
        }
        None
    }
}

} // verus!
