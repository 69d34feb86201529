//! The foreign-toplevel bridge: it tracks, per toplevel window, the state
//! last published to external clients (task bars and the like), and on every
//! compositor state change emits only the deltas - title, app-id, state
//! flags, output entered or left - followed by a done marker, so subscribers
//! never see a torn intermediate state.

use vstd::prelude::*;

verus! {

/// arrayvec's inline vector, which carries a toplevel's published state
/// flags; declared so that its values can stand in fields and signatures.
#[verifier::external_type_specification]
#[verifier::external_body]
#[verifier::reject_recursive_types(T)]
pub struct ExArrayVec<T, const CAP: usize>(arrayvec::ArrayVec<T, CAP>);

/// The elements a state-flag vector holds, in order.
pub uninterp spec fn state_vec_elems(v: arrayvec::ArrayVec<u32, 4>) -> Seq<u32>;

/// Relies on arrayvec::ArrayVec::new: a new vector holds no elements.
#[verifier::external_body]
fn state_vec_new() -> (r: arrayvec::ArrayVec<u32, 4>)
    ensures
        state_vec_elems(r) == Seq::<u32>::empty(),
{
    arrayvec::ArrayVec::new()
}

/// Relies on arrayvec::ArrayVec::push: appends one element; it panics when
/// the vector is full, so callers stay under the capacity.
#[verifier::external_body]
fn state_vec_push(v: &mut arrayvec::ArrayVec<u32, 4>, x: u32)
    requires
        state_vec_elems(*old(v)).len() < 4,
    ensures
        state_vec_elems(*final(v)) == state_vec_elems(*old(v)).push(x),
{
    v.push(x)
}

/// Relies on arrayvec::ArrayVec's PartialEq: element-wise equality of the
/// held slices.
#[verifier::external_body]
fn state_vec_eq(a: &arrayvec::ArrayVec<u32, 4>, b: &arrayvec::ArrayVec<u32, 4>) -> (r: bool)
    ensures
        r == (state_vec_elems(*a) == state_vec_elems(*b)),
{
    a == b
}

/// Relies on arrayvec::ArrayVec::as_slice: the held elements in order.
#[verifier::external_body]
fn state_vec_slice(v: &arrayvec::ArrayVec<u32, 4>) -> (r: &[u32])
    ensures
        r@ == state_vec_elems(*v),
{
    v.as_slice()
}

/// Protocol values of the published state flags.
pub const TOPLEVEL_STATE_MAXIMIZED: u32 = 0;

pub const TOPLEVEL_STATE_MINIMIZED: u32 = 1;

pub const TOPLEVEL_STATE_ACTIVATED: u32 = 2;

pub const TOPLEVEL_STATE_FULLSCREEN: u32 = 3;

/// The published state-flag list of a toplevel: one entry per set flag, in a
/// fixed order.
pub open spec fn spec_state_flags(
    maximized: bool,
    minimized: bool,
    fullscreen: bool,
    activated: bool,
) -> Seq<u32> {
    (if maximized {
        seq![TOPLEVEL_STATE_MAXIMIZED]
    } else {
        Seq::empty()
    }) + (if minimized {
        seq![TOPLEVEL_STATE_MINIMIZED]
    } else {
        Seq::empty()
    }) + (if fullscreen {
        seq![TOPLEVEL_STATE_FULLSCREEN]
    } else {
        Seq::empty()
    }) + (if activated {
        seq![TOPLEVEL_STATE_ACTIVATED]
    } else {
        Seq::empty()
    })
}

/// Build the state-flag list for one toplevel.
pub fn to_state_vec(maximized: bool, minimized: bool, fullscreen: bool, activated: bool) -> (r:
    arrayvec::ArrayVec<u32, 4>)
    ensures
        state_vec_elems(r) == spec_state_flags(maximized, minimized, fullscreen, activated),
{
    let mut rv = state_vec_new();
    if maximized {
        state_vec_push(&mut rv, TOPLEVEL_STATE_MAXIMIZED);
    }
    if minimized {
        state_vec_push(&mut rv, TOPLEVEL_STATE_MINIMIZED);
    }
    if fullscreen {
        state_vec_push(&mut rv, TOPLEVEL_STATE_FULLSCREEN);
    }
    if activated {
        state_vec_push(&mut rv, TOPLEVEL_STATE_ACTIVATED);
    }
    proof {
        assert(state_vec_elems(rv) =~= spec_state_flags(
            maximized,
            minimized,
            fullscreen,
            activated,
        ));
    }
    rv
}

/// The current state of one toplevel window, as the compositor knows it.
pub struct ToplevelInfo {
    /// Identifier of the window's root surface.
    pub surface: u64,
    pub title: Option<String>,
    pub app_id: Option<String>,
    pub maximized: bool,
    pub minimized: bool,
    pub fullscreen: bool,
    /// The output the window currently shows on.
    pub output: Option<u32>,
}

impl ToplevelInfo {
    pub open spec fn title_view(&self) -> Option<Seq<char>> {
        match self.title {
            Some(t) => Some(t@),
            None => None,
        }
    }

    pub open spec fn app_id_view(&self) -> Option<Seq<char>> {
        match self.app_id {
            Some(t) => Some(t@),
            None => None,
        }
    }
}

/// The state of one toplevel as last published to external clients.
pub struct ToplevelData {
    pub surface: u64,
    pub title: Option<String>,
    pub app_id: Option<String>,
    pub states: arrayvec::ArrayVec<u32, 4>,
    pub output: Option<u32>,
}

impl ToplevelData {
    pub open spec fn title_view(&self) -> Option<Seq<char>> {
        match self.title {
            Some(t) => Some(t@),
            None => None,
        }
    }

    pub open spec fn app_id_view(&self) -> Option<Seq<char>> {
        match self.app_id {
            Some(t) => Some(t@),
            None => None,
        }
    }
}

impl ToplevelData {
    /// The published state flags, in protocol order, for sending to
    /// subscribers.
    pub fn current_flags(&self) -> (r: Vec<u32>)
        ensures
            r@ == state_vec_elems(self.states),
    {
        let s = state_vec_slice(&self.states);
        let mut out: Vec<u32> = Vec::new();
        let mut i: usize = 0;
        while i < s.len()
            invariant
                i <= s@.len(),
                s@ == state_vec_elems(self.states),
                out@ =~= s@.take(i as int),
            decreases s@.len() - i,
        {
            out.push(s[i]);
            i += 1;
        }
        proof {
            assert(out@ =~= s@);
        }
        out
    }
}

/// One delta event published to foreign-toplevel subscribers.
#[derive(Debug, Clone)]
pub enum ToplevelDelta {
    /// The window changed its title.
    TitleChanged { surface: u64, title: String },
    /// The window changed its application identifier.
    AppIdChanged { surface: u64, app_id: String },
    /// The state flags changed; the full flag list is resent.
    StatesChanged { surface: u64 },
    /// The window left the output it was published on.
    OutputLeft { surface: u64 },
    /// The window entered an output.
    OutputEntered { surface: u64, output: u32 },
    /// End of this window's batch.
    Done { surface: u64 },
    /// A window appeared; its full description is sent.
    NewToplevel { surface: u64 },
    /// A window is gone.
    Closed { surface: u64 },
}

impl ToplevelDelta {
    /// The mathematical value of a delta, with strings as sequences.
    pub open spec fn is_title(&self, surface: u64, title: Seq<char>) -> bool {
        match self {
            ToplevelDelta::TitleChanged { surface: s, title: t } => *s == surface && t@ == title,
            _ => false,
        }
    }

    pub open spec fn is_app_id(&self, surface: u64, app_id: Seq<char>) -> bool {
        match self {
            ToplevelDelta::AppIdChanged { surface: s, app_id: t } => *s == surface && t@ == app_id,
            _ => false,
        }
    }
}

/// Whether two optional strings hold the same characters.
fn opt_str_eq(a: &Option<String>, b: &Option<String>) -> (r: bool)
    ensures
        r == (match (a, b) {
            (Some(x), Some(y)) => x@ == y@,
            (None, None) => true,
            _ => false,
        }),
{
    match (a, b) {
        (Some(x), Some(y)) => x.eq(y),
        (None, None) => true,
        _ => false,
    }
}

fn dup_opt_string(a: &Option<String>) -> (r: Option<String>)
    ensures
        match (a, &r) {
            (Some(x), Some(y)) => x@ == y@,
            (None, None) => true,
            _ => false,
        },
{
    match a {
        Some(x) => Some(x.clone()),
        None => None,
    }
}

/// A publishable title change: the title differs and the new one exists.
pub open spec fn spec_title_event(data: ToplevelData, info: ToplevelInfo) -> bool {
    data.title_view() != info.title_view() && info.title is Some
}

/// A publishable app-id change.
pub open spec fn spec_app_id_event(data: ToplevelData, info: ToplevelInfo) -> bool {
    data.app_id_view() != info.app_id_view() && info.app_id is Some
}

/// The state-flag list changed.
pub open spec fn spec_states_event(data: ToplevelData, info: ToplevelInfo, has_focus: bool) -> bool {
    state_vec_elems(data.states) != spec_state_flags(
        info.maximized,
        info.minimized,
        info.fullscreen,
        has_focus,
    )
}

/// The window moved to another output, or off every output.
pub open spec fn spec_output_event(data: ToplevelData, info: ToplevelInfo) -> bool {
    data.output != info.output
}

/// Anything changed at all, so a done marker closes the batch. A title or
/// app-id that changed to nothing is recorded but publishes no event.
pub open spec fn spec_toplevel_changed(data: ToplevelData, info: ToplevelInfo, has_focus: bool) -> bool {
    spec_title_event(data, info) || spec_app_id_event(data, info) || spec_states_event(
        data,
        info,
        has_focus,
    ) || spec_output_event(data, info)
}

/// How many deltas each part of the diff contributes, and the total.
pub open spec fn refresh_counts(data: ToplevelData, info: ToplevelInfo, has_focus: bool) -> (
    int,
    int,
    int,
    int,
    int,
    int,
) {
    let n_title: int = if spec_title_event(data, info) { 1 } else { 0 };
    let n_app: int = if spec_app_id_event(data, info) { 1 } else { 0 };
    let n_states: int = if spec_states_event(data, info, has_focus) { 1 } else { 0 };
    let n_left: int = if spec_output_event(data, info) && data.output is Some { 1 } else { 0 };
    let n_entered: int = if spec_output_event(data, info) && info.output is Some { 1 } else { 0 };
    let n_done: int = if spec_toplevel_changed(data, info, has_focus) { 1 } else { 0 };
    (n_title, n_app, n_states, n_left, n_entered, n_title + n_app + n_states + n_left + n_entered + n_done)
}

/// Diff one already-tracked toplevel against its current state, update the
/// published record, and return the deltas: the new title and app-id when
/// they changed to something publishable, the state-flag list when it
/// changed, the output move, and a final done marker exactly when anything
/// went out or changed.
#[verifier::rlimit(60)]
pub fn refresh_toplevel(data: &mut ToplevelData, info: &ToplevelInfo, has_focus: bool) -> (r: Vec<
    ToplevelDelta,
>)
    ensures
        final(data).surface == old(data).surface,
        final(data).title_view() == info.title_view(),
        final(data).app_id_view() == info.app_id_view(),
        state_vec_elems(final(data).states) == spec_state_flags(
            info.maximized,
            info.minimized,
            info.fullscreen,
            has_focus,
        ),
        final(data).output == info.output,
        r@.len() == refresh_counts(*old(data), *info, has_focus).5,
        spec_title_event(*old(data), *info) ==> r@[0].is_title(
            old(data).surface,
            info.title_view()->Some_0,
        ),
        spec_app_id_event(*old(data), *info) ==> r@[refresh_counts(*old(data), *info, has_focus).0].is_app_id(
            old(data).surface,
            info.app_id_view()->Some_0,
        ),
        spec_states_event(*old(data), *info, has_focus) ==> ({
            let c = refresh_counts(*old(data), *info, has_focus);
            r@[c.0 + c.1] == (ToplevelDelta::StatesChanged { surface: old(data).surface })
        }),
        spec_output_event(*old(data), *info) && old(data).output is Some ==> ({
            let c = refresh_counts(*old(data), *info, has_focus);
            r@[c.0 + c.1 + c.2] == (ToplevelDelta::OutputLeft { surface: old(data).surface })
        }),
        spec_output_event(*old(data), *info) && info.output is Some ==> ({
            let c = refresh_counts(*old(data), *info, has_focus);
            r@[c.0 + c.1 + c.2 + c.3] == (ToplevelDelta::OutputEntered {
                surface: old(data).surface,
                output: info.output->Some_0,
            })
        }),
        spec_toplevel_changed(*old(data), *info, has_focus) ==> r@.last() == (ToplevelDelta::Done {
            surface: old(data).surface,
        }),
        !spec_toplevel_changed(*old(data), *info, has_focus) ==> r@ == Seq::<
            ToplevelDelta,
        >::empty(),
{
    let mut out: Vec<ToplevelDelta> = Vec::new();
    let surface = data.surface;

    let title_changed = !opt_str_eq(&data.title, &info.title);
    let mut title_event = false;
    if title_changed {
        data.title = dup_opt_string(&info.title);
        if let Some(t) = &info.title {
            out.push(ToplevelDelta::TitleChanged { surface, title: t.clone() });
            title_event = true;
        }
    } else {
        data.title = dup_opt_string(&info.title);
    }

    proof {
        assert(title_event == spec_title_event(*old(data), *info));
        assert(out@.len() == refresh_counts(*old(data), *info, has_focus).0);
    }

    let app_id_changed = !opt_str_eq(&data.app_id, &info.app_id);
    let mut app_id_event = false;
    if app_id_changed {
        data.app_id = dup_opt_string(&info.app_id);
        if let Some(a) = &info.app_id {
            out.push(ToplevelDelta::AppIdChanged { surface, app_id: a.clone() });
            app_id_event = true;
        }
    } else {
        data.app_id = dup_opt_string(&info.app_id);
    }
    proof {
        let c = refresh_counts(*old(data), *info, has_focus);
        assert(app_id_event == spec_app_id_event(*old(data), *info));
        assert(out@.len() == c.0 + c.1);
    }

    let new_states = to_state_vec(info.maximized, info.minimized, info.fullscreen, has_focus);
    let states_changed = !state_vec_eq(&data.states, &new_states);
    data.states = new_states;
    if states_changed {
        out.push(ToplevelDelta::StatesChanged { surface });
    }
    proof {
        let c = refresh_counts(*old(data), *info, has_focus);
        assert(states_changed == spec_states_event(*old(data), *info, has_focus));
        assert(out@.len() == c.0 + c.1 + c.2);
    }

    let output_changed = match (data.output, info.output) {
        (Some(a), Some(b)) => a != b,
        (None, None) => false,
        _ => true,
    };
    if output_changed {
        if data.output.is_some() {
            out.push(ToplevelDelta::OutputLeft { surface });
        }
        if let Some(o) = info.output {
            out.push(ToplevelDelta::OutputEntered { surface, output: o });
        }
    }
    data.output = info.output;
    proof {
        let c = refresh_counts(*old(data), *info, has_focus);
        assert(output_changed == spec_output_event(*old(data), *info));
        assert(out@.len() == c.0 + c.1 + c.2 + c.3 + c.4);
    }

    if title_event || app_id_event || states_changed || output_changed {
        out.push(ToplevelDelta::Done { surface });
    }
    out
}

/// Start tracking a window that was not published before: the full
/// description goes out, ending with a done marker.
pub fn new_toplevel(info: &ToplevelInfo, has_focus: bool) -> (r: (ToplevelData, Vec<ToplevelDelta>))
    ensures
        r.0.surface == info.surface,
        r.0.title_view() == info.title_view(),
        r.0.app_id_view() == info.app_id_view(),
        state_vec_elems(r.0.states) == spec_state_flags(
            info.maximized,
            info.minimized,
            info.fullscreen,
            has_focus,
        ),
        r.0.output == info.output,
        r.1@ == seq![
            ToplevelDelta::NewToplevel { surface: info.surface },
            ToplevelDelta::Done { surface: info.surface },
        ],
{
    let data = ToplevelData {
        surface: info.surface,
        title: dup_opt_string(&info.title),
        app_id: dup_opt_string(&info.app_id),
        states: to_state_vec(info.maximized, info.minimized, info.fullscreen, has_focus),
        output: info.output,
    };
    let mut out: Vec<ToplevelDelta> = Vec::new();
    out.push(ToplevelDelta::NewToplevel { surface: info.surface });
    out.push(ToplevelDelta::Done { surface: info.surface });
    proof {
        assert(out@ =~= seq![
            ToplevelDelta::NewToplevel { surface: info.surface },
            ToplevelDelta::Done { surface: info.surface },
        ]);
    }
    (data, out)
}

} // verus!
