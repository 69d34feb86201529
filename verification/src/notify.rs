//! Publishing output state to configuration clients: on every compositor
//! state change, the previous published snapshot is diffed against the new
//! per-head state and only the deltas go out, followed by a single done
//! marker, so subscribers never see a torn intermediate state. Any change
//! also advances the serial, which cancels every configuration transaction
//! still pending against the old one.

use vstd::prelude::*;

use crate::config::{HeadConf, HeadConfModel, OutputManagementState};
use crate::outputs::{Mode, Output, OutputId, OutputModel, Transform};

verus! {

/// One delta event sent to subscribed configuration clients.
#[derive(Clone, Copy, Debug, PartialEq, Eq, Structural)]
pub enum HeadDelta {
    /// Adaptive sync was switched.
    AdaptiveSync { id: OutputId, enabled: bool },
    /// The mode list changed and is sent again.
    ModesResent { id: OutputId },
    /// Another of the published modes is now active.
    CurrentMode { id: OutputId, index: usize },
    /// The head was enabled or disabled.
    Enabled { id: OutputId, enabled: bool },
    /// The head moved in the logical coordinate space.
    Position { id: OutputId, x: i32, y: i32 },
    /// The fractional scale changed, in thousandths.
    ScaleChanged { id: OutputId, scale_millis: u32 },
    /// The transform changed.
    TransformChanged { id: OutputId, transform: Transform },
    /// A head appeared; its full description is sent.
    NewHead { id: OutputId },
    /// A head disappeared.
    RemovedHead { id: OutputId },
    /// End of the batch, carrying the new serial.
    Done { serial: u32 },
}

/// The deltas one already-published head contributes: adaptive sync, the
/// mode list, the active mode, then the logical placement. A mode list whose
/// length changed cannot be re-sent over the per-mode resources, so only a
/// same-length change is resent, and mode indices are published only against
/// a same-length list.
pub open spec fn spec_head_deltas(id: OutputId, o: OutputModel, n: OutputModel) -> Seq<HeadDelta> {
    let same_len = o.modes.len() == n.modes.len();
    let modes_differ = o.modes != n.modes;
    let vrr: Seq<HeadDelta> = if o.vrr_enabled != n.vrr_enabled {
        seq![HeadDelta::AdaptiveSync { id, enabled: n.vrr_enabled }]
    } else {
        Seq::empty()
    };
    let modes: Seq<HeadDelta> = if modes_differ && same_len {
        seq![HeadDelta::ModesResent { id }]
    } else {
        Seq::empty()
    };
    let cur: Seq<HeadDelta> = match (o.current_mode, n.current_mode) {
        (Some(oi), Some(ni)) => if same_len && (modes_differ || oi != ni) {
            seq![HeadDelta::CurrentMode { id, index: ni }]
        } else {
            Seq::empty()
        },
        (Some(oi), None) => seq![HeadDelta::Enabled { id, enabled: false }],
        (None, Some(ni)) => if same_len {
            seq![
                HeadDelta::Enabled { id, enabled: true },
                HeadDelta::CurrentMode { id, index: ni },
            ]
        } else {
            Seq::empty()
        },
        (None, None) => Seq::empty(),
    };
    let log: Seq<HeadDelta> = match (o.logical, n.logical) {
        (Some(ol), Some(nl)) => if ol != nl {
            (if ol.x != nl.x || ol.y != nl.y {
                seq![HeadDelta::Position { id, x: nl.x, y: nl.y }]
            } else {
                Seq::empty()
            }) + (if ol.scale_millis != nl.scale_millis {
                seq![HeadDelta::ScaleChanged { id, scale_millis: nl.scale_millis }]
            } else {
                Seq::empty()
            }) + (if ol.transform != nl.transform {
                seq![HeadDelta::TransformChanged { id, transform: nl.transform }]
            } else {
                Seq::empty()
            })
        } else {
            Seq::empty()
        },
        (None, Some(nl)) => seq![
            HeadDelta::Position { id, x: nl.x, y: nl.y },
            HeadDelta::TransformChanged { id, transform: nl.transform },
            HeadDelta::ScaleChanged { id, scale_millis: nl.scale_millis },
        ],
        (Some(ol), None) => Seq::empty(),
        (None, None) => Seq::empty(),
    };
    vrr + modes + cur + log
}

/// Whether a head's published state changed at all. This also covers a mode
/// list whose length changed, which produces no delta but still advances the
/// serial.
pub open spec fn spec_head_changed(o: OutputModel, n: OutputModel) -> bool {
    let same_len = o.modes.len() == n.modes.len();
    let modes_differ = o.modes != n.modes;
    ||| o.vrr_enabled != n.vrr_enabled
    ||| modes_differ
    ||| match (o.current_mode, n.current_mode) {
        (Some(oi), Some(ni)) => same_len && (modes_differ || oi != ni),
        (Some(oi), None) => true,
        (None, Some(ni)) => same_len,
        (None, None) => false,
    }
    ||| match (o.logical, n.logical) {
        (Some(ol), Some(nl)) => ol != nl,
        (None, Some(nl)) => true,
        _ => false,
    }
}

/// Compute one head's deltas and whether anything about it changed.
#[verifier::rlimit(60)]
pub fn diff_head(id: OutputId, o: &Output, n: &Output) -> (r: (Vec<HeadDelta>, bool))
    ensures
        r.0@ == spec_head_deltas(id, o@, n@),
        r.1 == spec_head_changed(o@, n@),
{
    let mut out: Vec<HeadDelta> = Vec::new();
    let mut changed = false;

    let same_len = o.modes.len() == n.modes.len();
    let modes_differ = !modes_eq(&o.modes, &n.modes);

    let ghost s_vrr: Seq<HeadDelta> = if o@.vrr_enabled != n@.vrr_enabled {
        seq![HeadDelta::AdaptiveSync { id, enabled: n@.vrr_enabled }]
    } else {
        Seq::empty()
    };
    let ghost s_modes: Seq<HeadDelta> = if o@.modes != n@.modes && o@.modes.len()
        == n@.modes.len() {
        seq![HeadDelta::ModesResent { id }]
    } else {
        Seq::empty()
    };
    let ghost s_cur: Seq<HeadDelta> = match (o@.current_mode, n@.current_mode) {
        (Some(oi), Some(ni)) => if o@.modes.len() == n@.modes.len() && (o@.modes != n@.modes || oi
            != ni) {
            seq![HeadDelta::CurrentMode { id, index: ni }]
        } else {
            Seq::empty()
        },
        (Some(oi), None) => seq![HeadDelta::Enabled { id, enabled: false }],
        (None, Some(ni)) => if o@.modes.len() == n@.modes.len() {
            seq![
                HeadDelta::Enabled { id, enabled: true },
                HeadDelta::CurrentMode { id, index: ni },
            ]
        } else {
            Seq::empty()
        },
        (None, None) => Seq::empty(),
    };
    let ghost s_log: Seq<HeadDelta> = match (o@.logical, n@.logical) {
        (Some(ol), Some(nl)) => if ol != nl {
            (if ol.x != nl.x || ol.y != nl.y {
                seq![HeadDelta::Position { id, x: nl.x, y: nl.y }]
            } else {
                Seq::empty()
            }) + (if ol.scale_millis != nl.scale_millis {
                seq![HeadDelta::ScaleChanged { id, scale_millis: nl.scale_millis }]
            } else {
                Seq::empty()
            }) + (if ol.transform != nl.transform {
                seq![HeadDelta::TransformChanged { id, transform: nl.transform }]
            } else {
                Seq::empty()
            })
        } else {
            Seq::empty()
        },
        (None, Some(nl)) => seq![
            HeadDelta::Position { id, x: nl.x, y: nl.y },
            HeadDelta::TransformChanged { id, transform: nl.transform },
            HeadDelta::ScaleChanged { id, scale_millis: nl.scale_millis },
        ],
        (Some(ol), None) => Seq::empty(),
        (None, None) => Seq::empty(),
    };
    proof {
        assert(spec_head_deltas(id, o@, n@) == s_vrr + s_modes + s_cur + s_log);
    }

    if o.vrr_enabled != n.vrr_enabled {
        out.push(HeadDelta::AdaptiveSync { id, enabled: n.vrr_enabled });
        changed = true;
    }
    proof {
        assert(out@ =~= s_vrr);
    }
    if modes_differ {
        changed = true;
        if same_len {
            out.push(HeadDelta::ModesResent { id });
        }
    }
    proof {
        assert(out@ =~= s_vrr + s_modes);
    }
    match (o.current_mode, n.current_mode) {
        (Some(oi), Some(ni)) => {
            if same_len && (modes_differ || oi != ni) {
                out.push(HeadDelta::CurrentMode { id, index: ni });
                changed = true;
            }
        },
        (Some(_), None) => {
            out.push(HeadDelta::Enabled { id, enabled: false });
            changed = true;
        },
        (None, Some(ni)) => {
            if same_len {
                out.push(HeadDelta::Enabled { id, enabled: true });
                out.push(HeadDelta::CurrentMode { id, index: ni });
                changed = true;
            }
        },
        (None, None) => {},
    }
    proof {
        assert(out@ =~= s_vrr + s_modes + s_cur);
    }
    match (o.logical, n.logical) {
        (Some(ol), Some(nl)) => {
            if ol != nl {
                changed = true;
                if ol.x != nl.x || ol.y != nl.y {
                    out.push(HeadDelta::Position { id, x: nl.x, y: nl.y });
                }
                if ol.scale_millis != nl.scale_millis {
                    out.push(HeadDelta::ScaleChanged { id, scale_millis: nl.scale_millis });
                }
                if ol.transform != nl.transform {
                    out.push(HeadDelta::TransformChanged { id, transform: nl.transform });
                }
            }
        },
        (None, Some(nl)) => {
            out.push(HeadDelta::Position { id, x: nl.x, y: nl.y });
            out.push(HeadDelta::TransformChanged { id, transform: nl.transform });
            out.push(HeadDelta::ScaleChanged { id, scale_millis: nl.scale_millis });
            changed = true;
        },
        (Some(_), None) => {},
        (None, None) => {},
    }
    proof {
        assert(out@ =~= s_vrr + s_modes + s_cur + s_log);
    }
    (out, changed)
}

/// The published head with the given identifier, if any.
pub open spec fn spec_find_head(s: Seq<HeadConfModel>, id: OutputId) -> Option<HeadConfModel>
    decreases s.len(),
{
    if s.len() == 0 {
        None
    } else if s[0].id == id {
        Some(s[0])
    } else {
        spec_find_head(s.drop_first(), id)
    }
}

proof fn lemma_find_head_at(s: Seq<HeadConfModel>, id: OutputId, k: int)
    requires
        0 <= k < s.len(),
        s[k].id == id,
        forall|j: int| 0 <= j < k ==> (#[trigger] s[j]).id != id,
    ensures
        spec_find_head(s, id) == Some(s[k]),
    decreases k,
{
    if k > 0 {
        lemma_find_head_at(s.drop_first(), id, k - 1);
    }
}

proof fn lemma_find_head_none(s: Seq<HeadConfModel>, id: OutputId)
    requires
        forall|j: int| 0 <= j < s.len() ==> (#[trigger] s[j]).id != id,
    ensures
        spec_find_head(s, id) is None,
    decreases s.len(),
{
    if s.len() > 0 {
        lemma_find_head_none(s.drop_first(), id);
    }
}

/// What one head of the new state contributes to the batch: its diff against
/// the published snapshot, or its announcement when it is new.
pub open spec fn spec_delta_for(olds: Seq<HeadConfModel>, h: HeadConfModel) -> Seq<HeadDelta> {
    match spec_find_head(olds, h.id) {
        Some(o) => spec_head_deltas(h.id, o.config, h.config),
        None => seq![HeadDelta::NewHead { id: h.id }],
    }
}

/// Whether one head of the new state changed against the snapshot.
pub open spec fn spec_changed_for(olds: Seq<HeadConfModel>, h: HeadConfModel) -> bool {
    match spec_find_head(olds, h.id) {
        Some(o) => spec_head_changed(o.config, h.config),
        None => true,
    }
}

/// The contributions of the first `k` heads of the new state.
pub open spec fn spec_new_deltas_prefix(
    olds: Seq<HeadConfModel>,
    news: Seq<HeadConfModel>,
    k: int,
) -> Seq<HeadDelta>
    decreases k,
{
    if k <= 0 {
        Seq::empty()
    } else {
        spec_new_deltas_prefix(olds, news, k - 1) + spec_delta_for(olds, news[k - 1])
    }
}

/// The contributions of every head of the new state, in order.
pub open spec fn spec_new_deltas(olds: Seq<HeadConfModel>, news: Seq<HeadConfModel>) -> Seq<
    HeadDelta,
> {
    spec_new_deltas_prefix(olds, news, news.len() as int)
}

/// The removal announcements for the first `k` published heads that the new
/// state no longer contains.
pub open spec fn spec_removed_prefix(
    olds: Seq<HeadConfModel>,
    news: Seq<HeadConfModel>,
    k: int,
) -> Seq<HeadDelta>
    decreases k,
{
    if k <= 0 {
        Seq::empty()
    } else {
        spec_removed_prefix(olds, news, k - 1) + (if spec_find_head(news, olds[k - 1].id) is None {
            seq![HeadDelta::RemovedHead { id: olds[k - 1].id }]
        } else {
            Seq::empty()
        })
    }
}

pub open spec fn spec_removed_deltas(olds: Seq<HeadConfModel>, news: Seq<HeadConfModel>) -> Seq<
    HeadDelta,
> {
    spec_removed_prefix(olds, news, olds.len() as int)
}

/// Anything at all changed: some head of the new state is new or different,
/// or some published head disappeared.
pub open spec fn spec_any_changed(olds: Seq<HeadConfModel>, news: Seq<HeadConfModel>) -> bool {
    ||| exists|i: int| 0 <= i < news.len() && spec_changed_for(olds, #[trigger] news[i])
    ||| exists|i: int|
        0 <= i < olds.len() && spec_find_head(news, (#[trigger] olds[i]).id) is None
}

/// Identifiers in a head list are unique.
pub open spec fn heads_unique(s: Seq<HeadConfModel>) -> bool {
    forall|i: int, j: int| 0 <= i < j < s.len() ==> #[trigger] s[i].id != #[trigger] s[j].id
}

impl OutputManagementState {
    /// Take a fresh per-head snapshot: diff every head against the published
    /// snapshot and collect the deltas - new heads announced, changed heads
    /// diffed, vanished heads removed. If anything changed at all the serial
    /// advances, the snapshot is replaced, and the batch ends with a single
    /// done marker carrying the new serial; pending transactions against the
    /// old serial are thereby stale and will be cancelled. An unchanged
    /// snapshot produces no events and leaves everything as it was.
    pub fn notify_changes(&mut self, new_state: Vec<HeadConf>) -> (r: Vec<HeadDelta>)
        requires
            old(self).wf(),
            heads_unique(new_state@.map_values(|h: HeadConf| h@)),
            old(self).serial < u32::MAX,
        ensures
            final(self).wf(),
            final(self).current_config@ == old(self).current_config@,
            ({
                let olds = old(self).heads();
                let news = new_state@.map_values(|h: HeadConf| h@);
                let changed = spec_any_changed(olds, news);
                &&& changed ==> {
                    &&& final(self).serial == old(self).serial + 1
                    &&& final(self).heads() == news
                    &&& r@ == spec_new_deltas(olds, news) + spec_removed_deltas(olds, news)
                        + seq![HeadDelta::Done { serial: final(self).serial }]
                }
                &&& !changed ==> {
                    &&& *final(self) == *old(self)
                    &&& r@ == spec_new_deltas(olds, news) + spec_removed_deltas(olds, news)
                }
            }),
    {
        let ghost olds = self.heads();
        let ghost news = new_state@.map_values(|h: HeadConf| h@);
        let mut out: Vec<HeadDelta> = Vec::new();
        let mut changed = false;
        let mut i: usize = 0;
        while i < new_state.len()
            invariant
                i <= new_state@.len(),
                olds == self.heads(),
                news == new_state@.map_values(|h: HeadConf| h@),
                *self == *old(self),
                out@ == spec_new_deltas_prefix(olds, news, i as int),
                changed == exists|j: int| 0 <= j < i && spec_changed_for(olds, #[trigger] news[j]),
            decreases new_state@.len() - i,
        {
            proof {
                assert(news[i as int] == new_state@[i as int]@);
            }
            let h = &new_state[i];
            let mut ds: Vec<HeadDelta>;
            let ch: bool;
            match self.find_head_index_old(h.id) {
                Some(oi) => {
                    proof {
                        lemma_find_head_at(olds, h.id, oi as int);
                    }
                    let pair = diff_head(h.id, &self.current_state[oi].config, &h.config);
                    ds = pair.0;
                    ch = pair.1;
                    proof {
                        assert(olds[oi as int] == self.current_state@[oi as int]@);
                        assert(ds@ == spec_delta_for(olds, news[i as int]));
                        assert(ch == spec_changed_for(olds, news[i as int]));
                    }
                },
                None => {
                    proof {
                        lemma_find_head_none(olds, h.id);
                    }
                    ds = Vec::new();
                    ds.push(HeadDelta::NewHead { id: h.id });
                    ch = true;
                    proof {
                        assert(ds@ =~= spec_delta_for(olds, news[i as int]));
                    }
                },
            }
            out.append(&mut ds);
            if ch {
                changed = true;
            }
            i += 1;
        }
        let mut k: usize = 0;
        while k < self.current_state.len()
            invariant
                k <= self.current_state@.len(),
                olds == self.heads(),
                news == new_state@.map_values(|h: HeadConf| h@),
                *self == *old(self),
                out@ == spec_new_deltas(olds, news) + spec_removed_prefix(olds, news, k as int),
                changed == (exists|j: int|
                    0 <= j < news.len() && spec_changed_for(olds, #[trigger] news[j]) || exists|
                        j: int,
                    |
                        0 <= j < k && spec_find_head(news, (#[trigger] olds[j]).id) is None),
            decreases self.current_state@.len() - k,
        {
            proof {
                assert(olds[k as int] == self.current_state@[k as int]@);
            }
            let id = self.current_state[k].id;
            match find_in_heads(&new_state, id) {
                Some(ni) => {
                    proof {
                        assert(news[ni as int] == new_state@[ni as int]@);
                        lemma_find_head_at(news, id, ni as int);
                    }
                },
                None => {
                    proof {
                        lemma_find_head_none(news, id);
                    }
                    out.push(HeadDelta::RemovedHead { id });
                    changed = true;
                },
            }
            k += 1;
        }
        if changed {
            self.serial = self.serial + 1;
            self.current_state = new_state;
            let done = HeadDelta::Done { serial: self.serial };
            out.push(done);
            proof {
                assert(self.heads() =~= news);
            }
        }
        out
    }

    /// `find_head_index`, reading the snapshot without claiming anything of
    /// the rest of the state.
    fn find_head_index_old(&self, id: OutputId) -> (r: Option<usize>)
        ensures
            match r {
                Some(i) => i < self.heads().len() && self.heads()[i as int].id == id && (forall|
                    j: int,
                |
                    0 <= j < i ==> (#[trigger] self.heads()[j]).id != id),
                None => forall|j: int|
                    0 <= j < self.heads().len() ==> (#[trigger] self.heads()[j]).id != id,
            },
    {
        let mut i: usize = 0;
        while i < self.current_state.len()
            invariant
                i <= self.current_state@.len(),
                self.heads().len() == self.current_state@.len(),
                forall|j: int| 0 <= j < i ==> (#[trigger] self.heads()[j]).id != id,
            decreases self.current_state@.len() - i,
        {
            proof {
                assert(self.heads()[i as int] == self.current_state@[i as int]@);
            }
            if self.current_state[i].id.0 == id.0 {
                return Some(i);
            }
            i += 1;
        }
        None
    }
}

/// Position of the head with the given identifier in a head list.
fn find_in_heads(heads: &Vec<HeadConf>, id: OutputId) -> (r: Option<usize>)
    ensures
        ({
            let hs = heads@.map_values(|h: HeadConf| h@);
            match r {
                Some(i) => i < hs.len() && hs[i as int].id == id && (forall|j: int|
                    0 <= j < i ==> (#[trigger] hs[j]).id != id),
                None => forall|j: int| 0 <= j < hs.len() ==> (#[trigger] hs[j]).id != id,
            }
        }),
{
    let ghost hs = heads@.map_values(|h: HeadConf| h@);
    let mut i: usize = 0;
    while i < heads.len()
        invariant
            i <= heads@.len(),
            hs == heads@.map_values(|h: HeadConf| h@),
            hs.len() == heads@.len(),
            forall|j: int| 0 <= j < i ==> (#[trigger] hs[j]).id != id,
        decreases heads@.len() - i,
    {
        proof {
            assert(hs[i as int] == heads@[i as int]@);
        }
        if heads[i].id.0 == id.0 {
            return Some(i);
        }
        i += 1;
    }
    None
}

/// Element-wise equality of two mode lists.
fn modes_eq(a: &Vec<Mode>, b: &Vec<Mode>) -> (r: bool)
    ensures
        r == (a@ == b@),
{
    if a.len() != b.len() {
        return false;
    }
    let mut i: usize = 0;
    while i < a.len()
        invariant
            i <= a@.len(),
            a@.len() == b@.len(),
            forall|j: int| 0 <= j < i ==> a@[j] == b@[j],
        decreases a@.len() - i,
    {
        let x = a[i];
        let y = b[i];
        if !(x.width == y.width && x.height == y.height && x.refresh_rate == y.refresh_rate
            && x.is_preferred == y.is_preferred) {
            return false;
        }
        i += 1;
    }
    proof {
        assert(a@ =~= b@);
    }
    true
}

} // verus!
