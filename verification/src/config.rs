//! Output configuration transactions: an external configuration client
//! builds an all-or-nothing transaction against the published head state,
//! keyed to the publication serial. A transaction against a stale serial is
//! cancelled outright; one that would disable every output fails on test and
//! on apply; only a successful apply replaces the stored configuration, and
//! a failed one changes nothing.

use vstd::prelude::*;

use crate::outputs::{name_eq_ci, Mode, Output, OutputId, OutputModel, Outputs, Transform};

verus! {

/// One head together with its configuration.
pub struct HeadConf {
    pub id: OutputId,
    pub config: Output,
}

/// The mathematical value of a `HeadConf`.
#[verifier::ext_equal]
pub struct HeadConfModel {
    pub id: OutputId,
    pub config: OutputModel,
}

impl View for HeadConf {
    type V = HeadConfModel;

    open spec fn view(&self) -> HeadConfModel {
        HeadConfModel { id: self.id, config: self.config@ }
    }
}

/// The state the output-management bridge publishes to configuration
/// clients: a serial, the last published per-head snapshot, and the
/// compositor's stored configuration, looked up by output name.
pub struct OutputManagementState {
    pub serial: u32,
    pub current_state: Vec<HeadConf>,
    pub current_config: Outputs,
}

impl OutputManagementState {
    pub open spec fn heads(&self) -> Seq<HeadConfModel> {
        self.current_state@.map_values(|h: HeadConf| h@)
    }

    /// Published heads carry distinct identifiers.
    pub open spec fn wf(&self) -> bool {
        forall|i: int, j: int|
            0 <= i < j < self.heads().len() ==> #[trigger] self.heads()[i].id != #[trigger] self.heads()[j].id
    }

    pub open spec fn spec_has_head(&self, id: OutputId) -> bool {
        exists|i: int| 0 <= i < self.heads().len() && self.heads()[i].id == id
    }

    pub open spec fn spec_head_index(&self, id: OutputId) -> int {
        choose|i: int| 0 <= i < self.heads().len() && self.heads()[i].id == id
    }

    pub fn new() -> (r: OutputManagementState)
        ensures
            r.serial == 0,
            r.heads() =~= Seq::<HeadConfModel>::empty(),
            r.current_config@ =~= Seq::<OutputModel>::empty(),
            r.wf(),
    {
        OutputManagementState {
            serial: 0,
            current_state: Vec::new(),
            current_config: Outputs::new(),
        }
    }

    /// Replace the stored configuration, as the compositor does after it has
    /// applied one.
    pub fn on_config_changed(&mut self, new_config: Outputs)
        ensures
            final(self).serial == old(self).serial,
            final(self).heads() == old(self).heads(),
            final(self).current_config@ == new_config@,
    {
        self.current_config = new_config;
    }

    pub fn find_head_index(&self, id: OutputId) -> (r: Option<usize>)
        ensures
            match r {
                Some(i) => i < self.heads().len() && self.heads()[i as int].id == id,
                None => !self.spec_has_head(id),
            },
    {
        let mut i: usize = 0;
        while i < self.current_state.len()
            invariant
                i <= self.current_state@.len(),
                self.heads().len() == self.current_state@.len(),
                forall|j: int| 0 <= j < i ==> self.heads()[j].id != id,
            decreases self.current_state@.len() - i,
        {
            proof {
                assert(self.heads()[i as int] == self.current_state@[i as int]@);
            }
            if self.current_state[i].id.0 == id.0 {
                return Some(i);
            }
            i += 1;
        }
        None
    }
}

/// A configuration in the making: the heads the client has configured so
/// far, against the serial the client created it with. Once applied or
/// tested it is used up.
pub struct ConfigTransaction {
    pub serial: u32,
    pub entries: Vec<HeadConf>,
    pub used: bool,
}

impl ConfigTransaction {
    pub open spec fn entry_models(&self) -> Seq<HeadConfModel> {
        self.entries@.map_values(|h: HeadConf| h@)
    }

    /// No head is configured twice within one transaction.
    pub open spec fn wf(&self) -> bool {
        forall|i: int, j: int|
            0 <= i < j < self.entry_models().len() ==> #[trigger] self.entry_models()[i].id
                != #[trigger] self.entry_models()[j].id
    }

    pub open spec fn spec_has_entry(&self, id: OutputId) -> bool {
        exists|i: int| 0 <= i < self.entry_models().len() && self.entry_models()[i].id == id
    }

    pub open spec fn spec_entry_index(&self, id: OutputId) -> int {
        choose|i: int| 0 <= i < self.entry_models().len() && self.entry_models()[i].id == id
    }

    fn find_entry_index(&self, id: OutputId) -> (r: Option<usize>)
        ensures
            match r {
                Some(i) => i < self.entry_models().len() && self.entry_models()[i as int].id == id,
                None => !self.spec_has_entry(id),
            },
    {
        let mut i: usize = 0;
        while i < self.entries.len()
            invariant
                i <= self.entries@.len(),
                self.entry_models().len() == self.entries@.len(),
                forall|j: int| 0 <= j < i ==> self.entry_models()[j].id != id,
            decreases self.entries@.len() - i,
        {
            proof {
                assert(self.entry_models()[i as int] == self.entries@[i as int]@);
            }
            if self.entries[i].id.0 == id.0 {
                return Some(i);
            }
            i += 1;
        }
        None
    }
}

/// Why a configuration request was rejected. A stale serial cancels the
/// request without any effect; the others are protocol errors that terminate
/// the offending client.
#[derive(Clone, Copy, Debug, PartialEq, Eq, Structural)]
pub enum ConfigError {
    /// The transaction's serial no longer matches the published state.
    Stale,
    /// The transaction was already applied or tested.
    AlreadyUsed,
    /// The same head was enabled or disabled twice in one transaction.
    AlreadyConfiguredHead,
    /// The head is not part of the published state.
    UnknownHead,
    /// The request is for a head that was not enabled in this transaction.
    UnconfiguredHead,
    /// No supported mode matches the request.
    InvalidMode,
    /// A scale factor of zero or below is rejected.
    InvalidScale,
}

/// Create a transaction against the published serial. A client that quotes
/// an outdated serial learns at once that the transaction is cancelled; the
/// cancelled transaction is still tracked, and every later request on it is
/// rejected as stale.
pub fn create_configuration(mgr: &OutputManagementState, serial: u32) -> (r: (
    ConfigTransaction,
    bool,
))
    ensures
        r.0.serial == serial,
        r.0.entry_models() =~= Seq::<HeadConfModel>::empty(),
        !r.0.used,
        r.0.wf(),
        r.1 == (serial != mgr.serial),
{
    let tx = ConfigTransaction { serial, entries: Vec::new(), used: false };
    let cancelled = serial != mgr.serial;
    (tx, cancelled)
}

/// The starting configuration of a head entry: the stored configuration
/// under the head's name if there is one, else a bare record of that name,
/// with the requested enabled/disabled flag.
pub open spec fn base_config_is(
    cfg: Seq<OutputModel>,
    name: Seq<char>,
    off: bool,
    result: OutputModel,
) -> bool {
    if exists|i: int| 0 <= i < cfg.len() && name_eq_ci(#[trigger] cfg[i].name, name) {
        exists|i: int|
            0 <= i < cfg.len() && name_eq_ci(#[trigger] cfg[i].name, name) && (forall|j: int|
                0 <= j < i ==> !name_eq_ci(#[trigger] cfg[j].name, name)) && result
                == (OutputModel { off, ..cfg[i] })
    } else {
        result == (OutputModel { off, ..crate::outputs::Output::bare_model(name) })
    }
}

/// Add a head to the transaction, enabled (`off == false`) or disabled
/// (`off == true`). Exactly one configuration per head per transaction: a
/// second request for the same head is a protocol error.
pub fn configure_head(
    tx: &mut ConfigTransaction,
    mgr: &OutputManagementState,
    id: OutputId,
    off: bool,
) -> (r: Result<(), ConfigError>)
    requires
        old(tx).wf(),
        mgr.wf(),
    ensures
        final(tx).wf(),
        final(tx).serial == old(tx).serial,
        final(tx).used == old(tx).used,
        match r {
            Ok(_) => {
                &&& old(tx).serial == mgr.serial
                &&& !old(tx).used
                &&& mgr.spec_has_head(id)
                &&& !old(tx).spec_has_entry(id)
                &&& final(tx).entry_models().len() == old(tx).entry_models().len() + 1
                &&& final(tx).entry_models().take(old(tx).entry_models().len() as int) == old(
                    tx,
                ).entry_models()
                &&& final(tx).entry_models().last().id == id
                &&& base_config_is(
                    mgr.current_config@,
                    mgr.heads()[mgr.spec_head_index(id)].config.name,
                    off,
                    final(tx).entry_models().last().config,
                )
            },
            Err(e) => {
                &&& *final(tx) == *old(tx)
                &&& match e {
                    ConfigError::Stale => old(tx).serial != mgr.serial,
                    ConfigError::AlreadyUsed => old(tx).serial == mgr.serial && old(tx).used,
                    ConfigError::UnknownHead => old(tx).serial == mgr.serial && !old(tx).used
                        && !mgr.spec_has_head(id),
                    ConfigError::AlreadyConfiguredHead => old(tx).serial == mgr.serial && !old(
                        tx,
                    ).used && mgr.spec_has_head(id) && old(tx).spec_has_entry(id),
                    _ => false,
                }
            },
        },
{
    if tx.serial != mgr.serial {
        return Err(ConfigError::Stale);
    }
    if tx.used {
        return Err(ConfigError::AlreadyUsed);
    }
    let head_index = match mgr.find_head_index(id) {
        Some(i) => i,
        None => {
            return Err(ConfigError::UnknownHead);
        },
    };
    if tx.find_entry_index(id).is_some() {
        return Err(ConfigError::AlreadyConfiguredHead);
    }
    let name = &mgr.current_state[head_index].config.name;
    proof {
        assert(mgr.heads()[head_index as int] == mgr.current_state@[head_index as int]@);
        assert(mgr.spec_has_head(id));
        let w = mgr.spec_head_index(id);
        assert(0 <= w < mgr.heads().len() && mgr.heads()[w].id == id);
        assert(w == head_index as int);
    }
    let mut config = match mgr.current_config.find(name.as_str()) {
        Some(o) => o.duplicate(),
        None => Output::bare(name.clone()),
    };
    config.off = off;
    let entry = HeadConf { id, config };
    let ghost old_models = tx.entry_models();
    tx.entries.push(entry);
    proof {
        assert(tx.entry_models() =~= old_models + seq![entry@]);
        assert(tx.entry_models().take(old_models.len() as int) =~= old_models);
        assert forall|i: int, j: int| 0 <= i < j < tx.entry_models().len() implies #[trigger] tx
            .entry_models()[i].id != #[trigger] tx.entry_models()[j].id by {
            if j == tx.entry_models().len() - 1 {
                assert(tx.entry_models()[i] == old_models[i]);
                assert(!old(tx).spec_has_entry(id));
            } else {
                assert(tx.entry_models()[i] == old_models[i]);
                assert(tx.entry_models()[j] == old_models[j]);
            }
        }
    }
    Ok(())
}

/// Updating an entry in place, keeping its identifier, keeps identifiers
/// unique.
proof fn lemma_update_keeps_wf(s: Seq<HeadConfModel>, k: int, n: HeadConfModel)
    requires
        forall|i: int, j: int| 0 <= i < j < s.len() ==> #[trigger] s[i].id != #[trigger] s[j].id,
        0 <= k < s.len(),
        n.id == s[k].id,
    ensures
        forall|i: int, j: int|
            0 <= i < j < s.update(k, n).len() ==> #[trigger] s.update(k, n)[i].id != #[trigger] s.update(
                k,
                n,
            )[j].id,
{
}

/// The shared guards of every per-head request: the transaction's serial
/// must still be current, the transaction must not be used up, and the head
/// must have been configured in it.
fn head_request_guard(tx: &ConfigTransaction, mgr: &OutputManagementState, id: OutputId) -> (r:
    Result<usize, ConfigError>)
    ensures
        match r {
            Ok(k) => {
                &&& tx.serial == mgr.serial
                &&& !tx.used
                &&& k < tx.entry_models().len()
                &&& tx.entry_models()[k as int].id == id
            },
            Err(e) => match e {
                ConfigError::Stale => tx.serial != mgr.serial,
                ConfigError::AlreadyUsed => tx.serial == mgr.serial && tx.used,
                ConfigError::UnconfiguredHead => tx.serial == mgr.serial && !tx.used
                    && !tx.spec_has_entry(id),
                _ => false,
            },
        },
{
    if tx.serial != mgr.serial {
        return Err(ConfigError::Stale);
    }
    if tx.used {
        return Err(ConfigError::AlreadyUsed);
    }
    match tx.find_entry_index(id) {
        Some(k) => Ok(k),
        None => Err(ConfigError::UnconfiguredHead),
    }
}

/// Replace the configured output of entry `k` by `config`, whose identifier
/// is unchanged.
fn replace_entry(tx: &mut ConfigTransaction, k: usize, config: Output, Ghost(m): Ghost<
    HeadConfModel,
>)
    requires
        old(tx).wf(),
        k < old(tx).entry_models().len(),
        m.id == old(tx).entry_models()[k as int].id,
        m.config == config@,
    ensures
        final(tx).wf(),
        final(tx).serial == old(tx).serial,
        final(tx).used == old(tx).used,
        final(tx).entry_models() == old(tx).entry_models().update(k as int, m),
{
    let id = entry_id_at(tx, k);
    set_entry_at(tx, k, HeadConf { id, config });
    proof {
        assert(tx.entry_models() =~= old(tx).entry_models().update(k as int, m));
        lemma_update_keeps_wf(old(tx).entry_models(), k as int, m);
    }
}

fn entry_id_at(tx: &ConfigTransaction, k: usize) -> (r: OutputId)
    requires
        k < tx.entries@.len(),
    ensures
        r == tx.entries@[k as int].id,
{
    tx.entries[k].id
}

fn set_entry_at(tx: &mut ConfigTransaction, k: usize, e: HeadConf)
    requires
        k < old(tx).entries@.len(),
    ensures
        final(tx).entries@ == old(tx).entries@.update(k as int, e),
        final(tx).serial == old(tx).serial,
        final(tx).used == old(tx).used,
{
    let _ = tx.entries.remove(k);
    tx.entries.insert(k, e);
    proof {
        assert(tx.entries@ =~= old(tx).entries@.update(k as int, e));
    }
}

/// The entry model after one field of its configuration changed.
pub open spec fn with_mode(m: HeadConfModel, mode: Option<Mode>) -> HeadConfModel {
    HeadConfModel { id: m.id, config: OutputModel { mode, ..m.config } }
}

pub open spec fn with_transform(m: HeadConfModel, transform: Transform) -> HeadConfModel {
    HeadConfModel { id: m.id, config: OutputModel { transform, ..m.config } }
}

pub open spec fn with_scale(m: HeadConfModel, scale_millis: Option<u32>) -> HeadConfModel {
    HeadConfModel { id: m.id, config: OutputModel { scale_millis, ..m.config } }
}

pub open spec fn with_vrr(m: HeadConfModel, variable_refresh_rate: bool) -> HeadConfModel {
    HeadConfModel { id: m.id, config: OutputModel { variable_refresh_rate, ..m.config } }
}

/// Request the mode at `mode_index` of the head's published mode list.
pub fn set_mode(
    tx: &mut ConfigTransaction,
    mgr: &OutputManagementState,
    id: OutputId,
    mode_index: usize,
) -> (r: Result<(), ConfigError>)
    requires
        old(tx).wf(),
        mgr.wf(),
    ensures
        final(tx).wf(),
        final(tx).serial == old(tx).serial,
        final(tx).used == old(tx).used,
        match r {
            Ok(_) => {
                &&& mgr.spec_has_head(id)
                &&& mode_index < mgr.heads()[mgr.spec_head_index(id)].config.modes.len()
                &&& old(tx).spec_has_entry(id)
                &&& final(tx).entry_models() == old(tx).entry_models().update(
                    old(tx).spec_entry_index(id),
                    with_mode(
                        old(tx).entry_models()[old(tx).spec_entry_index(id)],
                        Some(mgr.heads()[mgr.spec_head_index(id)].config.modes[mode_index as int]),
                    ),
                )
            },
            Err(e) => {
                &&& *final(tx) == *old(tx)
                &&& match e {
                    ConfigError::Stale => old(tx).serial != mgr.serial,
                    ConfigError::AlreadyUsed => old(tx).serial == mgr.serial && old(tx).used,
                    ConfigError::UnconfiguredHead => old(tx).serial == mgr.serial && !old(tx).used
                        && !old(tx).spec_has_entry(id),
                    ConfigError::UnknownHead => !mgr.spec_has_head(id),
                    ConfigError::InvalidMode => mgr.spec_has_head(id) && mode_index >= mgr.heads()[
                        mgr.spec_head_index(id)
                    ].config.modes.len(),
                    _ => false,
                }
            },
        },
{
    let k = match head_request_guard(tx, mgr, id) {
        Ok(k) => k,
        Err(e) => {
            return Err(e);
        },
    };
    let hi = match mgr.find_head_index(id) {
        Some(hi) => hi,
        None => {
            return Err(ConfigError::UnknownHead);
        },
    };
    proof {
        assert(mgr.heads()[hi as int] == mgr.current_state@[hi as int]@);
        let w = mgr.spec_head_index(id);
        assert(0 <= w < mgr.heads().len() && mgr.heads()[w].id == id);
        assert(w == hi as int);
    }
    if mode_index >= mgr.current_state[hi].config.modes.len() {
        return Err(ConfigError::InvalidMode);
    }
    let mode = mgr.current_state[hi].config.modes[mode_index];
    proof {
        let w = old(tx).spec_entry_index(id);
        assert(old(tx).entry_models()[k as int].id == id);
        assert(0 <= w < old(tx).entry_models().len() && old(tx).entry_models()[w].id == id);
        assert(w == k as int);
    }
    let mut config = tx.entries[k].config.duplicate();
    config.mode = Some(mode);
    let ghost m = with_mode(tx.entry_models()[k as int], Some(mode));
    proof {
        assert(tx.entry_models()[k as int] == tx.entries@[k as int]@);
        assert(m.config =~= config@);
    }
    replace_entry(tx, k, config, Ghost(m));
    Ok(())
}

/// Request a mode by size and refresh rate: the first published mode with
/// that size, and with that refresh rate unless the requested rate is zero.
pub fn set_custom_mode(
    tx: &mut ConfigTransaction,
    mgr: &OutputManagementState,
    id: OutputId,
    width: u16,
    height: u16,
    refresh: u32,
) -> (r: Result<(), ConfigError>)
    requires
        old(tx).wf(),
        mgr.wf(),
    ensures
        final(tx).wf(),
        final(tx).serial == old(tx).serial,
        final(tx).used == old(tx).used,
        match r {
            Ok(_) => {
                &&& mgr.spec_has_head(id)
                &&& old(tx).spec_has_entry(id)
                &&& exists|i: int|
                    #![trigger mgr.heads()[mgr.spec_head_index(id)].config.modes[i]]
                    {
                        let modes = mgr.heads()[mgr.spec_head_index(id)].config.modes;
                        &&& 0 <= i < modes.len()
                        &&& mode_matches(modes[i], width, height, refresh)
                        &&& (forall|j: int|
                            0 <= j < i ==> !mode_matches(#[trigger] modes[j], width, height, refresh))
                        &&& final(tx).entry_models() == old(tx).entry_models().update(
                            old(tx).spec_entry_index(id),
                            with_mode(
                                old(tx).entry_models()[old(tx).spec_entry_index(id)],
                                Some(modes[i]),
                            ),
                        )
                    }
            },
            Err(e) => {
                &&& *final(tx) == *old(tx)
                &&& match e {
                    ConfigError::Stale => old(tx).serial != mgr.serial,
                    ConfigError::AlreadyUsed => old(tx).serial == mgr.serial && old(tx).used,
                    ConfigError::UnconfiguredHead => old(tx).serial == mgr.serial && !old(tx).used
                        && !old(tx).spec_has_entry(id),
                    ConfigError::UnknownHead => !mgr.spec_has_head(id),
                    ConfigError::InvalidMode => mgr.spec_has_head(id) && (forall|j: int|
                        0 <= j < mgr.heads()[mgr.spec_head_index(id)].config.modes.len()
                            ==> !mode_matches(
                            #[trigger] mgr.heads()[mgr.spec_head_index(id)].config.modes[j],
                            width,
                            height,
                            refresh,
                        )),
                    _ => false,
                }
            },
        },
{
    let k = match head_request_guard(tx, mgr, id) {
        Ok(k) => k,
        Err(e) => {
            return Err(e);
        },
    };
    let hi = match mgr.find_head_index(id) {
        Some(hi) => hi,
        None => {
            return Err(ConfigError::UnknownHead);
        },
    };
    proof {
        assert(mgr.heads()[hi as int] == mgr.current_state@[hi as int]@);
        let w = mgr.spec_head_index(id);
        assert(0 <= w < mgr.heads().len() && mgr.heads()[w].id == id);
        assert(w == hi as int);
    }
    let mi = match find_matching_mode(&mgr.current_state[hi].config.modes, width, height, refresh) {
        Some(mi) => mi,
        None => {
            return Err(ConfigError::InvalidMode);
        },
    };
    let mode = mgr.current_state[hi].config.modes[mi];
    proof {
        let w = old(tx).spec_entry_index(id);
        assert(old(tx).entry_models()[k as int].id == id);
        assert(0 <= w < old(tx).entry_models().len() && old(tx).entry_models()[w].id == id);
        assert(w == k as int);
    }
    let mut config = tx.entries[k].config.duplicate();
    config.mode = Some(mode);
    let ghost m = with_mode(tx.entry_models()[k as int], Some(mode));
    proof {
        assert(tx.entry_models()[k as int] == tx.entries@[k as int]@);
        assert(m.config =~= config@);
    }
    replace_entry(tx, k, config, Ghost(m));
    proof {
        let modes = mgr.heads()[mgr.spec_head_index(id)].config.modes;
        assert(modes == mgr.current_state@[hi as int].config.modes@);
        assert(mode_matches(modes[mi as int], width, height, refresh));
        assert(forall|j: int|
            0 <= j < mi ==> !mode_matches(#[trigger] modes[j], width, height, refresh));
        assert(final(tx).entry_models() == old(tx).entry_models().update(
            old(tx).spec_entry_index(id),
            with_mode(
                old(tx).entry_models()[old(tx).spec_entry_index(id)],
                Some(modes[mi as int]),
            ),
        ));
    }
    Ok(())
}

/// Whether a published mode satisfies a size/refresh request; a requested
/// refresh rate of zero accepts any rate.
pub open spec fn mode_matches(m: Mode, width: u16, height: u16, refresh: u32) -> bool {
    m.width == width && m.height == height && (refresh == 0 || m.refresh_rate == refresh)
}

/// Position of the first published mode that satisfies the request.
fn find_matching_mode(modes: &Vec<Mode>, width: u16, height: u16, refresh: u32) -> (r: Option<
    usize,
>)
    ensures
        match r {
            Some(i) => i < modes@.len() && mode_matches(modes@[i as int], width, height, refresh)
                && (forall|j: int|
                0 <= j < i ==> !mode_matches(#[trigger] modes@[j], width, height, refresh)),
            None => forall|j: int|
                0 <= j < modes@.len() ==> !mode_matches(
                    #[trigger] modes@[j],
                    width,
                    height,
                    refresh,
                ),
        },
{
    let mut i: usize = 0;
    while i < modes.len()
        invariant
            i <= modes@.len(),
            forall|j: int| 0 <= j < i ==> !mode_matches(#[trigger] modes@[j], width, height, refresh),
        decreases modes@.len() - i,
    {
        let m = modes[i];
        if m.width == width && m.height == height && (refresh == 0 || m.refresh_rate == refresh) {
            return Some(i);
        }
        i += 1;
    }
    None
}

/// Set the transform of a configured head.
pub fn set_transform(
    tx: &mut ConfigTransaction,
    mgr: &OutputManagementState,
    id: OutputId,
    transform: Transform,
) -> (r: Result<(), ConfigError>)
    requires
        old(tx).wf(),
    ensures
        final(tx).wf(),
        final(tx).serial == old(tx).serial,
        final(tx).used == old(tx).used,
        match r {
            Ok(_) => old(tx).spec_has_entry(id) && final(tx).entry_models() == old(
                tx,
            ).entry_models().update(
                old(tx).spec_entry_index(id),
                with_transform(old(tx).entry_models()[old(tx).spec_entry_index(id)], transform),
            ),
            Err(e) => {
                &&& *final(tx) == *old(tx)
                &&& match e {
                    ConfigError::Stale => old(tx).serial != mgr.serial,
                    ConfigError::AlreadyUsed => old(tx).serial == mgr.serial && old(tx).used,
                    ConfigError::UnconfiguredHead => old(tx).serial == mgr.serial && !old(tx).used
                        && !old(tx).spec_has_entry(id),
                    _ => false,
                }
            },
        },
{
    let k = match head_request_guard(tx, mgr, id) {
        Ok(k) => k,
        Err(e) => {
            return Err(e);
        },
    };
    proof {
        let w = old(tx).spec_entry_index(id);
        assert(old(tx).entry_models()[k as int].id == id);
        assert(0 <= w < old(tx).entry_models().len() && old(tx).entry_models()[w].id == id);
        assert(w == k as int);
    }
    let mut config = tx.entries[k].config.duplicate();
    config.transform = transform;
    let ghost m = with_transform(tx.entry_models()[k as int], transform);
    proof {
        assert(tx.entry_models()[k as int] == tx.entries@[k as int]@);
        assert(m.config =~= config@);
    }
    replace_entry(tx, k, config, Ghost(m));
    Ok(())
}

/// Set the fractional scale of a configured head, in thousandths. A scale of
/// zero or below is a protocol error.
pub fn set_scale(
    tx: &mut ConfigTransaction,
    mgr: &OutputManagementState,
    id: OutputId,
    scale_millis: u32,
) -> (r: Result<(), ConfigError>)
    requires
        old(tx).wf(),
    ensures
        final(tx).wf(),
        final(tx).serial == old(tx).serial,
        final(tx).used == old(tx).used,
        match r {
            Ok(_) => scale_millis > 0 && old(tx).spec_has_entry(id) && final(tx).entry_models()
                == old(tx).entry_models().update(
                old(tx).spec_entry_index(id),
                with_scale(
                    old(tx).entry_models()[old(tx).spec_entry_index(id)],
                    Some(scale_millis),
                ),
            ),
            Err(e) => {
                &&& *final(tx) == *old(tx)
                &&& match e {
                    ConfigError::Stale => old(tx).serial != mgr.serial,
                    ConfigError::AlreadyUsed => old(tx).serial == mgr.serial && old(tx).used,
                    ConfigError::UnconfiguredHead => old(tx).serial == mgr.serial && !old(tx).used
                        && !old(tx).spec_has_entry(id),
                    ConfigError::InvalidScale => old(tx).serial == mgr.serial && !old(tx).used
                        && old(tx).spec_has_entry(id) && scale_millis == 0,
                    _ => false,
                }
            },
        },
{
    let k = match head_request_guard(tx, mgr, id) {
        Ok(k) => k,
        Err(e) => {
            return Err(e);
        },
    };
    proof {
        let w = old(tx).spec_entry_index(id);
        assert(old(tx).entry_models()[k as int].id == id);
        assert(0 <= w < old(tx).entry_models().len() && old(tx).entry_models()[w].id == id);
        assert(w == k as int);
    }
    if scale_millis == 0 {
        return Err(ConfigError::InvalidScale);
    }
    let mut config = tx.entries[k].config.duplicate();
    config.scale_millis = Some(scale_millis);
    let ghost m = with_scale(tx.entry_models()[k as int], Some(scale_millis));
    proof {
        assert(tx.entry_models()[k as int] == tx.entries@[k as int]@);
        assert(m.config =~= config@);
    }
    replace_entry(tx, k, config, Ghost(m));
    Ok(())
}

/// Enable or disable adaptive sync on a configured head.
pub fn set_adaptive_sync(
    tx: &mut ConfigTransaction,
    mgr: &OutputManagementState,
    id: OutputId,
    enabled: bool,
) -> (r: Result<(), ConfigError>)
    requires
        old(tx).wf(),
    ensures
        final(tx).wf(),
        final(tx).serial == old(tx).serial,
        final(tx).used == old(tx).used,
        match r {
            Ok(_) => old(tx).spec_has_entry(id) && final(tx).entry_models() == old(
                tx,
            ).entry_models().update(
                old(tx).spec_entry_index(id),
                with_vrr(old(tx).entry_models()[old(tx).spec_entry_index(id)], enabled),
            ),
            Err(e) => {
                &&& *final(tx) == *old(tx)
                &&& match e {
                    ConfigError::Stale => old(tx).serial != mgr.serial,
                    ConfigError::AlreadyUsed => old(tx).serial == mgr.serial && old(tx).used,
                    ConfigError::UnconfiguredHead => old(tx).serial == mgr.serial && !old(tx).used
                        && !old(tx).spec_has_entry(id),
                    _ => false,
                }
            },
        },
{
    let k = match head_request_guard(tx, mgr, id) {
        Ok(k) => k,
        Err(e) => {
            return Err(e);
        },
    };
    proof {
        let w = old(tx).spec_entry_index(id);
        assert(old(tx).entry_models()[k as int].id == id);
        assert(0 <= w < old(tx).entry_models().len() && old(tx).entry_models()[w].id == id);
        assert(w == k as int);
    }
    let mut config = tx.entries[k].config.duplicate();
    config.variable_refresh_rate = enabled;
    let ghost m = with_vrr(tx.entry_models()[k as int], enabled);
    proof {
        assert(tx.entry_models()[k as int] == tx.entries@[k as int]@);
        assert(m.config =~= config@);
    }
    replace_entry(tx, k, config, Ghost(m));
    Ok(())
}

/// Every configured head is disabled.
pub open spec fn all_disabled(s: Seq<HeadConfModel>) -> bool {
    forall|i: int| 0 <= i < s.len() ==> (#[trigger] s[i]).config.off
}

/// How a test or apply of a transaction ended.
#[derive(Clone, Copy, Debug, PartialEq, Eq, Structural)]
pub enum ApplyResult {
    /// The transaction's serial was stale: rejected outright, nothing
    /// mutated.
    Cancelled,
    /// The transaction was already applied or tested: a protocol error.
    AlreadyUsed,
    /// The transaction would disable every output: rejected, nothing
    /// mutated.
    Failed,
    /// The configuration was accepted.
    Succeeded,
}

/// Apply a transaction: all-or-nothing. A stale serial cancels it without
/// any effect; a transaction that disables every output fails and the
/// published state stays exactly as it was; otherwise the stored
/// configuration is replaced by the transaction's entries.
pub fn apply(mgr: &mut OutputManagementState, tx: &mut ConfigTransaction) -> (r: ApplyResult)
    requires
        old(mgr).wf(),
        old(tx).wf(),
    ensures
        final(mgr).wf(),
        final(tx).wf(),
        match r {
            ApplyResult::Cancelled => old(tx).serial != old(mgr).serial && *final(mgr) == *old(mgr)
                && *final(tx) == *old(tx),
            ApplyResult::AlreadyUsed => old(tx).serial == old(mgr).serial && old(tx).used
                && *final(mgr) == *old(mgr) && *final(tx) == *old(tx),
            ApplyResult::Failed => {
                &&& old(tx).serial == old(mgr).serial
                &&& !old(tx).used
                &&& all_disabled(old(tx).entry_models())
                &&& *final(mgr) == *old(mgr)
                &&& final(tx).used
                &&& final(tx).serial == old(tx).serial
                &&& final(tx).entry_models() == old(tx).entry_models()
            },
            ApplyResult::Succeeded => {
                &&& old(tx).serial == old(mgr).serial
                &&& !old(tx).used
                &&& !all_disabled(old(tx).entry_models())
                &&& final(tx).used
                &&& final(tx).serial == old(tx).serial
                &&& final(tx).entry_models() == old(tx).entry_models()
                &&& final(mgr).serial == old(mgr).serial
                &&& final(mgr).heads() == old(mgr).heads()
                &&& final(mgr).current_config@ == old(tx).entry_models().map_values(
                    |h: HeadConfModel| h.config,
                )
            },
        },
{
    let decision = test_transaction(mgr, tx);
    if let ApplyResult::Succeeded = decision {
        let mut configs: Vec<Output> = Vec::new();
        let mut i: usize = 0;
        while i < tx.entries.len()
            invariant
                i <= tx.entries@.len(),
                configs@.len() == i,
                forall|k: int|
                    0 <= k < i ==> (#[trigger] configs@[k])@ == tx.entry_models()[k].config,
            decreases tx.entries@.len() - i,
        {
            let c = tx.entries[i].config.duplicate();
            proof {
                assert(tx.entry_models()[i as int] == tx.entries@[i as int]@);
            }
            configs.push(c);
            i += 1;
        }
        proof {
            assert(configs@.map_values(|o: Output| o@) =~= tx.entry_models().map_values(
                |h: HeadConfModel| h.config,
            ));
        }
        mgr.current_config = Outputs(configs);
    }
    decision
}

/// Test a transaction: the same all-or-nothing checks as `apply`, with no
/// effect on the published state in any case.
pub fn test_transaction(mgr: &OutputManagementState, tx: &mut ConfigTransaction) -> (r: ApplyResult)
    requires
        old(tx).wf(),
    ensures
        final(tx).wf(),
        match r {
            ApplyResult::Cancelled => old(tx).serial != mgr.serial && *final(tx) == *old(tx),
            ApplyResult::AlreadyUsed => old(tx).serial == mgr.serial && old(tx).used && *final(tx)
                == *old(tx),
            ApplyResult::Failed => {
                &&& old(tx).serial == mgr.serial
                &&& !old(tx).used
                &&& all_disabled(old(tx).entry_models())
                &&& final(tx).used
                &&& final(tx).serial == old(tx).serial
                &&& final(tx).entry_models() == old(tx).entry_models()
            },
            ApplyResult::Succeeded => {
                &&& old(tx).serial == mgr.serial
                &&& !old(tx).used
                &&& !all_disabled(old(tx).entry_models())
                &&& final(tx).used
                &&& final(tx).serial == old(tx).serial
                &&& final(tx).entry_models() == old(tx).entry_models()
            },
        },
{
    if tx.serial != mgr.serial {
        return ApplyResult::Cancelled;
    }
    if tx.used {
        return ApplyResult::AlreadyUsed;
    }
    tx.used = true;
    let mut i: usize = 0;
    let mut any_enabled = false;
    while i < tx.entries.len()
        invariant
            i <= tx.entries@.len(),
            tx.entries@ == old(tx).entries@,
            tx.serial == old(tx).serial,
            tx.used,
            any_enabled == exists|j: int|
                0 <= j < i && !(#[trigger] tx.entry_models()[j]).config.off,
        decreases tx.entries@.len() - i,
    {
        proof {
            assert(tx.entry_models()[i as int] == tx.entries@[i as int]@);
        }
        if !tx.entries[i].config.off {
            any_enabled = true;
        }
        i += 1;
    }
    if any_enabled {
        ApplyResult::Succeeded
    } else {
        ApplyResult::Failed
    }
}

} // verus!
