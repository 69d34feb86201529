//! The surface attachment tracker: the per-surface record of the committed
//! client buffer and its imported GPU texture. It owns the buffer-release
//! contract: a shared-memory buffer is released right after import, any other
//! buffer is held until a newer buffer replaces it, and at most one live
//! import exists per surface at a time.

use vstd::prelude::*;

verus! {

/// The kind of a client buffer decides when its handle is released.
#[derive(Clone, Copy, Debug, PartialEq, Eq, Structural)]
pub enum BufferKind {
    /// Shared memory: the compositor copies at import and releases at once.
    Shm,
    /// Any other kind: the compositor may sample from it until the buffer is
    /// replaced, so the handle is held until then.
    Other,
}

/// A client buffer handle. The identifier names the buffer content: a client
/// re-attaching the same unchanged buffer presents the same identifier.
#[derive(Clone, Copy, Debug, PartialEq, Eq, Structural)]
pub struct BufferRef {
    pub id: u64,
    pub kind: BufferKind,
}

/// What a commit asks of the renderer collaborator.
#[derive(Clone, Copy, Debug, PartialEq, Eq, Structural)]
pub enum CommitAction {
    /// No pending buffer: nothing to do.
    NoBuffer,
    /// The pending buffer's content is already imported: no import call.
    AlreadyImported,
    /// Import this buffer; the caller reports back with `import_done`.
    NeedsImport(BufferRef),
}

/// Why the renderer refused a buffer.
#[derive(Clone, Copy, Debug, PartialEq, Eq, Structural)]
pub enum ImportError {
    UnsupportedFormat,
    DecodeFailed,
}

/// Per-surface attachment state.
#[derive(Clone, Copy, Debug, PartialEq, Eq, Structural)]
pub struct Attachment {
    /// Attached but not yet committed.
    pub pending: Option<BufferRef>,
    /// Content identity of the buffer of the last commit.
    pub current: Option<BufferRef>,
    /// Imported texture for `current`, if the import succeeded.
    pub texture: Option<u64>,
    /// A non-shared-memory buffer handle held until overwritten.
    pub held: Option<BufferRef>,
    /// The buffer an import was requested for and not yet resolved.
    pub importing: Option<BufferRef>,
    /// False while the last commit's buffer could not be imported; such a
    /// surface is skipped this frame and the client is not torn down.
    pub displayable: bool,
}

impl Attachment {
    pub open spec fn spec_new() -> Attachment {
        Attachment {
            pending: None,
            current: None,
            texture: None,
            held: None,
            importing: None,
            displayable: true,
        }
    }

    /// The state after storing `b` as the pending buffer.
    pub open spec fn spec_attach(self, b: BufferRef) -> Attachment {
        Attachment { pending: Some(b), ..self }
    }

    /// Whether a commit of pending buffer `b` needs an import call: only
    /// when no texture exists yet for that same buffer content.
    pub open spec fn spec_needs_import(self, b: BufferRef) -> bool {
        !(self.current == Some(b) && self.texture is Some)
    }

    /// The state after a commit, and what it asks of the renderer.
    pub open spec fn spec_commit(self) -> (Attachment, CommitAction) {
        match self.pending {
            None => (self, CommitAction::NoBuffer),
            Some(b) => if self.spec_needs_import(b) {
                (
                    Attachment { pending: None, importing: Some(b), ..self },
                    CommitAction::NeedsImport(b),
                )
            } else {
                (Attachment { pending: None, ..self }, CommitAction::AlreadyImported)
            },
        }
    }

    /// The state after the renderer reports the import outcome for the
    /// buffer in `importing`, and the buffer handles that are released:
    /// on success the previously held handle is overwritten and released,
    /// and a shared-memory buffer is released at once while any other kind
    /// is held; on failure the buffer is released immediately and the
    /// surface is marked not displayable for this commit.
    pub open spec fn spec_import_done(self, b: BufferRef, r: Result<u64, ImportError>) -> (
        Attachment,
        Seq<u64>,
    ) {
        let held_release: Seq<u64> = match self.held {
            Some(h) => seq![h.id],
            None => Seq::empty(),
        };
        match r {
            Ok(t) => (
                Attachment {
                    pending: self.pending,
                    current: Some(b),
                    texture: Some(t),
                    held: if b.kind == BufferKind::Shm {
                        None
                    } else {
                        Some(b)
                    },
                    importing: None,
                    displayable: true,
                },
                if b.kind == BufferKind::Shm {
                    held_release + seq![b.id]
                } else {
                    held_release
                },
            ),
            Err(_) => (
                Attachment {
                    pending: self.pending,
                    current: Some(b),
                    texture: None,
                    held: None,
                    importing: None,
                    displayable: false,
                },
                held_release + seq![b.id],
            ),
        }
    }

    /// A fresh surface with nothing attached.
    pub fn new() -> (r: Attachment)
        ensures
            r == Attachment::spec_new(),
    {
        Attachment {
            pending: None,
            current: None,
            texture: None,
            held: None,
            importing: None,
            displayable: true,
        }
    }

    /// Store `b` as the pending buffer for the next commit.
    pub fn attach(&mut self, b: BufferRef)
        ensures
            *final(self) == old(self).spec_attach(b),
    {
        self.pending = Some(b);
    }

    /// Commit the pending buffer. Returns `NeedsImport` exactly when no
    /// texture exists yet for the pending content; the caller must then call
    /// the renderer and report back through `import_done`.
    pub fn commit(&mut self) -> (r: CommitAction)
        requires
            old(self).importing is None,
        ensures
            (*final(self), r) == old(self).spec_commit(),
    {
        match self.pending {
            None => CommitAction::NoBuffer,
            Some(b) => {
                self.pending = None;
                let same = match self.current {
                    Some(c) => c.id == b.id && c.kind == b.kind,
                    None => false,
                };
                if same && self.texture.is_some() {
                    CommitAction::AlreadyImported
                } else {
                    self.importing = Some(b);
                    CommitAction::NeedsImport(b)
                }
            },
        }
    }

    /// Record the renderer's import outcome and return the identifiers of
    /// the client buffers that are released now.
    pub fn import_done(&mut self, r: Result<u64, ImportError>) -> (released: Vec<u64>)
        requires
            old(self).importing is Some,
        ensures
            (*final(self), released@) == old(self).spec_import_done(
                old(self).importing->Some_0,
                r,
            ),
    {
        let b = match self.importing {
            Some(b) => b,
            None => {
                proof {
                    assert(false);
                }
                BufferRef { id: 0, kind: BufferKind::Shm }
            },
        };
        let mut released: Vec<u64> = Vec::new();
        if let Some(h) = self.held {
            released.push(h.id);
        }
        match r {
            Ok(t) => {
                self.current = Some(b);
                self.texture = Some(t);
                self.importing = None;
                self.displayable = true;
                if let BufferKind::Shm = b.kind {
                    released.push(b.id);
                    self.held = None;
                } else {
                    self.held = Some(b);
                }
            },
            Err(_) => {
                self.current = Some(b);
                self.texture = None;
                self.held = None;
                self.importing = None;
                self.displayable = false;
                released.push(b.id);
            },
        }
        released
    }
}

/// Attaching a buffer, committing and importing it, then attaching the same
/// unchanged buffer and committing again asks for no second import: at most
/// one texture import per distinct buffer content.
pub proof fn lemma_no_redundant_import(s0: Attachment, b: BufferRef, t: u64)
    requires
        s0.importing is None,
        s0.spec_attach(b).spec_commit().1 == CommitAction::NeedsImport(b),
    ensures
        ({
            let s1 = s0.spec_attach(b).spec_commit().0;
            let s2 = s1.spec_import_done(b, Ok::<u64, ImportError>(t)).0;
            s2.spec_attach(b).spec_commit() == (
                Attachment { pending: None, ..s2 },
                CommitAction::AlreadyImported,
            )
        }),
{
}

} // verus!
