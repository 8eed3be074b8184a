use vstd::prelude::*;

use crate::state::CurrentState;
use crate::state::StateView;

verus! {

/// A failure of the durable store.
#[derive(Debug, PartialEq, Eq)]
pub enum StorageError {
    /// `initialize` found the slot already holding a snapshot.
    SlotOccupied,
    /// The host's storage backend failed; the text describes the failure.
    Io(String),
}

/// The text that describes a storage failure.
pub open spec fn spec_storage_error_text(e: StorageError) -> Seq<char> {
    match e {
        StorageError::SlotOccupied => "storage slot already initialized"@,
        StorageError::Io(d) => d@,
    }
}

impl StorageError {
    /// The failure as text, for logs and notifications.
    pub fn describe(&self) -> (m: String)
        ensures
            m@ == spec_storage_error_text(*self),
    {
        match self {
            StorageError::SlotOccupied => "storage slot already initialized".to_owned(),
            StorageError::Io(d) => d.clone(),
        }
    }
}

/// What the slot holds after a save: the new snapshot, whatever was there
/// before.
pub open spec fn spec_saved(before: Option<StateView>, s: StateView) -> Option<StateView> {
    Some(s)
}

/// What a load yields of a slot: exactly what the slot holds.
pub open spec fn spec_loaded(slot: Option<StateView>) -> Option<StateView> {
    slot
}

/// The meaning of the durable snapshot store: one slot that either holds the
/// last known snapshot or is still empty (first run). A host that backs the
/// slot with a file must behave as this slot does: `save` replaces the
/// content wholly, and `initialize` creates content only where none exists
/// yet, refusing to overwrite a slot that already holds a snapshot.
pub struct SnapshotSlot {
    stored: Option<CurrentState>,
}

impl View for SnapshotSlot {
    type V = Option<StateView>;

    closed spec fn view(&self) -> Option<StateView> {
        match self.stored {
            Some(s) => Some(s@),
            None => None,
        }
    }
}

impl SnapshotSlot {
    /// A held snapshot is well formed.
    pub closed spec fn wf(&self) -> bool {
        match self.stored {
            Some(s) => s.wf(),
            None => true,
        }
    }

    /// A fresh slot: no snapshot has ever been stored.
    pub fn empty() -> (s: SnapshotSlot)
        ensures
            s@ is None,
            s.wf(),
    {
        SnapshotSlot { stored: None }
    }

    /// The stored snapshot, or nothing on first run. An empty answer is the
    /// expected first-run state, not a failure.
    pub fn load(&self) -> (r: Option<&CurrentState>)
        requires
            self.wf(),
        ensures
            match r {
                Some(s) => spec_loaded(self@) == Some(s@) && s.wf(),
                None => spec_loaded(self@) is None,
            },
    {
        match &self.stored {
            Some(s) => Some(s),
            None => None,
        }
    }

    /// Replace the slot's content wholly with `s`.
    pub fn save(&mut self, s: &CurrentState)
        requires
            old(self).wf(),
            s.wf(),
        ensures
            final(self)@ == spec_saved(old(self)@, s@),
            final(self).wf(),
    {
        self.stored = Some(s.duplicate());
    }

    /// Create the slot's content for the first time. Fails, leaving the slot
    /// untouched, exactly when the slot already holds a snapshot: this path
    /// exists only for bootstrap and must not clobber legitimate prior state.
    pub fn initialize(&mut self, s: &CurrentState) -> (r: Result<(), StorageError>)
        requires
            old(self).wf(),
            s.wf(),
        ensures
            final(self).wf(),
            r is Ok <==> old(self)@ is None,
            match r {
                Ok(()) => final(self)@ == Some(s@),
                Err(e) => final(self)@ == old(self)@ && e == StorageError::SlotOccupied,
            },
    {
        match &self.stored {
            Some(_) => Err(StorageError::SlotOccupied),
            None => {
                self.stored = Some(s.duplicate());
                Ok(())
            },
        }
    }
}

/// Law: loading right after saving snapshot `s` yields exactly `s`, whatever
/// the slot held before: the store round-trips a saved snapshot.
pub proof fn lemma_load_after_save(before: Option<StateView>, s: StateView)
    ensures
        spec_loaded(spec_saved(before, s)) == Some(s),
{
}

} // verus!
