//! The metadata sidecar kept beside every note's content file.

use vstd::prelude::*;

verus! {

/// One note's sidecar record.
///
/// Timestamps are seconds since the Unix epoch; the caller that persists the
/// record renders them as calendar timestamps.
#[derive(Debug, Clone)]
pub struct NoteMetadata {
    /// The name the content had before it entered the store.
    pub original_filename: String,
    /// When the note was created.
    pub created_at: i64,
    /// When the note's content last changed.
    pub updated_at: i64,
    /// Free-form labels, in order.
    pub tags: Vec<String>,
}

/// Relies on chrono's `Utc::now`, reduced to a Unix timestamp with
/// `DateTime::timestamp`; nothing is promised about the value.
#[verifier::external_body]
fn now_timestamp() -> i64 {
    chrono::Utc::now().timestamp()
}

impl NoteMetadata {
    /// A record for a note created at the given moment: both timestamps are
    /// `now`, and there are no tags yet.
    pub fn new_at(original_filename: String, now: i64) -> (r: NoteMetadata)
        ensures
            r.original_filename == original_filename,
            r.created_at == now,
            r.updated_at == now,
            r.tags@.len() == 0,
    {
        NoteMetadata { original_filename, created_at: now, updated_at: now, tags: Vec::new() }
    }

    /// A record for a note created now: the clock is read once, so creation
    /// and update time coincide, and there are no tags yet.
    pub fn new(original_filename: String) -> (r: NoteMetadata)
        ensures
            r.original_filename == original_filename,
            r.created_at == r.updated_at,
            r.tags@.len() == 0,
    {
        let now = now_timestamp();
        NoteMetadata::new_at(original_filename, now)
    }

    /// Marks an edit at the given moment: the update time moves to `now`;
    /// everything else stays.
    pub fn touch_at(&mut self, now: i64)
        ensures
            final(self).updated_at == now,
            final(self).created_at == old(self).created_at,
            final(self).original_filename == old(self).original_filename,
            final(self).tags == old(self).tags,
    {
        self.updated_at = now;
    }

    /// Marks an edit at the current clock reading; everything but the update
    /// time stays.
    pub fn touch(&mut self)
        ensures
            final(self).created_at == old(self).created_at,
            final(self).original_filename == old(self).original_filename,
            final(self).tags == old(self).tags,
    {
        let now = now_timestamp();
        self.touch_at(now);
    }
}

} // verus!
