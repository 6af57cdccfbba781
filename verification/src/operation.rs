//! The record: one log event, ready to be handed on.

use crate::level::LoggingLevels;
use crate::meta::Meta;
use vstd::prelude::*;
use vstd::std_specs::cmp::PartialEqSpecImpl;

verus! {

/// What a record says: its severity, its message, the service it comes
/// from, and its metadata as a mapping from key to value.
pub struct RecordView {
    pub level: LoggingLevels,
    pub message: Seq<char>,
    pub service: Seq<char>,
    pub meta: Map<Seq<char>, Seq<char>>,
}

impl RecordView {
    /// The record with `meta` in the place of its metadata, whatever that
    /// was, and everything else as it is.
    pub open spec fn with(self, meta: Map<Seq<char>, Seq<char>>) -> RecordView {
        RecordView { level: self.level, message: self.message, service: self.service, meta }
    }
}

/// One log event. A [`crate::Logger`] makes it; [`LoggerOperation::with`]
/// gives it metadata.
#[derive(Debug)]
pub struct LoggerOperation {
    pub service: String,
    pub level: LoggingLevels,
    pub message: String,
    pub meta: Meta,
}

impl View for LoggerOperation {
    type V = RecordView;

    open spec fn view(&self) -> RecordView {
        RecordView {
            level: self.level,
            message: self.message@,
            service: self.service@,
            meta: self.meta@,
        }
    }
}

impl LoggerOperation {
    /// Attaches `meta` to the record. The metadata that the record had is
    /// dropped, not merged: after the call the record has the entries of
    /// `meta` and no others.
    pub fn with(self, meta: Meta) -> (operation: Self)
        ensures
            operation@ == self@.with(meta@),
    {
        LoggerOperation { service: self.service, level: self.level, message: self.message, meta }
    }
}

/// Attaching the same metadata a second time changes nothing.
pub proof fn lemma_with_is_idempotent(record: RecordView, meta: Map<Seq<char>, Seq<char>>)
    ensures
        record.with(meta).with(meta) == record.with(meta),
{
}

/// Attaching replaces: of two attachments only the second shows.
pub proof fn lemma_with_replaces(
    record: RecordView,
    first: Map<Seq<char>, Seq<char>>,
    second: Map<Seq<char>, Seq<char>>,
)
    ensures
        record.with(first).with(second).meta == second,
        record.with(first).with(second) == record.with(second),
{
}

impl Clone for LoggerOperation {
    fn clone(&self) -> (copy: Self)
        ensures
            copy@ == self@,
    {
        LoggerOperation {
            service: self.service.clone(),
            level: self.level,
            message: self.message.clone(),
            meta: self.meta.clone(),
        }
    }
}

impl PartialEq for LoggerOperation {
    fn eq(&self, other: &Self) -> (same: bool) {
        self.level == other.level && self.service == other.service && self.message
            == other.message && self.meta == other.meta
    }
}

impl Eq for LoggerOperation {}

impl PartialEqSpecImpl for LoggerOperation {
    open spec fn obeys_eq_spec() -> bool {
        true
    }

    open spec fn eq_spec(&self, other: &Self) -> bool {
        self@ == other@
    }
}

} // verus!
