//! The logger: the maker of records for one service.

use crate::level::LoggingLevels;
use crate::meta::Meta;
use crate::operation::{LoggerOperation, RecordView};
use vstd::prelude::*;
use vstd::std_specs::cmp::PartialEqSpecImpl;
use vstd::string::StringExecFns;

verus! {

/// What a logger stamps on its records: the name of its service and its
/// default metadata.
pub struct LoggerView {
    pub service: Seq<char>,
    pub meta: Map<Seq<char>, Seq<char>>,
}

impl LoggerView {
    /// The logger of `service` as it is created: without default metadata.
    pub open spec fn new(service: Seq<char>) -> LoggerView {
        LoggerView { service, meta: Map::empty() }
    }

    /// The logger with `meta` as its default metadata.
    pub open spec fn with_defaults(self, meta: Map<Seq<char>, Seq<char>>) -> LoggerView {
        LoggerView { service: self.service, meta }
    }

    /// The record that the logger makes of a severity and a message.
    pub open spec fn record(self, level: LoggingLevels, message: Seq<char>) -> RecordView {
        RecordView { level, message, service: self.service, meta: self.meta }
    }
}

/// A record of a newly created logger has the severity and the message
/// that were asked for, the service that the logger was created for, and no
/// metadata.
pub proof fn lemma_new_logger_record(service: Seq<char>, level: LoggingLevels, message: Seq<char>)
    ensures
        LoggerView::new(service).record(level, message) == (RecordView {
            level,
            message,
            service,
            meta: Map::empty(),
        }),
{
}

/// A record of a logger with default metadata has that metadata, whatever
/// defaults the logger had before.
pub proof fn lemma_defaults_are_stamped(
    logger: LoggerView,
    meta: Map<Seq<char>, Seq<char>>,
    level: LoggingLevels,
    message: Seq<char>,
)
    ensures
        logger.with_defaults(meta).record(level, message) == logger.record(level, message).with(
            meta,
        ),
{
}

/// Makes the records of one service.
#[derive(Debug)]
pub struct Logger {
    pub service: String,
    pub meta: Meta,
}

impl View for Logger {
    type V = LoggerView;

    open spec fn view(&self) -> LoggerView {
        LoggerView { service: self.service@, meta: self.meta@ }
    }
}

impl Logger {
    /// A logger for `service`, without default metadata.
    #[inline]
    #[must_use]
    pub fn new(service: &str) -> (logger: Self)
        ensures
            logger@ == LoggerView::new(service@),
    {
        Logger { service: String::from_str(service), meta: Meta::new() }
    }

    /// The logger with `meta` as the metadata of every record that it makes
    /// from now on. Records made before are not touched.
    #[must_use]
    pub fn with_defaults(self, meta: Meta) -> (logger: Self)
        ensures
            logger@ == self@.with_defaults(meta@),
    {
        Logger { service: self.service, meta }
    }

    /// A record of severity `level` with the message `message`, which may be
    /// any string, the empty one too.
    #[must_use]
    pub fn log(&self, level: LoggingLevels, message: &str) -> (operation: LoggerOperation)
        ensures
            operation@ == self@.record(level, message@),
    {
        LoggerOperation {
            service: self.service.clone(),
            level,
            message: String::from_str(message),
            meta: self.meta.clone(),
        }
    }

    /// Emergency: system is unusable.
    #[inline]
    #[must_use]
    pub fn emerg(&mut self, message: &str) -> (operation: LoggerOperation)
        ensures
            operation@ == old(self)@.record(LoggingLevels::Emerg, message@),
            *final(self) == *old(self),
    {
        self.log(LoggingLevels::Emerg, message)
    }

    /// Alert: action must be taken immediately.
    #[inline]
    #[must_use]
    pub fn alert(&mut self, message: &str) -> (operation: LoggerOperation)
        ensures
            operation@ == old(self)@.record(LoggingLevels::Alert, message@),
            *final(self) == *old(self),
    {
        self.log(LoggingLevels::Alert, message)
    }

    /// Critical: critical conditions.
    #[inline]
    #[must_use]
    pub fn crit(&mut self, message: &str) -> (operation: LoggerOperation)
        ensures
            operation@ == old(self)@.record(LoggingLevels::Crit, message@),
            *final(self) == *old(self),
    {
        self.log(LoggingLevels::Crit, message)
    }

    /// Error: error conditions.
    #[inline]
    #[must_use]
    pub fn error(&mut self, message: &str) -> (operation: LoggerOperation)
        ensures
            operation@ == old(self)@.record(LoggingLevels::Error, message@),
            *final(self) == *old(self),
    {
        self.log(LoggingLevels::Error, message)
    }

    /// Warning: warning conditions.
    #[inline]
    #[must_use]
    pub fn warning(&mut self, message: &str) -> (operation: LoggerOperation)
        ensures
            operation@ == old(self)@.record(LoggingLevels::Warning, message@),
            *final(self) == *old(self),
    {
        self.log(LoggingLevels::Warning, message)
    }

    /// Notice: normal but significant condition.
    #[inline]
    #[must_use]
    pub fn notice(&mut self, message: &str) -> (operation: LoggerOperation)
        ensures
            operation@ == old(self)@.record(LoggingLevels::Notice, message@),
            *final(self) == *old(self),
    {
        self.log(LoggingLevels::Notice, message)
    }

    /// Informational: informational messages.
    #[inline]
    #[must_use]
    pub fn info(&self, message: &str) -> (operation: LoggerOperation)
        ensures
            operation@ == self@.record(LoggingLevels::Info, message@),
    {
        self.log(LoggingLevels::Info, message)
    }

    /// Debug: debug-level messages.
    #[inline]
    #[must_use]
    pub fn debug(&mut self, message: &str) -> (operation: LoggerOperation)
        ensures
            operation@ == old(self)@.record(LoggingLevels::Debug, message@),
            *final(self) == *old(self),
    {
        self.log(LoggingLevels::Debug, message)
    }
}

impl Default for Logger {
    /// The logger of the service without a name.
    fn default() -> (logger: Self)
        ensures
            logger@ == LoggerView::new(Seq::empty()),
    {
        Logger { service: String::new(), meta: Meta::new() }
    }
}

impl Clone for Logger {
    fn clone(&self) -> (copy: Self)
        ensures
            copy@ == self@,
    {
        Logger { service: self.service.clone(), meta: self.meta.clone() }
    }
}

impl PartialEq for Logger {
    fn eq(&self, other: &Self) -> (same: bool) {
        self.service == other.service && self.meta == other.meta
    }
}

impl Eq for Logger {}

impl PartialEqSpecImpl for Logger {
    open spec fn obeys_eq_spec() -> bool {
        true
    }

    open spec fn eq_spec(&self, other: &Self) -> bool {
        self@ == other@
    }
}

} // verus!
