//! The severity levels of a record, their order and their wire codes.

use std::cmp::Ordering;
use vstd::prelude::*;
use vstd::std_specs::cmp::PartialOrdSpecImpl;

verus! {

/// The eight severity levels, from the most urgent to the least.
///
/// The levels are ordered as they are listed, which is the order of their
/// wire codes: `Emerg` is the least of them and `Debug` the greatest.
#[derive(Clone, Copy, Debug, PartialEq, Eq, Structural, Hash, Ord)]
pub enum LoggingLevels {
    /// System is unusable.
    Emerg,
    /// Action must be taken immediately.
    Alert,
    /// Critical conditions.
    Crit,
    /// Error conditions.
    Error,
    /// Warning conditions.
    Warning,
    /// Normal but significant condition.
    Notice,
    /// Informational messages.
    Info,
    /// Debug-level messages.
    Debug,
}

impl LoggingLevels {
    /// The wire code of a level: 0 for `Emerg`, 1 for `Alert`, 2 for
    /// `Crit`, 3 for `Error`, 4 for `Warning`, 5 for `Notice`, 6 for `Info`,
    /// 7 for `Debug`.
    pub open spec fn spec_code(self) -> int {
        match self {
            LoggingLevels::Emerg => 0,
            LoggingLevels::Alert => 1,
            LoggingLevels::Crit => 2,
            LoggingLevels::Error => 3,
            LoggingLevels::Warning => 4,
            LoggingLevels::Notice => 5,
            LoggingLevels::Info => 6,
            LoggingLevels::Debug => 7,
        }
    }

    /// The level that a wire code stands for, if it stands for one.
    pub open spec fn spec_from_code(code: int) -> Option<LoggingLevels> {
        if code == 0 {
            Some(LoggingLevels::Emerg)
        } else if code == 1 {
            Some(LoggingLevels::Alert)
        } else if code == 2 {
            Some(LoggingLevels::Crit)
        } else if code == 3 {
            Some(LoggingLevels::Error)
        } else if code == 4 {
            Some(LoggingLevels::Warning)
        } else if code == 5 {
            Some(LoggingLevels::Notice)
        } else if code == 6 {
            Some(LoggingLevels::Info)
        } else if code == 7 {
            Some(LoggingLevels::Debug)
        } else {
            None
        }
    }

    /// The wire code of this level.
    pub fn code(self) -> (code: i32)
        ensures
            code == self.spec_code(),
    {
        match self {
            LoggingLevels::Emerg => 0,
            LoggingLevels::Alert => 1,
            LoggingLevels::Crit => 2,
            LoggingLevels::Error => 3,
            LoggingLevels::Warning => 4,
            LoggingLevels::Notice => 5,
            LoggingLevels::Info => 6,
            LoggingLevels::Debug => 7,
        }
    }

    /// The level with the wire code `code`; `None` where `code` is not one
    /// of 0 to 7.
    pub fn from_code(code: i32) -> (level: Option<LoggingLevels>)
        ensures
            level == Self::spec_from_code(code as int),
    {
        match code {
            0 => Some(LoggingLevels::Emerg),
            1 => Some(LoggingLevels::Alert),
            2 => Some(LoggingLevels::Crit),
            3 => Some(LoggingLevels::Error),
            4 => Some(LoggingLevels::Warning),
            5 => Some(LoggingLevels::Notice),
            6 => Some(LoggingLevels::Info),
            7 => Some(LoggingLevels::Debug),
            _ => None,
        }
    }
}

/// Every level has one of the codes 0 to 7, and the code gives the level
/// back.
pub proof fn lemma_code_round_trip(level: LoggingLevels)
    ensures
        0 <= level.spec_code() <= 7,
        LoggingLevels::spec_from_code(level.spec_code()) == Some(level),
{
}

/// A code that stands for a level is the code of that level, and no code
/// outside 0 to 7 stands for one.
pub proof fn lemma_from_code_round_trip(code: int)
    ensures
        LoggingLevels::spec_from_code(code) is Some <==> 0 <= code <= 7,
        LoggingLevels::spec_from_code(code) matches Some(level) ==> level.spec_code() == code,
{
}

impl PartialOrd for LoggingLevels {
    fn partial_cmp(&self, other: &Self) -> (order: Option<Ordering>) {
        let mine = self.code();
        let theirs = other.code();
        if mine < theirs {
            Some(Ordering::Less)
        } else if mine == theirs {
            Some(Ordering::Equal)
        } else {
            Some(Ordering::Greater)
        }
    }
}

impl PartialOrdSpecImpl for LoggingLevels {
    open spec fn obeys_partial_cmp_spec() -> bool {
        true
    }

    open spec fn partial_cmp_spec(&self, other: &Self) -> Option<Ordering> {
        if self.spec_code() < other.spec_code() {
            Some(Ordering::Less)
        } else if self.spec_code() == other.spec_code() {
            Some(Ordering::Equal)
        } else {
            Some(Ordering::Greater)
        }
    }
}

} // verus!
