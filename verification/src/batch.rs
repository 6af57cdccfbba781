//! The batch: records in the order in which they were added.

use crate::operation::{LoggerOperation, RecordView};
use vstd::prelude::*;
use vstd::std_specs::cmp::PartialEqSpecImpl;

verus! {

/// What a list of records says, record by record.
pub open spec fn records(operations: Seq<LoggerOperation>) -> Seq<RecordView> {
    operations.map_values(|operation: LoggerOperation| operation@)
}

/// The batch after the records of `added` have been pushed onto `batch` one
/// by one, the first of them first.
pub open spec fn push_each(batch: Seq<RecordView>, added: Seq<RecordView>) -> Seq<RecordView>
    decreases added.len(),
{
    if added.len() == 0 {
        batch
    } else {
        push_each(batch.push(added.first()), added.drop_first())
    }
}

/// Extending a batch by a list is the same as pushing the records of the
/// list one by one, in the order of the list.
pub proof fn lemma_extend_is_push_each(batch: Seq<RecordView>, added: Seq<RecordView>)
    ensures
        batch + added == push_each(batch, added),
    decreases added.len(),
{
    if added.len() > 0 {
        lemma_extend_is_push_each(batch.push(added.first()), added.drop_first());
        assert(batch + added =~= batch.push(added.first()) + added.drop_first());
    }
}

/// An ordered collection of records. Records are only ever added at the
/// end: none is moved, dropped or merged with another.
///
/// Its view is the list of what its records say.
#[derive(Debug)]
pub struct LoggerOperations {
    pub operations: Vec<LoggerOperation>,
}

impl View for LoggerOperations {
    type V = Seq<RecordView>;

    open spec fn view(&self) -> Seq<RecordView> {
        records(self.operations@)
    }
}

impl LoggerOperations {
    /// A batch without records.
    pub fn new() -> (batch: Self)
        ensures
            batch@ == Seq::<RecordView>::empty(),
    {
        LoggerOperations { operations: Vec::new() }
    }

    /// Adds `operation` at the end.
    pub fn push(&mut self, operation: LoggerOperation)
        ensures
            final(self)@ == old(self)@.push(operation@),
    {
        self.operations.push(operation);
    }

    /// Adds the records of `operations` at the end, in their order.
    pub fn extend(&mut self, operations: Vec<LoggerOperation>)
        ensures
            final(self)@ == old(self)@ + records(operations@),
    {
        let mut operations = operations;
        self.operations.append(&mut operations);
    }

    /// The number of records.
    pub fn len(&self) -> (n: usize)
        ensures
            n == self@.len(),
    {
        self.operations.len()
    }
}

impl Default for LoggerOperations {
    fn default() -> (batch: Self)
        ensures
            batch@ == Seq::<RecordView>::empty(),
    {
        LoggerOperations::new()
    }
}

impl Clone for LoggerOperations {
    fn clone(&self) -> (copy: Self)
        ensures
            copy@ == self@,
    {
        let mut operations: Vec<LoggerOperation> = Vec::new();
        let mut i: usize = 0;
        while i < self.operations.len()
            invariant
                i <= self.operations.len(),
                operations.len() == i,
                forall|j: int| 0 <= j < i ==> (#[trigger] operations[j])@ == self.operations[j]@,
            decreases self.operations.len() - i,
        {
            operations.push(self.operations[i].clone());
            i += 1;
        }
        LoggerOperations { operations }
    }
}

impl PartialEq for LoggerOperations {
    fn eq(&self, other: &Self) -> (same: bool) {
        if self.operations.len() != other.operations.len() {
            return false;
        }
        let mut i: usize = 0;
        while i < self.operations.len()
            invariant
                i <= self.operations.len(),
                self.operations.len() == other.operations.len(),
                self@.take(i as int) == other@.take(i as int),
            decreases self.operations.len() - i,
        {
            if !(self.operations[i] == other.operations[i]) {
                assert(self@[i as int] != other@[i as int]);
                return false;
            }
            i += 1;
        }
        assert(self@.take(i as int) =~= self@);
        assert(other@.take(i as int) =~= other@);
        true
    }
}

impl Eq for LoggerOperations {}

impl PartialEqSpecImpl for LoggerOperations {
    open spec fn obeys_eq_spec() -> bool {
        true
    }

    open spec fn eq_spec(&self, other: &Self) -> bool {
        self@ == other@
    }
}

} // verus!
