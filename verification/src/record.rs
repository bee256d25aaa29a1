//! Error chains written down as plain values.

use vstd::prelude::*;
use crate::node::ErrorNode;

verus! {

/// One error as it was recorded: its message and, where it has a cause, the
/// position of the cause's record among the records it is kept with.
#[derive(Debug, Clone, PartialEq, Eq, Hash)]
pub struct ErrorRecord {
    /// The error's message.
    pub message: String,
    /// The position of the record of the error's cause, if it has one.
    pub cause: Option<usize>,
}

/// Every cause named in `records` is the position of one of them.
pub open spec fn links_in_range(records: Seq<ErrorRecord>) -> bool {
    forall|at: int|
        0 <= at < records.len() ==> match (#[trigger] records[at]).cause {
            Some(cause) => cause < records.len(),
            None => true,
        }
}

/// Handle on one of a slice of records. A record may name any record as its
/// cause, itself or an earlier one too, so the chain below a handle may run
/// in a circle.
#[derive(Debug, Clone, Copy)]
pub struct RecordedError<'a> {
    records: &'a [ErrorRecord],
    index: usize,
}

impl<'a> RecordedError<'a> {
    /// The records that this handle looks into.
    pub closed spec fn records(&self) -> Seq<ErrorRecord> {
        self.records@
    }

    /// The position of the record that this handle stands for.
    pub closed spec fn index(&self) -> nat {
        self.index as nat
    }

    #[verifier::type_invariant]
    spec fn in_range(&self) -> bool {
        &&& self.index < self.records@.len()
        &&& links_in_range(self.records@)
    }

    /// The handle on the record at `index`. There is none where `index` is
    /// no position in `records`, or where a record names a cause that is
    /// none.
    pub fn new(records: &'a [ErrorRecord], index: usize) -> (node: Option<Self>)
        ensures
            node is Some <==> index < records@.len() && links_in_range(records@),
            node matches Some(found) ==> found.records() == records@ && found.index() == index,
    {
        if index >= records.len() {
            return None;
        }
        let mut at: usize = 0;
        while at < records.len()
            invariant
                at <= records@.len(),
                forall|seen: int|
                    0 <= seen < at ==> match (#[trigger] records@[seen]).cause {
                        Some(cause) => cause < records@.len(),
                        None => true,
                    },
            decreases records@.len() - at,
        {
            match records[at].cause {
                Some(cause) => {
                    if cause >= records.len() {
                        return None;
                    }
                },
                None => {},
            }
            at += 1;
        }
        Some(RecordedError { records, index })
    }

    /// A handle reads its record: its message is the record's message, and
    /// its cause is the handle on the record that its record names, in the
    /// same records, or none where the record names none.
    pub proof fn law_reads_record(&self)
        ensures
            self.message_text() == self.records()[self.index() as int].message@,
            match self.records()[self.index() as int].cause {
                Some(cause) => self.cause_node() matches Some(next) && next.records()
                    == self.records() && next.index() == cause,
                None => self.cause_node() is None,
            },
    {
    }
}

impl<'a> ErrorNode for RecordedError<'a> {
    closed spec fn message_text(&self) -> Seq<char> {
        self.records@[self.index as int].message@
    }

    closed spec fn cause_node(&self) -> Option<Self> {
        match self.records@[self.index as int].cause {
            Some(cause) => Some(RecordedError { records: self.records, index: cause }),
            None => None,
        }
    }

    fn message(&self) -> (text: String) {
        proof {
            use_type_invariant(self);
        }
        self.records[self.index].message.clone()
    }

    fn cause(&self) -> (next: Option<Self>) {
        proof {
            use_type_invariant(self);
        }
        match self.records[self.index].cause {
            Some(cause) => Some(RecordedError { records: self.records, index: cause }),
            None => None,
        }
    }
}

} // verus!
