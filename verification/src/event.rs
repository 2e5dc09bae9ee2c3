//! Events, transactions and sessions: the building blocks of a history.

use vstd::prelude::*;

verus! {

/// One read or one write of a variable.
///
/// A read carries the placeholder value `0`; the value it observes is decided
/// by whoever later executes the history.
#[derive(Debug, PartialEq, Eq)]
pub struct Event {
    pub write: bool,
    pub variable: usize,
    pub value: usize,
    pub success: bool,
}

impl Event {
    /// A read of `var`, not yet executed.
    pub fn read(var: usize) -> (event: Self)
        ensures
            event == (Event { write: false, variable: var, value: 0, success: false }),
    {
        Event { write: false, variable: var, value: 0, success: false }
    }

    /// A write of `val` to `var`, not yet executed.
    pub fn write(var: usize, val: usize) -> (event: Self)
        ensures
            event == (Event { write: true, variable: var, value: val, success: false }),
    {
        Event { write: true, variable: var, value: val, success: false }
    }
}

impl Clone for Event {
    fn clone(&self) -> (copy: Self)
        ensures
            copy == *self,
    {
        Event { write: self.write, variable: self.variable, value: self.value, success: self.success }
    }
}

/// A client's transaction: its events in program order.
#[derive(Debug, PartialEq, Eq)]
pub struct Transaction {
    pub events: Vec<Event>,
    pub success: bool,
}

/// One client's transactions, in the order the client issued them.
pub type Session = Vec<Transaction>;

/// What a transaction is, apart from how it is stored.
pub struct TransactionView {
    pub events: Seq<Event>,
    pub success: bool,
}

impl DeepView for Transaction {
    type V = TransactionView;

    open spec fn deep_view(&self) -> TransactionView {
        TransactionView { events: self.events@, success: self.success }
    }
}

impl Clone for Transaction {
    fn clone(&self) -> (copy: Self)
        ensures
            copy.deep_view() == self.deep_view(),
    {
        let mut events: Vec<Event> = Vec::new();
        let mut at: usize = 0;
        while at < self.events.len()
            invariant
                at <= self.events.len(),
                events@ == self.events@.take(at as int),
            decreases self.events.len() - at,
        {
            events.push(self.events[at].clone());
            at += 1;
        }
        assert(events@ == self.events@);
        Transaction { events, success: self.success }
    }
}

} // verus!
