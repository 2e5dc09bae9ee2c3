//! A generated history together with the record of how it was made.

use crate::clock::Timestamp;
use crate::event::{Session, TransactionView};
use vstd::prelude::*;

verus! {

/// The parameters of one run that are kept with its history.
#[derive(Debug)]
pub struct HistParams {
    id: usize,
    n_node: usize,
    n_variable: usize,
    n_transaction: usize,
    n_event: usize,
}

/// What `HistParams` holds.
pub struct HistParamsView {
    pub id: usize,
    pub n_node: usize,
    pub n_variable: usize,
    pub n_transaction: usize,
    pub n_event: usize,
}

impl View for HistParams {
    type V = HistParamsView;

    closed spec fn view(&self) -> HistParamsView {
        HistParamsView {
            id: self.id,
            n_node: self.n_node,
            n_variable: self.n_variable,
            n_transaction: self.n_transaction,
            n_event: self.n_event,
        }
    }
}

impl Default for HistParams {
    fn default() -> (params: Self)
        ensures
            params@ == (HistParamsView {
                id: 0,
                n_node: 0,
                n_variable: 0,
                n_transaction: 0,
                n_event: 0,
            }),
    {
        HistParams { id: 0, n_node: 0, n_variable: 0, n_transaction: 0, n_event: 0 }
    }
}

impl Clone for HistParams {
    fn clone(&self) -> (copy: Self)
        ensures
            copy@ == self@,
    {
        HistParams {
            id: self.id,
            n_node: self.n_node,
            n_variable: self.n_variable,
            n_transaction: self.n_transaction,
            n_event: self.n_event,
        }
    }
}

impl HistParams {
    /// The parameters kept for the run numbered `id`.
    pub fn new(
        id: usize,
        n_node: usize,
        n_variable: usize,
        n_transaction: usize,
        n_event: usize,
    ) -> (kept: Self)
        ensures
            kept@ == (HistParamsView { id, n_node, n_variable, n_transaction, n_event }),
    {
        HistParams { id, n_node, n_variable, n_transaction, n_event }
    }

    /// The number of the run.
    pub fn get_id(&self) -> (id: usize)
        ensures
            id == self@.id,
    {
        self.id
    }

    /// Gives the run another number.
    pub fn set_id(&mut self, id: usize)
        ensures
            final(self)@ == (HistParamsView { id, ..old(self)@ }),
    {
        self.id = id;
    }

    /// The number of sessions.
    pub fn get_n_node(&self) -> (n_node: usize)
        ensures
            n_node == self@.n_node,
    {
        self.n_node
    }

    /// The number of variables.
    pub fn get_n_variable(&self) -> (n_variable: usize)
        ensures
            n_variable == self@.n_variable,
    {
        self.n_variable
    }

    /// The number of transactions in each session.
    pub fn get_n_transaction(&self) -> (n_transaction: usize)
        ensures
            n_transaction == self@.n_transaction,
    {
        self.n_transaction
    }

    /// The number of events that sizes the transactions.
    pub fn get_event(&self) -> (n_event: usize)
        ensures
            n_event == self@.n_event,
    {
        self.n_event
    }
}

/// The history of one run with the parameters it was generated from, a note
/// on where it comes from, and the times at which the run began and ended.
#[derive(Debug)]
pub struct History {
    params: HistParams,
    info: String,
    start: Timestamp,
    end: Timestamp,
    data: Vec<Session>,
}

/// What `History` holds.
pub struct HistoryView {
    pub params: HistParamsView,
    pub info: Seq<char>,
    pub start: Timestamp,
    pub end: Timestamp,
    pub data: Seq<Seq<TransactionView>>,
}

impl View for History {
    type V = HistoryView;

    closed spec fn view(&self) -> HistoryView {
        HistoryView {
            params: self.params@,
            info: self.info@,
            start: self.start,
            end: self.end,
            data: self.data.deep_view(),
        }
    }
}

impl History {
    /// The record made of its parts.
    pub fn new(
        params: HistParams,
        info: String,
        start: Timestamp,
        end: Timestamp,
        data: Vec<Session>,
    ) -> (history: Self)
        ensures
            history@ == (HistoryView {
                params: params@,
                info: info@,
                start,
                end,
                data: data.deep_view(),
            }),
    {
        History { params, info, start, end, data }
    }

    /// The number of the run.
    pub fn get_id(&self) -> (id: usize)
        ensures
            id == self@.params.id,
    {
        self.params.get_id()
    }

    /// The sessions of the history.
    pub fn get_data(&self) -> (data: &Vec<Session>)
        ensures
            data.deep_view() == self@.data,
    {
        &self.data
    }

    /// A copy of the sessions of the history.
    pub fn get_cloned_data(&self) -> (data: Vec<Session>)
        ensures
            data.deep_view() == self@.data,
    {
        let data = self.data.clone();
        assert(data.deep_view() =~~= self.data.deep_view());
        data
    }

    /// The parameters kept with the history.
    pub fn get_params(&self) -> (params: &HistParams)
        ensures
            params@ == self@.params,
    {
        &self.params
    }

    /// A copy of the parameters kept with the history.
    pub fn get_cloned_params(&self) -> (params: HistParams)
        ensures
            params@ == self@.params,
    {
        self.params.clone()
    }

    /// The note on where the history comes from.
    pub fn get_info(&self) -> (info: &String)
        ensures
            info@ == self@.info,
    {
        &self.info
    }

    /// The time at which the run began.
    pub fn get_start(&self) -> (start: Timestamp)
        ensures
            start == self@.start,
    {
        self.start
    }

    /// The time at which the run ended.
    pub fn get_end(&self) -> (end: Timestamp)
        ensures
            end == self@.end,
    {
        self.end
    }

    /// The nanoseconds that passed from the start of the run to its end;
    /// negative if the clock was set back in between.
    pub fn get_duration(&self) -> (nanoseconds: i128)
        ensures
            nanoseconds == self@.end.nanos() - self@.start.nanos(),
    {
        let seconds: i128 = self.end.seconds as i128 - self.start.seconds as i128;
        let rest: i128 = self.end.nanoseconds as i128 - self.start.nanoseconds as i128;
        assert(-0x1_0000_0000_0000_0000 * 1_000_000_000 <= seconds * 1_000_000_000
            <= 0x1_0000_0000_0000_0000 * 1_000_000_000) by (nonlinear_arith)
            requires
                -0x1_0000_0000_0000_0000 <= seconds <= 0x1_0000_0000_0000_0000,
        ;
        seconds * 1_000_000_000 + rest
    }
}

} // verus!
