//! Sessions, histories and batches of histories.

use crate::assigner::ValueAssigner;
use crate::builder::TransactionBuilder;
use crate::clock::now;
use crate::event::{Session, Transaction};
use crate::laws::{
    lemma_certain_reads, lemma_certain_writes, lemma_follows_concat, lemma_growth,
    lemma_history_events_push, lemma_session_events_bounded, lemma_session_events_push,
    lemma_state_after_concat, lemma_with_reuse_rewrites_repeat,
    lemma_without_reuse_writes_distinct,
};
use crate::model::{
    all_reads, all_writes, headroom, history_events, rewrites_repeat, session_events,
    state_after, writes_distinct,
};
use crate::params::{GenerationError, HistoryParams};
use crate::random::thread_rng;
use crate::record::{HistParams, HistParamsView, History, HistoryView};
use rand::rngs::ThreadRng;
use vstd::prelude::*;

verus! {

/// Generates the next session of a run: as many transactions as the
/// parameters ask for, one after the other.
pub fn generate_session(
    builder: &TransactionBuilder,
    assigner: &mut ValueAssigner,
    rng: &mut ThreadRng,
) -> (made: Result<Session, GenerationError>)
    requires
        builder.wf(),
        headroom(
            old(assigner)@,
            (builder.params.n_transaction * builder.params.largest_size()) as nat,
        ),
    ensures
        made matches Ok(session) ==> {
            &&& builder.params.shapes(session.deep_view())
            &&& builder.params.follows(old(assigner)@, session_events(session.deep_view()))
            &&& final(assigner)@ == state_after(
                old(assigner)@,
                session_events(session.deep_view()),
            )
        },
        made matches Err(error) ==> error is Sampler,
        builder.params.n_transaction == 0 ==> made is Ok,
{
    let ghost start = assigner@;
    let ghost largest = builder.params.largest_size();
    let mut session: Vec<Transaction> = Vec::new();
    assert(session.deep_view() =~= Seq::empty());
    while session.len() < builder.params.n_transaction
        invariant
            builder.wf(),
            largest == builder.params.largest_size(),
            session.len() <= builder.params.n_transaction,
            headroom(start, (builder.params.n_transaction * largest) as nat),
            forall|t: int|
                0 <= t < session.len() ==> {
                    &&& !(#[trigger] session.deep_view()[t]).success
                    &&& builder.params.permits_size(session.deep_view()[t].events.len() as int)
                },
            builder.params.follows(start, session_events(session.deep_view())),
            assigner@ == state_after(start, session_events(session.deep_view())),
        decreases builder.params.n_transaction - session.len(),
    {
        let ghost done = session.deep_view();
        proof {
            lemma_growth(start, session_events(done));
            lemma_session_events_bounded(builder.params, done);
            assert(session.len() * largest + largest <= builder.params.n_transaction * largest)
                by (nonlinear_arith)
                requires
                    session.len() < builder.params.n_transaction,
                    largest >= 0,
            ;
        }
        match builder.build_transaction(assigner, rng) {
            Ok(transaction) => {
                proof {
                    lemma_session_events_push(done, transaction.deep_view());
                    lemma_follows_concat(
                        builder.params,
                        start,
                        session_events(done),
                        transaction.events@,
                    );
                    lemma_state_after_concat(start, session_events(done), transaction.events@);
                }
                session.push(transaction);
                assert(session.deep_view() =~= done.push(transaction.deep_view()));
            },
            Err(error) => {
                return Err(error);
            },
        }
    }
    Ok(session)
}

/// Generates one history: as many sessions as the parameters ask for, one
/// after the other, all drawing their values from the same counters, which
/// start afresh with each run. The random numbers come from the generator of
/// the current thread.
///
/// Parameters that do not describe a run are refused before anything is
/// generated. A run ends early only when the sampler fails.
pub fn generate_single_history(params: HistoryParams) -> (made: Result<
    Vec<Session>,
    GenerationError,
>)
    ensures
        made == Err::<Vec<Session>, GenerationError>(GenerationError::Configuration)
            <==> !params.valid(),
        params.valid() && (params.n_node == 0 || params.n_transaction == 0) ==> made is Ok,
        made matches Ok(history) ==> {
            let events = history_events(history.deep_view());
            &&& params.describes(history.deep_view())
            &&& history.len() == params.n_node
            &&& forall|s: int|
                0 <= s < history.len() ==> (#[trigger] history[s]).len() == params.n_transaction
            &&& forall|s: int, t: int|
                0 <= s < history.len() && 0 <= t < history[s].len() ==> 1 <= (
                #[trigger] history[s][t]).events.len()
            &&& params.read_probability.is_certain() ==> all_reads(events)
            &&& params.read_probability.is_never() ==> all_writes(events)
            &&& params.repeated_value_proportion.is_never() ==> writes_distinct(events)
            &&& params.repeated_value_proportion.is_certain() ==> rewrites_repeat(events)
        },
{
    let builder = match TransactionBuilder::new(params) {
        Ok(builder) => builder,
        Err(error) => {
            return Err(error);
        },
    };
    let ghost session_size = params.n_transaction * params.largest_size();
    let mut assigner = ValueAssigner::new();
    let mut rng = thread_rng();
    let mut history: Vec<Session> = Vec::new();
    assert(history.deep_view() =~= Seq::empty());
    while history.len() < params.n_node
        invariant
            builder.wf(),
            builder.params == params,
            session_size == params.n_transaction * params.largest_size(),
            history.len() <= params.n_node,
            forall|s: int|
                0 <= s < history.len() ==> params.shapes(#[trigger] history.deep_view()[s]),
            params.follows(Map::empty(), history_events(history.deep_view())),
            assigner@ == state_after(Map::empty(), history_events(history.deep_view())),
            history_events(history.deep_view()).len() <= history.len() * session_size,
        decreases params.n_node - history.len(),
    {
        let ghost done = history.deep_view();
        proof {
            lemma_growth(Map::empty(), history_events(done));
            assert(history.len() * session_size + session_size <= params.n_node * session_size)
                by (nonlinear_arith)
                requires
                    history.len() < params.n_node,
                    session_size >= 0,
            ;
            assert(params.n_node * session_size == params.n_node * params.n_transaction
                * params.largest_size()) by (nonlinear_arith)
                requires
                    session_size == params.n_transaction * params.largest_size(),
            ;
        }
        match generate_session(&builder, &mut assigner, &mut rng) {
            Ok(session) => {
                proof {
                    let events = session_events(session.deep_view());
                    lemma_history_events_push(done, session.deep_view());
                    lemma_follows_concat(params, Map::empty(), history_events(done), events);
                    lemma_state_after_concat(Map::empty(), history_events(done), events);
                    lemma_session_events_bounded(params, session.deep_view());
                    assert((history.len() + 1) * session_size == history.len() * session_size
                        + session_size) by (nonlinear_arith);
                }
                history.push(session);
                assert(history.deep_view() =~= done.push(session.deep_view()));
            },
            Err(error) => {
                return Err(error);
            },
        }
    }
    proof {
        let events = history_events(history.deep_view());
        if params.read_probability.is_certain() {
            lemma_certain_reads(params, events);
        }
        if params.read_probability.is_never() {
            lemma_certain_writes(params, events);
        }
        if params.repeated_value_proportion.is_never() {
            lemma_without_reuse_writes_distinct(params, events);
        }
        if params.repeated_value_proportion.is_certain() {
            lemma_with_reuse_rewrites_repeat(params, events);
        }
        assert forall|s: int, t: int|
            0 <= s < history.len() && 0 <= t < history[s].len() implies 1 <= (
        #[trigger] history[s][t]).events.len() by {
            assert(params.shapes(history.deep_view()[s]));
            assert(history.deep_view()[s][t] == history[s][t].deep_view());
        }
        assert forall|s: int| 0 <= s < history.len() implies (#[trigger] history[s]).len()
            == params.n_transaction by {
            assert(params.shapes(history.deep_view()[s]));
        }
    }
    Ok(history)
}

/// What the record of the run numbered `id` holds: the parameters kept for
/// it, the note that it was generated, and a history that may come out of a
/// run.
pub open spec fn records_run(params: HistoryParams, id: int, record: HistoryView) -> bool {
    &&& record.params == (HistParamsView {
        id: id as usize,
        n_node: params.n_node,
        n_variable: params.n_variable,
        n_transaction: params.n_transaction,
        n_event: params.n_event,
    })
    &&& record.info == "generated"@
    &&& params.describes(record.data)
}

/// Generates as many histories as the parameters ask for, each from a run of
/// its own, numbered from zero, with the time at which the run began and the
/// time at which it ended.
///
/// The first run that fails ends the batch, and nothing is handed out.
pub fn generate_mult_histories(params: HistoryParams) -> (made: Result<
    Vec<History>,
    GenerationError,
>)
    ensures
        made == Err::<Vec<History>, GenerationError>(GenerationError::Configuration)
            <==> params.n_hist > 0 && !params.valid(),
        params.n_hist == 0 ==> made is Ok,
        params.valid() && (params.n_node == 0 || params.n_transaction == 0) ==> made is Ok,
        made matches Ok(batch) ==> {
            &&& batch.len() == params.n_hist
            &&& forall|i: int|
                0 <= i < batch.len() ==> records_run(params, i, (#[trigger] batch[i])@)
        },
{
    let mut batch: Vec<History> = Vec::new();
    while batch.len() < params.n_hist
        invariant
            batch.len() <= params.n_hist,
            batch.len() > 0 ==> params.valid(),
            forall|i: int| 0 <= i < batch.len() ==> records_run(params, i, (#[trigger] batch[i])@),
        decreases params.n_hist - batch.len(),
    {
        let id: usize = batch.len();
        let start = now();
        let data = match generate_single_history(params) {
            Ok(data) => data,
            Err(error) => {
                return Err(error);
            },
        };
        let end = now();
        let record = History::new(
            HistParams::new(
                id,
                params.n_node,
                params.n_variable,
                params.n_transaction,
                params.n_event,
            ),
            "generated".to_string(),
            start,
            end,
            data,
        );
        batch.push(record);
    }
    Ok(batch)
}

} // verus!
