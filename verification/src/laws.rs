//! What holds of every run, proved from the rules.

use crate::event::{Event, TransactionView};
use crate::model::{
    after, all_reads, all_writes, fresh_values, highest, history_events, is_fresh, issued,
    repeats_earlier, rewrites, rewrites_repeat, session_events, state_after, writes_distinct,
};
use crate::params::HistoryParams;
use vstd::prelude::*;

verus! {

/// One more event changes the counters as the event says.
pub proof fn lemma_state_after_push(counters: Map<usize, usize>, events: Seq<Event>, event: Event)
    ensures
        state_after(counters, events.push(event)) == after(state_after(counters, events), event),
{
    assert(events.push(event).drop_last() =~= events);
}

/// Events may be replayed in two parts.
pub proof fn lemma_state_after_concat(
    counters: Map<usize, usize>,
    first: Seq<Event>,
    second: Seq<Event>,
)
    ensures
        state_after(counters, first + second) == state_after(
            state_after(counters, first),
            second,
        ),
    decreases second.len(),
{
    if second.len() == 0 {
        assert(first + second =~= first);
    } else {
        assert((first + second).drop_last() =~= first + second.drop_last());
        lemma_state_after_concat(counters, first, second.drop_last());
    }
}

/// No counter falls, and none rises by more than the number of events.
pub proof fn lemma_growth(counters: Map<usize, usize>, events: Seq<Event>)
    ensures
        forall|variable: usize|
            highest(counters, variable) <= #[trigger] highest(
                state_after(counters, events),
                variable,
            ) <= highest(counters, variable) + events.len(),
    decreases events.len(),
{
    if events.len() > 0 {
        let earlier = state_after(counters, events.drop_last());
        lemma_growth(counters, events.drop_last());
        assert forall|variable: usize|
            highest(counters, variable) <= #[trigger] highest(
                state_after(counters, events),
                variable,
            ) <= highest(counters, variable) + events.len() by {
            assert(highest(counters, variable) <= highest(earlier, variable) <= highest(
                counters,
                variable,
            ) + events.len() - 1);
        }
    }
}

/// A run that follows the rules still does so with one more permitted event.
pub proof fn lemma_follows_push(
    params: HistoryParams,
    counters: Map<usize, usize>,
    events: Seq<Event>,
    event: Event,
)
    requires
        params.follows(counters, events),
        params.permits(state_after(counters, events), event),
    ensures
        params.follows(counters, events.push(event)),
{
    let longer = events.push(event);
    assert forall|i: int| 0 <= i < longer.len() implies #[trigger] params.permits(
        state_after(counters, longer.take(i)),
        longer[i],
    ) by {
        if i < events.len() {
            assert(longer.take(i) =~= events.take(i));
        } else {
            assert(longer.take(i) =~= events);
        }
    }
}

/// Two runs, the second starting where the first ended, make one run.
pub proof fn lemma_follows_concat(
    params: HistoryParams,
    counters: Map<usize, usize>,
    first: Seq<Event>,
    second: Seq<Event>,
)
    requires
        params.follows(counters, first),
        params.follows(state_after(counters, first), second),
    ensures
        params.follows(counters, first + second),
{
    let whole = first + second;
    assert forall|i: int| 0 <= i < whole.len() implies #[trigger] params.permits(
        state_after(counters, whole.take(i)),
        whole[i],
    ) by {
        if i < first.len() {
            assert(whole.take(i) =~= first.take(i));
        } else {
            let k = i - first.len();
            assert(whole.take(i) =~= first + second.take(k));
            lemma_state_after_concat(counters, first, second.take(k));
            assert(params.permits(
                state_after(state_after(counters, first), second.take(k)),
                second[k],
            ));
        }
    }
}

/// The beginning of a run that follows the rules follows them too.
pub proof fn lemma_follows_take(
    params: HistoryParams,
    counters: Map<usize, usize>,
    events: Seq<Event>,
    count: int,
)
    requires
        params.follows(counters, events),
        0 <= count <= events.len(),
    ensures
        params.follows(counters, events.take(count)),
{
    let shorter = events.take(count);
    assert forall|i: int| 0 <= i < shorter.len() implies #[trigger] params.permits(
        state_after(counters, shorter.take(i)),
        shorter[i],
    ) by {
        assert(shorter.take(i) =~= events.take(i));
        assert(params.permits(state_after(counters, events.take(i)), events[i]));
    }
}

/// The events of a session with one more transaction.
pub proof fn lemma_session_events_push(session: Seq<TransactionView>, transaction: TransactionView)
    ensures
        session_events(session.push(transaction)) == session_events(session)
            + transaction.events,
{
    assert(session.push(transaction).drop_last() =~= session);
}

/// The events of a history with one more session.
pub proof fn lemma_history_events_push(
    history: Seq<Seq<TransactionView>>,
    session: Seq<TransactionView>,
)
    ensures
        history_events(history.push(session)) == history_events(history) + session_events(
            session,
        ),
{
    assert(history.push(session).drop_last() =~= history);
}

/// Transactions of sizes that the parameters allow have together no more
/// events than as many transactions of the largest size.
pub proof fn lemma_session_events_bounded(params: HistoryParams, session: Seq<TransactionView>)
    requires
        forall|t: int|
            0 <= t < session.len() ==> params.permits_size(
                (#[trigger] session[t]).events.len() as int,
            ),
    ensures
        session_events(session).len() <= session.len() * params.largest_size(),
    decreases session.len(),
{
    if session.len() > 0 {
        let earlier = session.drop_last();
        assert forall|t: int| 0 <= t < earlier.len() implies params.permits_size(
            (#[trigger] earlier[t]).events.len() as int,
        ) by {
            assert(earlier[t] == session[t]);
        }
        lemma_session_events_bounded(params, earlier);
        assert(params.permits_size(session[session.len() - 1].events.len() as int));
        assert(session.len() * params.largest_size() == earlier.len() * params.largest_size()
            + params.largest_size()) by (nonlinear_arith)
            requires
                session.len() == earlier.len() + 1,
        ;
    }
}

/// No transaction of a history that may come out of a run is empty.
pub proof fn lemma_transactions_not_empty(
    params: HistoryParams,
    history: Seq<Seq<TransactionView>>,
)
    requires
        params.valid(),
        params.describes(history),
    ensures
        forall|s: int, t: int|
            0 <= s < history.len() && 0 <= t < history[s].len() ==> 1 <= (
            #[trigger] history[s][t]).events.len(),
{
    assert forall|s: int, t: int|
        0 <= s < history.len() && 0 <= t < history[s].len() implies 1 <= (
    #[trigger] history[s][t]).events.len() by {
        assert(params.shapes(history[s]));
    }
}

/// The counters bound the values written: in a run that follows the rules,
/// every write carries a value from one up to the highest that its variable
/// has reached.
pub proof fn lemma_written_values_bounded(
    params: HistoryParams,
    counters: Map<usize, usize>,
    events: Seq<Event>,
)
    requires
        params.follows(counters, events),
    ensures
        forall|j: int|
            0 <= j < events.len() && (#[trigger] events[j]).write ==> 1 <= events[j].value
                <= highest(state_after(counters, events), events[j].variable),
    decreases events.len(),
{
    if events.len() > 0 {
        let last = events.len() - 1;
        let earlier = events.drop_last();
        assert(earlier =~= events.take(last));
        lemma_follows_take(params, counters, events, last);
        lemma_written_values_bounded(params, counters, earlier);
        assert(params.permits(state_after(counters, events.take(last)), events[last]));
        assert forall|j: int| 0 <= j < events.len() && (#[trigger] events[j]).write implies 1
            <= events[j].value <= highest(state_after(counters, events), events[j].variable) by {
            if j < last {
                assert(earlier[j] == events[j]);
                assert(highest(state_after(counters, earlier), events[j].variable) <= highest(
                    state_after(counters, events),
                    events[j].variable,
                ));
            }
        }
    }
}

/// Every value that a counter has passed was written: whatever lies above
/// where the counter of a variable began and not above where it ended is the
/// value of a write to that variable.
pub proof fn lemma_counted_values_issued(counters: Map<usize, usize>, events: Seq<Event>)
    ensures
        forall|variable: usize, value: usize|
            highest(counters, variable) < value <= highest(
                state_after(counters, events),
                variable,
            ) ==> #[trigger] issued(events, variable, value),
    decreases events.len(),
{
    if events.len() > 0 {
        let last = events.len() - 1;
        let earlier = events.drop_last();
        lemma_counted_values_issued(counters, earlier);
        assert forall|variable: usize, value: usize|
            highest(counters, variable) < value <= highest(
                state_after(counters, events),
                variable,
            ) implies #[trigger] issued(events, variable, value) by {
            if value <= highest(state_after(counters, earlier), variable) {
                assert(issued(earlier, variable, value));
                let j = choose|j: int|
                    0 <= j < earlier.len() && (#[trigger] earlier[j]).write && earlier[j].variable
                        == variable && earlier[j].value == value;
                assert(events[j] == earlier[j]);
            } else {
                assert(events[last].write && events[last].variable == variable
                    && events[last].value == value);
            }
        }
    }
}

/// The fresh values of a variable count up: the first is one more than where
/// its counter began, each later one is one more than the one before, and
/// the last is where its counter ended.
pub proof fn lemma_fresh_values_from(
    counters: Map<usize, usize>,
    events: Seq<Event>,
    variable: usize,
)
    ensures
        fresh_values(counters, events, variable).len() == highest(
            state_after(counters, events),
            variable,
        ) - highest(counters, variable),
        forall|k: int|
            0 <= k < fresh_values(counters, events, variable).len() ==> (#[trigger] fresh_values(
                counters,
                events,
                variable,
            )[k]) == highest(counters, variable) + k + 1,
    decreases events.len(),
{
    if events.len() > 0 {
        lemma_fresh_values_from(counters, events.drop_last(), variable);
    }
}

/// In a run, the values that were new when they were written to a variable
/// are 1, 2, 3 and so on, in the order of the writes; and a write carries a
/// new value exactly when no earlier write carried that value to its
/// variable.
pub proof fn lemma_fresh_values_count_up(params: HistoryParams, events: Seq<Event>, variable: usize)
    requires
        params.follows(Map::empty(), events),
    ensures
        forall|k: int|
            0 <= k < fresh_values(Map::empty(), events, variable).len() ==> (#[trigger] fresh_values(
                Map::empty(),
                events,
                variable,
            )[k]) == k + 1,
        forall|i: int|
            0 <= i < events.len() && (#[trigger] events[i]).write ==> (is_fresh(
                state_after(Map::empty(), events.take(i)),
                events[i].variable,
                events[i].value,
            ) <==> !repeats_earlier(events, i)),
{
    let start = Map::<usize, usize>::empty();
    lemma_fresh_values_from(start, events, variable);
    assert forall|i: int| 0 <= i < events.len() && (#[trigger] events[i]).write implies (is_fresh(
        state_after(start, events.take(i)),
        events[i].variable,
        events[i].value,
    ) <==> !repeats_earlier(events, i)) by {
        let earlier = events.take(i);
        let now = state_after(start, earlier);
        lemma_follows_take(params, start, events, i);
        lemma_written_values_bounded(params, start, earlier);
        lemma_counted_values_issued(start, earlier);
        assert(params.permits(now, events[i]));
        if is_fresh(now, events[i].variable, events[i].value) {
            if issued(earlier, events[i].variable, events[i].value) {
                let j = choose|j: int|
                    0 <= j < earlier.len() && (#[trigger] earlier[j]).write && earlier[j].variable
                        == events[i].variable && earlier[j].value == events[i].value;
                assert(earlier[j].value <= highest(now, earlier[j].variable));
            }
        } else {
            assert(issued(earlier, events[i].variable, events[i].value));
        }
    }
}

/// Where no value is ever reused, no two writes to one variable carry the
/// same value.
pub proof fn lemma_without_reuse_writes_distinct(params: HistoryParams, events: Seq<Event>)
    requires
        params.follows(Map::empty(), events),
        params.repeated_value_proportion.is_never(),
    ensures
        writes_distinct(events),
{
    let start = Map::<usize, usize>::empty();
    assert forall|i: int, j: int|
        0 <= i < j < events.len() && (#[trigger] events[i]).write && (#[trigger] events[j]).write
            && events[i].variable == events[j].variable implies events[i].value
        != events[j].value by {
        let earlier = events.take(j);
        lemma_follows_take(params, start, events, j);
        lemma_written_values_bounded(params, start, earlier);
        assert(params.permits(state_after(start, earlier), events[j]));
        assert(earlier[i] == events[i]);
        assert(earlier[i].value <= highest(state_after(start, earlier), earlier[i].variable));
    }
}

/// Where a value is reused whenever there is one, every write to a variable
/// that was written before repeats a value written to it before.
pub proof fn lemma_with_reuse_rewrites_repeat(params: HistoryParams, events: Seq<Event>)
    requires
        params.follows(Map::empty(), events),
        params.repeated_value_proportion.is_certain(),
    ensures
        rewrites_repeat(events),
{
    let start = Map::<usize, usize>::empty();
    assert forall|i: int| 0 <= i < events.len() && #[trigger] rewrites(events, i) implies
        repeats_earlier(events, i) by {
        let earlier = events.take(i);
        let now = state_after(start, earlier);
        lemma_follows_take(params, start, events, i);
        lemma_written_values_bounded(params, start, earlier);
        lemma_counted_values_issued(start, earlier);
        assert(params.permits(now, events[i]));
        let j = choose|j: int|
            0 <= j < earlier.len() && (#[trigger] earlier[j]).write && earlier[j].variable
                == events[i].variable;
        assert(1 <= earlier[j].value <= highest(now, earlier[j].variable));
        assert(issued(earlier, events[i].variable, events[i].value));
    }
}

/// Where every event is a read for certain, a run holds reads only.
pub proof fn lemma_certain_reads(params: HistoryParams, events: Seq<Event>)
    requires
        params.follows(Map::empty(), events),
        params.read_probability.is_certain(),
    ensures
        all_reads(events),
{
    assert forall|i: int| 0 <= i < events.len() implies !(#[trigger] events[i]).write by {
        assert(params.permits(state_after(Map::empty(), events.take(i)), events[i]));
    }
}

/// Where no event is ever a read, a run holds writes only.
pub proof fn lemma_certain_writes(params: HistoryParams, events: Seq<Event>)
    requires
        params.follows(Map::empty(), events),
        params.read_probability.is_never(),
    ensures
        all_writes(events),
{
    assert forall|i: int| 0 <= i < events.len() implies (#[trigger] events[i]).write by {
        assert(params.permits(state_after(Map::empty(), events.take(i)), events[i]));
    }
}

} // verus!
