//! The mathematical model of a run: per-variable counters, the effect of an
//! event on them, and the events of a history in the order of generation.

use crate::event::{Event, TransactionView};
use crate::ratio::Ratio;
use vstd::prelude::*;

verus! {

/// The highest value written to `variable` so far; zero while it has never
/// been written.
pub open spec fn highest(counters: Map<usize, usize>, variable: usize) -> nat {
    if counters.contains_key(variable) {
        counters[variable] as nat
    } else {
        0
    }
}

/// `value` is new for `variable`: one more than every value written before.
pub open spec fn is_fresh(counters: Map<usize, usize>, variable: usize, value: usize) -> bool {
    value == highest(counters, variable) + 1
}

/// `value` was issued for `variable` before.
pub open spec fn is_repeat(counters: Map<usize, usize>, variable: usize, value: usize) -> bool {
    1 <= value <= highest(counters, variable)
}

/// The values that a write to `variable` may carry when earlier values are
/// reused with probability `reuse`: the first write is always fresh, a later
/// one is fresh unless reuse is certain, and repeats unless reuse is ruled
/// out.
pub open spec fn may_assign(
    counters: Map<usize, usize>,
    reuse: Ratio,
    variable: usize,
    value: usize,
) -> bool {
    ||| is_fresh(counters, variable, value) && (highest(counters, variable) == 0
        || !reuse.is_certain())
    ||| is_repeat(counters, variable, value) && !reuse.is_never()
}

/// The counters once `value` has been written to `variable`.
pub open spec fn record(counters: Map<usize, usize>, variable: usize, value: usize) -> Map<
    usize,
    usize,
> {
    if is_fresh(counters, variable, value) {
        counters.insert(variable, value)
    } else {
        counters
    }
}

/// The counters once `event` has happened.
pub open spec fn after(counters: Map<usize, usize>, event: Event) -> Map<usize, usize> {
    if event.write {
        record(counters, event.variable, event.value)
    } else {
        counters
    }
}

/// The counters once `events` have happened, first to last.
pub open spec fn state_after(counters: Map<usize, usize>, events: Seq<Event>) -> Map<usize, usize>
    decreases events.len(),
{
    if events.len() == 0 {
        counters
    } else {
        after(state_after(counters, events.drop_last()), events.last())
    }
}

/// Every counter can still grow by `amount` without leaving `usize`.
pub open spec fn headroom(counters: Map<usize, usize>, amount: nat) -> bool {
    forall|variable: usize| #[trigger] highest(counters, variable) + amount <= usize::MAX
}

/// The events of a session in program order.
pub open spec fn session_events(session: Seq<TransactionView>) -> Seq<Event>
    decreases session.len(),
{
    if session.len() == 0 {
        Seq::empty()
    } else {
        session_events(session.drop_last()) + session.last().events
    }
}

/// The events of a history in the order in which a run generates them:
/// session after session, each in program order.
pub open spec fn history_events(history: Seq<Seq<TransactionView>>) -> Seq<Event>
    decreases history.len(),
{
    if history.len() == 0 {
        Seq::empty()
    } else {
        history_events(history.drop_last()) + session_events(history.last())
    }
}

/// Every event is a read.
pub open spec fn all_reads(events: Seq<Event>) -> bool {
    forall|i: int| 0 <= i < events.len() ==> !(#[trigger] events[i]).write
}

/// Every event is a write.
pub open spec fn all_writes(events: Seq<Event>) -> bool {
    forall|i: int| 0 <= i < events.len() ==> (#[trigger] events[i]).write
}

/// No two writes to one variable carry the same value.
pub open spec fn writes_distinct(events: Seq<Event>) -> bool {
    forall|i: int, j: int|
        0 <= i < j < events.len() && (#[trigger] events[i]).write && (#[trigger] events[j]).write
            && events[i].variable == events[j].variable ==> events[i].value != events[j].value
}

/// One of `events` writes to `variable`.
pub open spec fn written(events: Seq<Event>, variable: usize) -> bool {
    exists|j: int|
        0 <= j < events.len() && (#[trigger] events[j]).write && events[j].variable == variable
}

/// One of `events` writes `value` to `variable`.
pub open spec fn issued(events: Seq<Event>, variable: usize, value: usize) -> bool {
    exists|j: int|
        0 <= j < events.len() && (#[trigger] events[j]).write && events[j].variable == variable
            && events[j].value == value
}

/// The event at `at` is a write to a variable that an earlier event wrote to.
pub open spec fn rewrites(events: Seq<Event>, at: int) -> bool {
    events[at].write && written(events.take(at), events[at].variable)
}

/// The event at `at` is a write of a value that an earlier event wrote to
/// the same variable.
pub open spec fn repeats_earlier(events: Seq<Event>, at: int) -> bool {
    events[at].write && issued(events.take(at), events[at].variable, events[at].value)
}

/// Every write to a variable that was written before repeats a value that was
/// written to it before.
pub open spec fn rewrites_repeat(events: Seq<Event>) -> bool {
    forall|i: int|
        0 <= i < events.len() && #[trigger] rewrites(events, i) ==> repeats_earlier(events, i)
}

/// The values of the writes to `variable` that were fresh when they happened,
/// in the order of the events.
pub open spec fn fresh_values(counters: Map<usize, usize>, events: Seq<Event>, variable: usize) -> Seq<
    usize,
>
    decreases events.len(),
{
    if events.len() == 0 {
        Seq::empty()
    } else {
        let earlier = events.drop_last();
        let event = events.last();
        let values = fresh_values(counters, earlier, variable);
        if event.write && event.variable == variable && is_fresh(
            state_after(counters, earlier),
            variable,
            event.value,
        ) {
            values.push(event.value)
        } else {
            values
        }
    }
}

} // verus!
