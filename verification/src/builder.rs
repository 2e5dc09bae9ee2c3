//! Transactions, built event by event.

use crate::assigner::ValueAssigner;
use crate::event::{Event, Transaction};
use crate::laws::{lemma_follows_push, lemma_growth, lemma_state_after_push};
use crate::model::{after, headroom, highest, state_after};
use crate::params::{GenerationError, HistoryParams, SizeRange};
use crate::random::{draw, flip};
use rand::rngs::ThreadRng;
use vstd::pervasive::unreached;
use vstd::prelude::*;

verus! {

/// Builds the transactions of a run.
///
/// A builder exists only for parameters that describe a run. It holds the
/// sizes that its transactions may have, worked out once.
pub struct TransactionBuilder<'a> {
    pub params: HistoryParams<'a>,
    pub short: Option<SizeRange>,
    pub long: Option<SizeRange>,
}

impl<'a> TransactionBuilder<'a> {
    /// The parameters describe a run, and the sizes held are theirs.
    pub open spec fn wf(self) -> bool {
        &&& self.params.valid()
        &&& self.short == self.params.short_sizes()
        &&& self.long == self.params.long_sizes()
    }

    /// Checks the parameters and works out the sizes of the transactions.
    ///
    /// Parameters that do not describe a run are refused here, before
    /// anything is generated.
    pub fn new(params: HistoryParams<'a>) -> (made: Result<Self, GenerationError>)
        ensures
            made is Ok <==> params.valid(),
            made matches Ok(builder) ==> builder.wf() && builder.params == params,
            made matches Err(error) ==> error == GenerationError::Configuration,
    {
        if !params.read_probability.check_probability()
            || !params.longtxn_proportion.check_probability()
            || !params.repeated_value_proportion.check_probability()
            || params.longtxn_size.denominator == 0 || params.n_variable == 0 {
            return Err(GenerationError::Configuration);
        }
        let mut largest: usize = 0;
        let mut short: Option<SizeRange> = None;
        if params.longtxn_proportion.numerator != params.longtxn_proportion.denominator {
            match params.short_range() {
                Some(sizes) => {
                    largest = sizes.max;
                    short = Some(sizes);
                },
                None => {
                    return Err(GenerationError::Configuration);
                },
            }
        }
        let mut long: Option<SizeRange> = None;
        if params.longtxn_proportion.numerator != 0 {
            match params.long_range() {
                Some(sizes) => {
                    if largest < sizes.max {
                        largest = sizes.max;
                    }
                    long = Some(sizes);
                },
                None => {
                    return Err(GenerationError::Configuration);
                },
            }
        }
        assert(largest == params.largest_size());
        assert(largest >= 1);
        match params.n_node.checked_mul(params.n_transaction) {
            Some(transactions) => match transactions.checked_mul(largest) {
                Some(_) => Ok(TransactionBuilder { params, short, long }),
                None => Err(GenerationError::Configuration),
            },
            None => {
                assert(params.n_node * params.n_transaction * largest > usize::MAX)
                    by (nonlinear_arith)
                    requires
                        params.n_node * params.n_transaction > usize::MAX,
                        largest >= 1,
                ;
                Err(GenerationError::Configuration)
            },
        }
    }

    /// Picks the size of the next transaction: long with the probability that
    /// the parameters give, short otherwise, and within the sizes of its kind;
    /// drawn evenly from them where sizes are random.
    pub fn choose_size(&self, rng: &mut ThreadRng) -> (size: usize)
        requires
            self.wf(),
        ensures
            self.params.permits_size(size as int),
    {
        let sizes: Option<SizeRange> = if flip(rng, self.params.longtxn_proportion) {
            self.long
        } else {
            self.short
        };
        match sizes {
            Some(range) => if self.params.random_txn_size {
                draw(rng, range.min, range.max)
            } else {
                range.min
            },
            None => unreached(),
        }
    }

    /// Generates the next event: a read with the probability that the
    /// parameters give, a write otherwise, of a variable that the sampler
    /// picks. A write takes its value from `assigner`.
    ///
    /// Whatever the sampler answers that is no index of a variable ends the
    /// run, and the counters stay as they were.
    pub fn generate_event(&self, assigner: &mut ValueAssigner, rng: &mut ThreadRng) -> (made:
        Result<Event, GenerationError>)
        requires
            self.wf(),
            headroom(old(assigner)@, 1),
        ensures
            made matches Ok(event) ==> self.params.permits(old(assigner)@, event)
                && final(assigner)@ == after(old(assigner)@, event),
            made matches Err(error) ==> error is Sampler && final(assigner)@ == old(assigner)@,
    {
        let is_read: bool = flip(rng, self.params.read_probability);
        let sampled = self.params.key_distribution.sample(rng);
        match self.params.accept(sampled) {
            Ok(variable) => {
                if is_read {
                    Ok(Event::read(variable))
                } else {
                    assert(highest(assigner@, variable) + 1 <= usize::MAX);
                    let value: usize = assigner.assign_value(
                        variable,
                        self.params.repeated_value_proportion,
                        rng,
                    );
                    Ok(Event::write(variable, value))
                }
            },
            Err(error) => Err(error),
        }
    }

    /// Builds the next transaction: picks its size and generates that many
    /// events, one after the other.
    pub fn build_transaction(&self, assigner: &mut ValueAssigner, rng: &mut ThreadRng) -> (made:
        Result<Transaction, GenerationError>)
        requires
            self.wf(),
            headroom(old(assigner)@, self.params.largest_size() as nat),
        ensures
            made matches Ok(transaction) ==> {
                &&& !transaction.success
                &&& transaction.events.len() >= 1
                &&& self.params.permits_size(transaction.events.len() as int)
                &&& self.params.follows(old(assigner)@, transaction.events@)
                &&& final(assigner)@ == state_after(old(assigner)@, transaction.events@)
            },
            made matches Err(error) ==> error is Sampler,
    {
        let ghost start = assigner@;
        let size: usize = self.choose_size(rng);
        let mut events: Vec<Event> = Vec::new();
        while events.len() < size
            invariant
                self.wf(),
                events.len() <= size <= self.params.largest_size(),
                headroom(start, self.params.largest_size() as nat),
                self.params.follows(start, events@),
                assigner@ == state_after(start, events@),
            decreases size - events.len(),
        {
            proof {
                lemma_growth(start, events@);
            }
            match self.generate_event(assigner, rng) {
                Ok(event) => {
                    proof {
                        lemma_follows_push(self.params, start, events@, event);
                        lemma_state_after_push(start, events@, event);
                    }
                    events.push(event);
                },
                Err(error) => {
                    return Err(error);
                },
            }
        }
        Ok(Transaction { events, success: false })
    }
}

} // verus!
