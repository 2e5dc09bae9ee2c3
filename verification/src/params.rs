//! The configuration of a run and the rules that it lays down.

use crate::event::{Event, TransactionView};
use crate::model::{history_events, may_assign, state_after};
use crate::ratio::{lemma_rounded_half, round_quotient, rounded, rounded_half, Ratio};
use crate::sampler::{SamplerError, VariableSampler};
use vstd::prelude::*;

verus! {

/// Why no history was generated.
#[derive(Clone, Copy, Debug, PartialEq, Eq)]
pub enum GenerationError {
    /// The parameters do not describe a run; nothing was generated.
    Configuration,
    /// The sampler failed; the run was given up.
    Sampler(SamplerError),
}

/// The transaction sizes from `min` to `max`, both included.
#[derive(Clone, Copy, Debug, PartialEq, Eq)]
pub struct SizeRange {
    pub min: usize,
    pub max: usize,
}

/// The sizes from `min` to `max` can be drawn from: there is one, none is
/// zero, and all can be represented.
pub open spec fn usable(min: int, max: int) -> bool {
    1 <= min <= max <= usize::MAX
}

/// The configuration of a batch of runs.
///
/// `n_hist` histories are generated, each with `n_node` sessions of
/// `n_transaction` transactions over `n_variable` variables. An event is a
/// read with probability `read_probability`. A transaction is long with
/// probability `longtxn_proportion` and short otherwise. With
/// `random_txn_size` off, a short transaction has `n_event` events and a long
/// one `n_event * longtxn_size`, rounded. With it on, the size of a short
/// transaction is drawn from `1` up to but not including `2 * n_event - 1`,
/// and that of a long one from half to one and a half times
/// `n_event * longtxn_size`, both rounded, the upper end not included. A write
/// to a variable that was written before repeats an earlier value with
/// probability `repeated_value_proportion`.
#[derive(Clone, Copy)]
pub struct HistoryParams<'a> {
    pub n_hist: usize,
    pub n_node: usize,
    pub n_variable: usize,
    pub n_transaction: usize,
    pub n_event: usize,
    pub read_probability: Ratio,
    pub longtxn_proportion: Ratio,
    pub longtxn_size: Ratio,
    pub key_distribution: &'a dyn VariableSampler,
    pub random_txn_size: bool,
    pub repeated_value_proportion: Ratio,
}

impl<'a> HistoryParams<'a> {
    /// Some transaction may come out short.
    pub open spec fn may_be_short(self) -> bool {
        !self.longtxn_proportion.is_certain()
    }

    /// Some transaction may come out long.
    pub open spec fn may_be_long(self) -> bool {
        !self.longtxn_proportion.is_never()
    }

    /// The least size of a short transaction.
    pub open spec fn short_min(self) -> int {
        if self.random_txn_size {
            1
        } else {
            self.n_event as int
        }
    }

    /// The greatest size of a short transaction.
    pub open spec fn short_max(self) -> int {
        if self.random_txn_size {
            2 * self.n_event - 2
        } else {
            self.n_event as int
        }
    }

    /// The least size of a long transaction.
    pub open spec fn long_min(self) -> int {
        let product = (self.n_event * self.longtxn_size.numerator) as nat;
        let unit = self.longtxn_size.denominator as nat;
        if self.random_txn_size {
            rounded_half(product, unit) as int
        } else {
            rounded(product, unit) as int
        }
    }

    /// The greatest size of a long transaction.
    pub open spec fn long_max(self) -> int {
        let product = (self.n_event * self.longtxn_size.numerator) as nat;
        let unit = self.longtxn_size.denominator as nat;
        if self.random_txn_size {
            rounded_half(3 * product, unit) - 1
        } else {
            rounded(product, unit) as int
        }
    }

    /// The sizes of short transactions, where there may be short ones and
    /// their sizes are usable.
    pub open spec fn short_sizes(self) -> Option<SizeRange> {
        if self.may_be_short() && usable(self.short_min(), self.short_max()) {
            Some(SizeRange { min: self.short_min() as usize, max: self.short_max() as usize })
        } else {
            None
        }
    }

    /// The sizes of long transactions, where there may be long ones, the size
    /// factor is a number and the sizes are usable.
    pub open spec fn long_sizes(self) -> Option<SizeRange> {
        if self.may_be_long() && self.longtxn_size.is_number() && usable(
            self.long_min(),
            self.long_max(),
        ) {
            Some(SizeRange { min: self.long_min() as usize, max: self.long_max() as usize })
        } else {
            None
        }
    }

    /// The greatest size that a transaction may have.
    pub open spec fn largest_size(self) -> int {
        let short = if self.may_be_short() {
            self.short_max()
        } else {
            0
        };
        let long = if self.may_be_long() {
            self.long_max()
        } else {
            0
        };
        if short <= long {
            long
        } else {
            short
        }
    }

    /// The parameters describe a run: the probabilities are probabilities,
    /// the size factor is a number, there is a variable, the sizes of the
    /// transactions that may occur are usable, and no more events can occur in
    /// one run than `usize` can count.
    pub open spec fn valid(self) -> bool {
        &&& self.read_probability.is_probability()
        &&& self.longtxn_proportion.is_probability()
        &&& self.repeated_value_proportion.is_probability()
        &&& self.longtxn_size.is_number()
        &&& self.n_variable > 0
        &&& self.may_be_short() ==> usable(self.short_min(), self.short_max())
        &&& self.may_be_long() ==> usable(self.long_min(), self.long_max())
        &&& self.n_node * self.n_transaction * self.largest_size() <= usize::MAX
    }

    /// A transaction may have `size` events.
    pub open spec fn permits_size(self, size: int) -> bool {
        ||| self.may_be_short() && self.short_min() <= size <= self.short_max()
        ||| self.may_be_long() && self.long_min() <= size <= self.long_max()
    }

    /// `event` may come next when the counters stand at `counters`.
    pub open spec fn permits(self, counters: Map<usize, usize>, event: Event) -> bool {
        &&& !event.success
        &&& event.variable < self.n_variable
        &&& if event.write {
            &&& !self.read_probability.is_certain()
            &&& may_assign(
                counters,
                self.repeated_value_proportion,
                event.variable,
                event.value,
            )
        } else {
            &&& !self.read_probability.is_never()
            &&& event.value == 0
        }
    }

    /// Each of `events` may come next after those before it, when the
    /// counters start at `counters`.
    pub open spec fn follows(self, counters: Map<usize, usize>, events: Seq<Event>) -> bool {
        forall|i: int|
            0 <= i < events.len() ==> #[trigger] self.permits(
                state_after(counters, events.take(i)),
                events[i],
            )
    }

    /// `session` has the shape of a session of a run: the transactions asked
    /// for, none of them executed, each of a size that the parameters allow.
    pub open spec fn shapes(self, session: Seq<TransactionView>) -> bool {
        &&& session.len() == self.n_transaction
        &&& forall|t: int|
            0 <= t < session.len() ==> {
                &&& !(#[trigger] session[t]).success
                &&& self.permits_size(session[t].events.len() as int)
            }
    }

    /// `history` may come out of a run: it has the sessions asked for, each
    /// of the shape asked for, and its events follow the rules from the first
    /// of the first session to the last of the last.
    pub open spec fn describes(self, history: Seq<Seq<TransactionView>>) -> bool {
        &&& history.len() == self.n_node
        &&& forall|s: int| 0 <= s < history.len() ==> self.shapes(#[trigger] history[s])
        &&& self.follows(Map::empty(), history_events(history))
    }

    /// What becomes of the sampler's answer: an index of a variable is taken,
    /// an error is passed on as it is, and any other index is an error.
    pub open spec fn accepted(self, sampled: Result<usize, SamplerError>) -> Result<
        usize,
        GenerationError,
    > {
        match sampled {
            Ok(variable) => if variable < self.n_variable {
                Ok(variable)
            } else {
                Err(GenerationError::Sampler(SamplerError::OutOfRange(variable)))
            },
            Err(error) => Err(GenerationError::Sampler(error)),
        }
    }

    /// Decides what becomes of the sampler's answer.
    pub fn accept(&self, sampled: Result<usize, SamplerError>) -> (outcome: Result<
        usize,
        GenerationError,
    >)
        ensures
            outcome == self.accepted(sampled),
    {
        match sampled {
            Ok(variable) => if variable < self.n_variable {
                Ok(variable)
            } else {
                Err(GenerationError::Sampler(SamplerError::OutOfRange(variable)))
            },
            Err(error) => Err(GenerationError::Sampler(error)),
        }
    }

    /// The sizes of short transactions, if they are usable.
    pub fn short_range(&self) -> (range: Option<SizeRange>)
        ensures
            range is Some <==> usable(self.short_min(), self.short_max()),
            range matches Some(sizes) ==> sizes.min == self.short_min() && sizes.max
                == self.short_max(),
    {
        if self.random_txn_size {
            if self.n_event < 2 {
                None
            } else {
                match (self.n_event - 1).checked_mul(2) {
                    Some(max) => Some(SizeRange { min: 1, max }),
                    None => None,
                }
            }
        } else if self.n_event >= 1 {
            Some(SizeRange { min: self.n_event, max: self.n_event })
        } else {
            None
        }
    }

    /// The sizes of long transactions, if the size factor is a number and
    /// they are usable.
    pub fn long_range(&self) -> (range: Option<SizeRange>)
        ensures
            range is Some <==> self.longtxn_size.is_number() && usable(
                self.long_min(),
                self.long_max(),
            ),
            range matches Some(sizes) ==> sizes.min == self.long_min() && sizes.max
                == self.long_max(),
    {
        if self.longtxn_size.denominator == 0 {
            return None;
        }
        let count: u128 = self.n_event as u128;
        let factor: u128 = self.longtxn_size.numerator as u128;
        let unit: u128 = self.longtxn_size.denominator as u128;
        assert(count * factor <= 0xFFFF_FFFF_FFFF_FFFF * 0xFFFF_FFFF) by (nonlinear_arith)
            requires
                count <= 0xFFFF_FFFF_FFFF_FFFF,
                factor <= 0xFFFF_FFFF,
        ;
        let product: u128 = count * factor;
        proof {
            lemma_rounded_half(product as nat, unit as nat);
            lemma_rounded_half(3 * product as nat, unit as nat);
        }
        if self.random_txn_size {
            let low: u128 = round_quotient(product, 2 * unit);
            let high: u128 = round_quotient(3 * product, 2 * unit);
            if 1 <= low && low < high && high - 1 <= usize::MAX as u128 {
                Some(SizeRange { min: low as usize, max: (high - 1) as usize })
            } else {
                None
            }
        } else {
            let size: u128 = round_quotient(product, unit);
            if 1 <= size && size <= usize::MAX as u128 {
                Some(SizeRange { min: size as usize, max: size as usize })
            } else {
                None
            }
        }
    }
}

} // verus!
