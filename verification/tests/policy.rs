use history_gen::{
    GenerationError, HistoryParams, Ratio, SamplerError, SizeRange, TransactionBuilder,
    VariableSampler,
};
use rand::rngs::ThreadRng;

struct First;

impl VariableSampler for First {
    fn sample(&self, _rng: &mut ThreadRng) -> Result<usize, SamplerError> {
        Ok(0)
    }
}

fn plain(sampler: &First) -> HistoryParams<'_> {
    HistoryParams {
        n_hist: 1,
        n_node: 2,
        n_variable: 1,
        n_transaction: 2,
        n_event: 3,
        read_probability: Ratio::new(1, 2),
        longtxn_proportion: Ratio::new(1, 2),
        longtxn_size: Ratio::new(2, 1),
        key_distribution: sampler,
        random_txn_size: false,
        repeated_value_proportion: Ratio::new(1, 2),
    }
}

fn refused(params: HistoryParams) -> bool {
    match TransactionBuilder::new(params) {
        Ok(_) => false,
        Err(error) => error == GenerationError::Configuration,
    }
}

#[test]
fn sample_in_range_is_taken() {
    let sampler = First;
    let params = HistoryParams { n_variable: 4, ..plain(&sampler) };
    assert_eq!(params.accept(Ok(0)), Ok(0));
    assert_eq!(params.accept(Ok(3)), Ok(3));
}

#[test]
fn sample_out_of_range_is_an_error() {
    let sampler = First;
    let params = HistoryParams { n_variable: 4, ..plain(&sampler) };
    assert_eq!(
        params.accept(Ok(4)),
        Err(GenerationError::Sampler(SamplerError::OutOfRange(4)))
    );
    assert_eq!(
        params.accept(Ok(usize::MAX)),
        Err(GenerationError::Sampler(SamplerError::OutOfRange(usize::MAX)))
    );
}

#[test]
fn sampler_error_is_passed_on_unchanged() {
    let sampler = First;
    let params = plain(&sampler);
    assert_eq!(
        params.accept(Err(SamplerError::Unavailable)),
        Err(GenerationError::Sampler(SamplerError::Unavailable))
    );
    assert_eq!(
        params.accept(Err(SamplerError::OutOfRange(0))),
        Err(GenerationError::Sampler(SamplerError::OutOfRange(0)))
    );
}

#[test]
fn fixed_short_size_is_the_event_count() {
    let sampler = First;
    let params = plain(&sampler);
    assert_eq!(params.short_range(), Some(SizeRange { min: 3, max: 3 }));
    let one = HistoryParams { n_event: 1, ..params };
    assert_eq!(one.short_range(), Some(SizeRange { min: 1, max: 1 }));
    let most = HistoryParams { n_event: usize::MAX, ..params };
    assert_eq!(most.short_range(), Some(SizeRange { min: usize::MAX, max: usize::MAX }));
}

#[test]
fn random_short_sizes_end_below_twice_the_event_count_less_one() {
    let sampler = First;
    let params = HistoryParams { random_txn_size: true, ..plain(&sampler) };
    assert_eq!(params.short_range(), Some(SizeRange { min: 1, max: 4 }));
    let two = HistoryParams { n_event: 2, ..params };
    assert_eq!(two.short_range(), Some(SizeRange { min: 1, max: 2 }));
    let ten = HistoryParams { n_event: 10, ..params };
    assert_eq!(ten.short_range(), Some(SizeRange { min: 1, max: 18 }));
}

#[test]
fn short_sizes_need_events() {
    let sampler = First;
    let fixed = HistoryParams { n_event: 0, ..plain(&sampler) };
    assert_eq!(fixed.short_range(), None);
    let random = HistoryParams { n_event: 0, random_txn_size: true, ..plain(&sampler) };
    assert_eq!(random.short_range(), None);
    let single = HistoryParams { n_event: 1, random_txn_size: true, ..plain(&sampler) };
    assert_eq!(single.short_range(), None);
    let huge = HistoryParams { n_event: usize::MAX, random_txn_size: true, ..plain(&sampler) };
    assert_eq!(huge.short_range(), None);
}

#[test]
fn fixed_long_size_is_the_rounded_product() {
    let sampler = First;
    let params = plain(&sampler);
    assert_eq!(params.long_range(), Some(SizeRange { min: 6, max: 6 }));
    let half_up = HistoryParams { longtxn_size: Ratio::new(5, 2), ..params };
    assert_eq!(half_up.long_range(), Some(SizeRange { min: 8, max: 8 }));
    let down = HistoryParams { longtxn_size: Ratio::new(4, 10), ..params };
    assert_eq!(down.long_range(), Some(SizeRange { min: 1, max: 1 }));
    let third = HistoryParams { n_event: 10, longtxn_size: Ratio::new(1, 3), ..params };
    assert_eq!(third.long_range(), Some(SizeRange { min: 3, max: 3 }));
}

#[test]
fn random_long_sizes_run_from_half_to_one_and_a_half() {
    let sampler = First;
    let params = HistoryParams { random_txn_size: true, ..plain(&sampler) };
    assert_eq!(params.long_range(), Some(SizeRange { min: 3, max: 8 }));
    let odd = HistoryParams { longtxn_size: Ratio::new(1, 1), ..params };
    assert_eq!(odd.long_range(), Some(SizeRange { min: 2, max: 4 }));
    let ten = HistoryParams { n_event: 10, longtxn_size: Ratio::new(3, 1), ..params };
    assert_eq!(ten.long_range(), Some(SizeRange { min: 15, max: 44 }));
}

#[test]
fn long_sizes_must_not_be_empty() {
    let sampler = First;
    let params = plain(&sampler);
    let nothing = HistoryParams { longtxn_size: Ratio::new(0, 1), ..params };
    assert_eq!(nothing.long_range(), None);
    let small = HistoryParams { longtxn_size: Ratio::new(1, 10), ..params };
    assert_eq!(small.long_range(), None);
    let no_events = HistoryParams { n_event: 0, ..params };
    assert_eq!(no_events.long_range(), None);
    let no_number = HistoryParams { longtxn_size: Ratio::new(2, 0), ..params };
    assert_eq!(no_number.long_range(), None);
    let low_zero =
        HistoryParams { longtxn_size: Ratio::new(1, 4), random_txn_size: true, ..params };
    assert_eq!(low_zero.long_range(), None);
    let one_value = HistoryParams {
        n_event: 1,
        longtxn_size: Ratio::new(1, 1),
        random_txn_size: true,
        ..params
    };
    assert_eq!(one_value.long_range(), Some(SizeRange { min: 1, max: 1 }));
    let too_large = HistoryParams {
        n_event: usize::MAX,
        longtxn_size: Ratio::new(2, 1),
        ..params
    };
    assert_eq!(too_large.long_range(), None);
}

#[test]
fn builder_holds_the_sizes() {
    let sampler = First;
    let builder = TransactionBuilder::new(plain(&sampler)).unwrap();
    assert_eq!(builder.short, Some(SizeRange { min: 3, max: 3 }));
    assert_eq!(builder.long, Some(SizeRange { min: 6, max: 6 }));
    assert_eq!(builder.params.n_event, 3);
    assert_eq!(builder.params.n_node, 2);
}

#[test]
fn builder_leaves_out_sizes_that_cannot_occur() {
    let sampler = First;
    let never_long =
        HistoryParams { longtxn_proportion: Ratio::new(0, 5), ..plain(&sampler) };
    let builder = TransactionBuilder::new(never_long).unwrap();
    assert_eq!(builder.short, Some(SizeRange { min: 3, max: 3 }));
    assert_eq!(builder.long, None);
    let always_long =
        HistoryParams { longtxn_proportion: Ratio::new(5, 5), ..plain(&sampler) };
    let builder = TransactionBuilder::new(always_long).unwrap();
    assert_eq!(builder.short, None);
    assert_eq!(builder.long, Some(SizeRange { min: 6, max: 6 }));
}

#[test]
fn probability_above_one_is_refused() {
    let sampler = First;
    let params = plain(&sampler);
    assert!(refused(HistoryParams { read_probability: Ratio::new(3, 2), ..params }));
    assert!(refused(HistoryParams { longtxn_proportion: Ratio::new(3, 2), ..params }));
    assert!(refused(HistoryParams { repeated_value_proportion: Ratio::new(3, 2), ..params }));
}

#[test]
fn ratio_without_denominator_is_refused() {
    let sampler = First;
    let params = plain(&sampler);
    assert!(refused(HistoryParams { read_probability: Ratio::new(0, 0), ..params }));
    assert!(refused(HistoryParams { longtxn_proportion: Ratio::new(0, 0), ..params }));
    assert!(refused(HistoryParams { repeated_value_proportion: Ratio::new(0, 0), ..params }));
    assert!(refused(HistoryParams { longtxn_size: Ratio::new(1, 0), ..params }));
}

#[test]
fn empty_key_space_is_refused() {
    let sampler = First;
    assert!(refused(HistoryParams { n_variable: 0, ..plain(&sampler) }));
}

#[test]
fn transactions_without_events_are_refused() {
    let sampler = First;
    let params = plain(&sampler);
    assert!(refused(HistoryParams { n_event: 0, ..params }));
    assert!(refused(HistoryParams {
        n_event: 0,
        longtxn_proportion: Ratio::never(),
        ..params
    }));
    assert!(refused(HistoryParams {
        n_event: 0,
        longtxn_proportion: Ratio::certain(),
        ..params
    }));
    assert!(refused(HistoryParams { longtxn_size: Ratio::new(1, 10), ..params }));
}

#[test]
fn empty_size_range_is_refused() {
    let sampler = First;
    let params = HistoryParams { random_txn_size: true, ..plain(&sampler) };
    assert!(refused(HistoryParams { n_event: 1, ..params }));
    assert!(refused(HistoryParams { longtxn_size: Ratio::new(1, 4), ..params }));
}

#[test]
fn sizes_that_cannot_occur_are_not_checked() {
    let sampler = First;
    let params = plain(&sampler);
    let never_long = HistoryParams {
        longtxn_proportion: Ratio::never(),
        longtxn_size: Ratio::new(0, 1),
        ..params
    };
    assert!(TransactionBuilder::new(never_long).is_ok());
    let always_long = HistoryParams {
        n_event: 1,
        random_txn_size: true,
        longtxn_proportion: Ratio::certain(),
        longtxn_size: Ratio::new(4, 1),
        ..params
    };
    let builder = TransactionBuilder::new(always_long).unwrap();
    assert_eq!(builder.short, None);
    assert_eq!(builder.long, Some(SizeRange { min: 2, max: 5 }));
}

#[test]
fn run_too_large_to_count_is_refused() {
    let sampler = First;
    let params = plain(&sampler);
    assert!(refused(HistoryParams { n_node: usize::MAX, ..params }));
    assert!(refused(HistoryParams { n_node: usize::MAX, n_transaction: usize::MAX, ..params }));
    assert!(refused(HistoryParams {
        n_node: usize::MAX / 6 + 1,
        n_transaction: 1,
        ..params
    }));
    assert!(TransactionBuilder::new(HistoryParams {
        n_node: usize::MAX / 6,
        n_transaction: 1,
        ..params
    })
    .is_ok());
    assert!(TransactionBuilder::new(HistoryParams {
        n_node: usize::MAX,
        n_transaction: 0,
        ..params
    })
    .is_ok());
}

#[test]
fn fixed_size_is_chosen_without_a_draw() {
    let sampler = First;
    let mut rng = rand::thread_rng();
    let short =
        TransactionBuilder::new(HistoryParams { longtxn_proportion: Ratio::never(), ..plain(&sampler) })
            .unwrap();
    let long = TransactionBuilder::new(HistoryParams {
        longtxn_proportion: Ratio::certain(),
        ..plain(&sampler)
    })
    .unwrap();
    for _ in 0..50 {
        assert_eq!(short.choose_size(&mut rng), 3);
        assert_eq!(long.choose_size(&mut rng), 6);
    }
}

#[test]
fn mixed_fixed_sizes_are_short_or_long() {
    let sampler = First;
    let mut rng = rand::thread_rng();
    let builder = TransactionBuilder::new(plain(&sampler)).unwrap();
    let mut short = 0;
    let mut long = 0;
    for _ in 0..400 {
        match builder.choose_size(&mut rng) {
            3 => short += 1,
            6 => long += 1,
            other => panic!("size {}", other),
        }
    }
    assert!(short > 0);
    assert!(long > 0);
}

#[test]
fn random_sizes_stay_in_their_range() {
    let sampler = First;
    let mut rng = rand::thread_rng();
    let params = HistoryParams { random_txn_size: true, ..plain(&sampler) };
    let short =
        TransactionBuilder::new(HistoryParams { longtxn_proportion: Ratio::never(), ..params })
            .unwrap();
    let long =
        TransactionBuilder::new(HistoryParams { longtxn_proportion: Ratio::certain(), ..params })
            .unwrap();
    let mut seen_short = [false; 5];
    let mut seen_long = [false; 9];
    for _ in 0..1000 {
        let size = short.choose_size(&mut rng);
        assert!(1 <= size && size <= 4);
        seen_short[size] = true;
        let size = long.choose_size(&mut rng);
        assert!(3 <= size && size <= 8);
        seen_long[size] = true;
    }
    assert_eq!(seen_short, [false, true, true, true, true]);
    assert_eq!(seen_long, [false, false, false, true, true, true, true, true, true]);
}
