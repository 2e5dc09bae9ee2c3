use history_gen::{Event, HistParams, History, Timestamp, Transaction};

fn sample_data() -> Vec<Vec<Transaction>> {
    vec![
        vec![
            Transaction { events: vec![Event::write(0, 1), Event::read(1)], success: false },
            Transaction { events: vec![Event::read(0)], success: false },
        ],
        vec![Transaction { events: vec![Event::write(1, 1)], success: false }],
    ]
}

#[test]
fn default_hist_params_are_zero() {
    let params = HistParams::default();
    assert_eq!(params.get_id(), 0);
    assert_eq!(params.get_n_node(), 0);
    assert_eq!(params.get_n_variable(), 0);
    assert_eq!(params.get_n_transaction(), 0);
    assert_eq!(params.get_event(), 0);
}

#[test]
fn set_id_changes_only_the_id() {
    let mut params = HistParams::default();
    params.set_id(12);
    assert_eq!(params.get_id(), 12);
    assert_eq!(params.get_n_node(), 0);
    assert_eq!(params.get_n_variable(), 0);
    assert_eq!(params.get_n_transaction(), 0);
    assert_eq!(params.get_event(), 0);
    params.set_id(3);
    assert_eq!(params.get_id(), 3);
}

#[test]
fn cloned_hist_params_are_equal() {
    let mut params = HistParams::default();
    params.set_id(8);
    let copy = params.clone();
    assert_eq!(copy.get_id(), 8);
    assert_eq!(copy.get_n_node(), 0);
}

#[test]
fn history_hands_back_what_it_was_given() {
    let mut params = HistParams::default();
    params.set_id(5);
    let start = Timestamp { seconds: 100, nanoseconds: 7 };
    let end = Timestamp { seconds: 101, nanoseconds: 9 };
    let history = History::new(params, "made by hand".to_string(), start, end, sample_data());
    assert_eq!(history.get_id(), 5);
    assert_eq!(history.get_params().get_id(), 5);
    assert_eq!(history.get_cloned_params().get_id(), 5);
    assert_eq!(history.get_info(), "made by hand");
    assert_eq!(history.get_start(), start);
    assert_eq!(history.get_end(), end);
    assert_eq!(history.get_data(), &sample_data());
    assert_eq!(history.get_cloned_data(), sample_data());
}

#[test]
fn cloned_data_is_a_copy() {
    let history = History::new(
        HistParams::default(),
        String::new(),
        Timestamp { seconds: 0, nanoseconds: 0 },
        Timestamp { seconds: 0, nanoseconds: 0 },
        sample_data(),
    );
    let mut copy = history.get_cloned_data();
    copy[0][0].events[0] = Event::read(9);
    copy.pop();
    assert_eq!(history.get_data(), &sample_data());
    assert_eq!(history.get_data().len(), 2);
    assert_eq!(history.get_data()[0][0].events[0], Event::write(0, 1));
}

#[test]
fn duration_is_end_minus_start() {
    let history = History::new(
        HistParams::default(),
        String::new(),
        Timestamp { seconds: 10, nanoseconds: 500 },
        Timestamp { seconds: 12, nanoseconds: 250 },
        Vec::new(),
    );
    assert_eq!(history.get_duration(), 1_999_999_750);
}

#[test]
fn duration_is_negative_when_the_clock_went_back() {
    let history = History::new(
        HistParams::default(),
        String::new(),
        Timestamp { seconds: 12, nanoseconds: 250 },
        Timestamp { seconds: 10, nanoseconds: 500 },
        Vec::new(),
    );
    assert_eq!(history.get_duration(), -1_999_999_750);
}

#[test]
fn duration_of_the_longest_interval() {
    let history = History::new(
        HistParams::default(),
        String::new(),
        Timestamp { seconds: i64::MIN, nanoseconds: u32::MAX },
        Timestamp { seconds: i64::MAX, nanoseconds: 0 },
        Vec::new(),
    );
    let seconds = i64::MAX as i128 - i64::MIN as i128;
    assert_eq!(history.get_duration(), seconds * 1_000_000_000 - u32::MAX as i128);
}
