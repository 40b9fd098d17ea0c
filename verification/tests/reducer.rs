use counter_ui::state::{reduce, Action, CounterState};

fn dispatch_all(mut s: CounterState, actions: Vec<Action>) -> CounterState {
    for a in actions {
        s = reduce(s, a);
    }
    s
}

#[test]
fn set_then_add_adds_parsed_value() {
    let s = CounterState { counter: 10, pending_input: String::new() };
    let s = reduce(s, Action::SetInput("5".to_string()));
    let s = reduce(s, Action::Add);
    assert_eq!(s.counter, 15);
}

#[test]
fn set_then_add_negative_value_decreases() {
    let s = CounterState::new();
    let s = reduce(s, Action::SetInput("-3".to_string()));
    let s = reduce(s, Action::Add);
    assert_eq!(s.counter, -3);
}

#[test]
fn set_then_remove_subtracts_parsed_value() {
    let s = CounterState { counter: 10, pending_input: String::new() };
    let s = reduce(s, Action::SetInput("7".to_string()));
    let s = reduce(s, Action::Remove);
    assert_eq!(s.counter, 3);
}

#[test]
fn add_with_empty_input_steps_by_one() {
    let s = CounterState::new();
    let s = reduce(s, Action::Add);
    assert_eq!(s.counter, 1);
    assert_eq!(s.pending_input, "");
}

#[test]
fn remove_with_unparsable_input_steps_down_by_one() {
    let s = CounterState::new();
    let s = reduce(s, Action::SetInput("abc".to_string()));
    let s = reduce(s, Action::Remove);
    assert_eq!(s.counter, -1);
}

#[test]
fn whitespace_input_falls_back() {
    let s = CounterState::new();
    let s = reduce(s, Action::SetInput("   ".to_string()));
    let s = reduce(s, Action::Add);
    assert_eq!(s.counter, 1);
}

#[test]
fn out_of_range_input_falls_back() {
    let s = CounterState::new();
    let s = reduce(s, Action::SetInput("99999999999999999999".to_string()));
    let s = reduce(s, Action::Add);
    assert_eq!(s.counter, 1);
}

#[test]
fn latest_set_input_wins() {
    let s = CounterState::new();
    let s = reduce(s, Action::SetInput("3".to_string()));
    let s = reduce(s, Action::SetInput("9".to_string()));
    let up = reduce(s, Action::Add);
    assert_eq!(up.counter, 9);

    let s = CounterState::new();
    let s = reduce(s, Action::SetInput("3".to_string()));
    let s = reduce(s, Action::SetInput("9".to_string()));
    let down = reduce(s, Action::Remove);
    assert_eq!(down.counter, -9);
}

#[test]
fn stale_input_is_reused_until_replaced() {
    let s = CounterState::new();
    let s = reduce(s, Action::SetInput("4".to_string()));
    let s = reduce(s, Action::Add);
    let s = reduce(s, Action::Add);
    assert_eq!(s.counter, 8);
    assert_eq!(s.pending_input, "4");
}

#[test]
fn every_action_signals_a_render() {
    let mut s = CounterState::new();
    assert!(s.update(Action::Add));
    assert!(s.update(Action::Remove));
    assert!(s.update(Action::SetInput("abc".to_string())));
    assert!(s.update(Action::SetInput("abc".to_string())));
    assert!(s.update(Action::Remove));
}

#[test]
fn counter_saturates_at_the_bounds() {
    let s = CounterState { counter: i64::MAX, pending_input: "1".to_string() };
    let s = reduce(s, Action::Add);
    assert_eq!(s.counter, i64::MAX);

    let s = CounterState { counter: i64::MIN, pending_input: "1".to_string() };
    let s = reduce(s, Action::Remove);
    assert_eq!(s.counter, i64::MIN);
}

#[test]
fn scenario_set_add_add_set_remove() {
    let s = dispatch_all(
        CounterState::new(),
        vec![
            Action::SetInput("5".to_string()),
            Action::Add,
            Action::Add,
            Action::SetInput("2".to_string()),
            Action::Remove,
        ],
    );
    assert_eq!(s.counter, 8);
}

#[test]
fn scenario_three_adds_without_input() {
    let s = dispatch_all(CounterState::new(), vec![Action::Add, Action::Add, Action::Add]);
    assert_eq!(s.counter, 3);
}
