//! The counter's state machine: a pure reducer over a counter and a pending
//! text input.
//!
//! `Add` and `Remove` move the counter by the parsed value of the pending
//! input, falling back to a step of one when parsing fails; `SetInput` stores
//! new text and leaves the counter alone. Arithmetic saturates at the `i64`
//! bounds, the chosen policy for the otherwise unhandled overflow of very
//! large sums. Every dispatch signals a re-render, whether or not a value
//! changed.

use vstd::prelude::*;

use crate::parse::parse_i64;
use crate::parse::spec_parse_i64;

verus! {

/// A user-intent event consumed by the reducer.
pub enum Action {
    /// Move the counter up by the pending input's value, or by one.
    Add,
    /// Move the counter down by the pending input's value, or by one.
    Remove,
    /// Store new pending input text.
    SetInput(String),
}

/// The spec-level shape of an `Action`, with text as a sequence of characters.
pub enum Act {
    Add,
    Remove,
    SetInput(Seq<char>),
}

impl View for Action {
    type V = Act;

    open spec fn view(&self) -> Act {
        match self {
            Action::Add => Act::Add,
            Action::Remove => Act::Remove,
            Action::SetInput(t) => Act::SetInput(t@),
        }
    }
}

/// The counter view's state: the running total and the pending input text.
#[derive(Debug)]
pub struct CounterState {
    pub counter: i64,
    pub pending_input: String,
}

/// The spec-level model of a `CounterState`.
#[verifier::ext_equal]
pub struct Model {
    pub counter: int,
    pub input: Seq<char>,
}

impl View for CounterState {
    type V = Model;

    open spec fn view(&self) -> Model {
        Model { counter: self.counter as int, input: self.pending_input@ }
    }
}

/// `x` clipped to the `i64` range.
pub open spec fn clip_i64(x: int) -> int {
    if x > i64::MAX {
        i64::MAX as int
    } else if x < i64::MIN {
        i64::MIN as int
    } else {
        x
    }
}

/// The step an `Add` or `Remove` applies: the parsed pending input, or the
/// fallback step of one where parsing fails.
pub open spec fn step_of(input: Seq<char>) -> int {
    match spec_parse_i64(input) {
        Some(v) => v as int,
        None => 1,
    }
}

/// What one dispatched action makes of the state.
pub open spec fn spec_reduce(m: Model, a: Act) -> Model {
    match a {
        Act::Add => Model { counter: clip_i64(m.counter + step_of(m.input)), input: m.input },
        Act::Remove => Model { counter: clip_i64(m.counter - step_of(m.input)), input: m.input },
        Act::SetInput(t) => Model { counter: m.counter, input: t },
    }
}

/// `a + b`, clipped to the `i64` range.
fn sat_add(a: i64, b: i64) -> (r: i64)
    ensures
        r as int == clip_i64(a + b),
{
    if b >= 0 {
        if a <= i64::MAX - b {
            a + b
        } else {
            i64::MAX
        }
    } else {
        if a >= i64::MIN - b {
            a + b
        } else {
            i64::MIN
        }
    }
}

/// `a - b`, clipped to the `i64` range.
fn sat_sub(a: i64, b: i64) -> (r: i64)
    ensures
        r as int == clip_i64(a - b),
{
    if b >= 0 {
        if a >= i64::MIN + b {
            a - b
        } else {
            i64::MIN
        }
    } else {
        if a <= i64::MAX + b {
            a - b
        } else {
            i64::MAX
        }
    }
}

impl CounterState {
    /// A fresh state: counter zero, empty pending input.
    pub fn new() -> (s: Self)
        ensures
            s@.counter == 0,
            s@.input =~= Seq::<char>::empty(),
    {
        CounterState { counter: 0, pending_input: String::new() }
    }

    /// Dispatch one action in place. The result says whether the view must
    /// re-render: every action triggers one, so it is always true.
    pub fn update(&mut self, action: Action) -> (changed: bool)
        ensures
            changed,
            final(self)@ == spec_reduce(old(self)@, action@),
    {
        match action {
            Action::Add => {
                let step = match parse_i64(self.pending_input.as_str()) {
                    Some(v) => v,
                    None => 1,
                };
                self.counter = sat_add(self.counter, step);
            },
            Action::Remove => {
                let step = match parse_i64(self.pending_input.as_str()) {
                    Some(v) => v,
                    None => 1,
                };
                self.counter = sat_sub(self.counter, step);
            },
            Action::SetInput(t) => {
                self.pending_input = t;
            },
        }
        proof {
            assert(final(self)@ =~= spec_reduce(old(self)@, action@));
        }
        true
    }
}

/// `c` is a value the counter can hold.
pub open spec fn valid_counter(c: int) -> bool {
    i64::MIN <= c <= i64::MAX
}

/// Setting the input to text that parses as `v`, then dispatching `Add`, adds
/// exactly `v` to the counter, for every counter `c` and parsed value `v`
/// whose sum stays in the counter's range.
pub proof fn lemma_set_then_add(m: Model, t: Seq<char>, v: i64)
    requires
        valid_counter(m.counter),
        spec_parse_i64(t) == Some(v),
        i64::MIN <= m.counter + v <= i64::MAX,
    ensures
        spec_reduce(spec_reduce(m, Act::SetInput(t)), Act::Add).counter == m.counter + v,
{
}

/// Setting the input to text that parses as `v`, then dispatching `Remove`,
/// subtracts exactly `v` from the counter, for every counter `c` and parsed
/// value `v` whose difference stays in the counter's range.
pub proof fn lemma_set_then_remove(m: Model, t: Seq<char>, v: i64)
    requires
        valid_counter(m.counter),
        spec_parse_i64(t) == Some(v),
        i64::MIN <= m.counter - v <= i64::MAX,
    ensures
        spec_reduce(spec_reduce(m, Act::SetInput(t)), Act::Remove).counter == m.counter - v,
{
}

/// Dispatching `Add` while the pending input does not parse — empty text
/// included — falls back to a step of exactly one, for every counter below
/// the upper bound.
pub proof fn lemma_add_fallback(m: Model)
    requires
        valid_counter(m.counter),
        spec_parse_i64(m.input) is None,
        m.counter < i64::MAX,
    ensures
        spec_reduce(m, Act::Add).counter == m.counter + 1,
{
}

/// Dispatching `Add` while the pending input is empty steps the counter up by
/// one: empty text never parses.
pub proof fn lemma_add_empty_input(m: Model)
    requires
        valid_counter(m.counter),
        m.input == Seq::<char>::empty(),
        m.counter < i64::MAX,
    ensures
        spec_reduce(m, Act::Add).counter == m.counter + 1,
{
    lemma_add_fallback(m);
}

/// Dispatching `Remove` while the pending input does not parse falls back to
/// a step of exactly one downward, for every counter above the lower bound.
pub proof fn lemma_remove_fallback(m: Model)
    requires
        valid_counter(m.counter),
        spec_parse_i64(m.input) is None,
        m.counter > i64::MIN,
    ensures
        spec_reduce(m, Act::Remove).counter == m.counter - 1,
{
}

/// Of two successive `SetInput` dispatches, only the latest governs whatever
/// action follows: the earlier text leaves no trace in the state.
pub proof fn lemma_latest_input_wins(m: Model, x1: Seq<char>, x2: Seq<char>, a: Act)
    ensures
        spec_reduce(spec_reduce(spec_reduce(m, Act::SetInput(x1)), Act::SetInput(x2)), a)
            == spec_reduce(spec_reduce(m, Act::SetInput(x2)), a),
{
    assert(spec_reduce(spec_reduce(spec_reduce(m, Act::SetInput(x1)), Act::SetInput(x2)), a)
        =~= spec_reduce(spec_reduce(m, Act::SetInput(x2)), a));
}

/// The pure reducer: the state after dispatching `action` to `state`.
pub fn reduce(state: CounterState, action: Action) -> (r: CounterState)
    ensures
        r@ == spec_reduce(state@, action@),
{
    let mut s = state;
    let _ = s.update(action);
    s
}

} // verus!
