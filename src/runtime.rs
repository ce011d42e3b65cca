use vstd::prelude::*;

verus! {

/// A state machine: the closed state and event representations, and the
/// user-chosen context and error types of its transitions.
pub trait Fsm {
    /// Sum of every declared state.
    type State;

    /// Sum of every declared event.
    type Event;

    /// Value handed to every transition.
    type Context: Send + Sync;

    /// Failure of a transition.
    type Error: Send + Sync;
}

/// Marks a type as a state of machine `F`.
pub trait State<F> where F: Fsm {

}

/// Marks a type as an event of machine `F`.
pub trait Event<F> where F: Fsm {

}

/// The transition of a state on event `E`, written by the embedding program
/// for each declared row that carries no inline action.
pub trait Transition<F, E> where F: Fsm, E: Event<F>, Self: State<F> + Sized {
    type Next: State<F>;

    fn send(self, event: E, ctx: F::Context) -> Result<Self::Next, F::Error>;
}

/// State after sending an event, and whether it is the result of a valid
/// transition.
///
/// `Invalid` values can be converted to errors via `Sent::try_valid()`.
#[derive(Debug)]
pub enum Sent<F> where F: Fsm {
    /// The next state was the result of a valid state transition.
    ///
    /// It may be identical to the previous state.
    Valid(F::State),
    /// The sent event was invalid, and the state is unchanged.
    Invalid(F::State, F::Event),
}

/// Promotion of an invalid state transition to an error.
#[derive(Debug)]
pub struct Invalid<F: Fsm> {
    /// FSM state when the event was sent.
    pub state: F::State,
    /// Event sent to the FSM.
    pub event: F::Event,
}

impl<F> Sent<F> where F: Fsm {
    /// The state that a result holds, whichever its variant.
    pub open spec fn held_state(self) -> F::State {
        match self {
            Sent::Valid(s) => s,
            Sent::Invalid(s, _) => s,
        }
    }

    /// Convert into current state, ignoring whether it resulted from a valid
    /// transition.
    pub fn state(self) -> (r: F::State)
        ensures
            r == self.held_state(),
    {
        match self {
            Sent::Valid(state) => state,
            Sent::Invalid(state, _) => state,
        }
    }

    /// Convert `self` to a `Result`, where invalid transitions are errors.
    pub fn try_valid(self) -> (r: Result<F::State, Invalid<F>>)
        ensures
            match self {
                Sent::Valid(s) => r == Ok::<F::State, Invalid<F>>(s),
                Sent::Invalid(s, e) => r matches Err(err) && err.state == s && err.event == e,
            },
    {
        match self {
            Sent::Valid(state) => Ok(state),
            Sent::Invalid(state, event) => {
                let err = Invalid { state, event };
                Err(err)
            },
        }
    }
}

} // verus!
