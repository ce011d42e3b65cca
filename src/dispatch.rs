use vstd::prelude::*;
use crate::model::{Model, TransitionRow};
use crate::runtime::{Fsm, Sent};

verus! {

/// Row `k` is an arm for `state` and `event`.
pub open spec fn arm_matches(rows: Seq<TransitionRow>, k: int, state: Seq<char>, event: Seq<char>) -> bool {
    0 <= k < rows.len() && rows[k].state@ == state && rows[k].event@ == event
}

/// Some row is declared for `state` and `event`.
pub open spec fn declared(rows: Seq<TransitionRow>, state: Seq<char>, event: Seq<char>) -> bool {
    exists|k: int| #[trigger] arm_matches(rows, k, state, event)
}

/// Row `k` is the first arm for `state` and `event` in declaration order:
/// the one that wins.
pub open spec fn first_arm(rows: Seq<TransitionRow>, k: int, state: Seq<char>, event: Seq<char>) -> bool {
    arm_matches(rows, k, state, event) && forall|j: int| 0 <= j < k ==> !#[trigger] arm_matches(rows, j, state, event)
}

/// Dispatch is deterministic: a pair has at most one first arm.
pub proof fn lemma_first_arm_unique(rows: Seq<TransitionRow>, state: Seq<char>, event: Seq<char>, k1: int, k2: int)
    requires
        first_arm(rows, k1, state, event),
        first_arm(rows, k2, state, event),
    ensures
        k1 == k2,
{
    if k1 < k2 {
        assert(arm_matches(rows, k1, state, event));
    } else if k2 < k1 {
        assert(arm_matches(rows, k2, state, event));
    }
}

/// Machine whose states and events are the names of a model, with no context
/// and no handler that can fail.
#[derive(Debug)]
pub struct Table;

impl Fsm for Table {
    type State = String;
    type Event = String;
    type Context = ();
    type Error = ();
}

/// The arm that takes `event` in `state`: the first row declared for the
/// pair, or none.
pub fn route(rows: &Vec<TransitionRow>, state: &String, event: &String) -> (r: Option<usize>)
    ensures
        match r {
            Some(k) => first_arm(rows@, k as int, state@, event@),
            None => !declared(rows@, state@, event@),
        },
{
    let mut k: usize = 0;
    while k < rows.len()
        invariant
            k <= rows.len(),
            forall|j: int| 0 <= j < k ==> !#[trigger] arm_matches(rows@, j, state@, event@),
        decreases rows.len() - k,
    {
        if rows[k].state == *state && rows[k].event == *event {
            return Some(k);
        }
        k = k + 1;
    }
    None
}

/// The outcome of a dispatch, given what the arm's handler returned: no arm
/// rejects the pair unchanged, a handler's next state becomes a valid
/// transition, and a handler's failure is passed on as it is.
pub fn complete<F: Fsm>(
    state: F::State,
    event: F::Event,
    handled: Option<Result<F::State, F::Error>>,
) -> (r: Result<Sent<F>, F::Error>)
    ensures
        match handled {
            None => r == Ok::<Sent<F>, F::Error>(Sent::Invalid(state, event)),
            Some(Ok(next)) => r == Ok::<Sent<F>, F::Error>(Sent::Valid(next)),
            Some(Err(e)) => r == Err::<Sent<F>, F::Error>(e),
        },
{
    match handled {
        None => Ok(Sent::Invalid(state, event)),
        Some(Ok(next)) => Ok(Sent::Valid(next)),
        Some(Err(e)) => Err(e),
    }
}

impl Model {
    /// Sends `event` to `state` by the table: the target of the first row
    /// declared for the pair, or the pair itself, rejected.
    pub fn send(&self, state: String, event: String) -> (r: Sent<Table>)
        ensures
            declared(self.transitions@, state@, event@) ==> exists|k: int|
                first_arm(self.transitions@, k, state@, event@)
                && r == Sent::<Table>::Valid(self.transitions@[k].next),
            !declared(self.transitions@, state@, event@) ==> r == Sent::<Table>::Invalid(state, event),
    {
        match route(&self.transitions, &state, &event) {
            Some(k) => Sent::Valid(self.transitions[k].next.clone()),
            None => Sent::Invalid(state, event),
        }
    }
}

} // verus!
