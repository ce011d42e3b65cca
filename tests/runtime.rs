use tamata::dispatch::complete;
use tamata::runtime::{Fsm, Invalid, Sent};

#[derive(Debug)]
struct Door;

impl Fsm for Door {
    type State = u8;
    type Event = char;
    type Context = ();
    type Error = String;
}

#[test]
fn state_of_valid_is_its_state() {
    assert_eq!(Sent::<Door>::Valid(3).state(), 3);
}

#[test]
fn state_of_invalid_is_the_unchanged_state() {
    assert_eq!(Sent::<Door>::Invalid(4, 'x').state(), 4);
}

#[test]
fn try_valid_keeps_a_valid_state() {
    assert!(matches!(Sent::<Door>::Valid(7).try_valid(), Ok(7)));
}

#[test]
fn try_valid_turns_a_rejection_into_its_error() {
    match Sent::<Door>::Invalid(5, 'q').try_valid() {
        Err(Invalid { state, event }) => {
            assert_eq!(state, 5);
            assert_eq!(event, 'q');
        }
        Ok(_) => panic!("a rejection must become an error"),
    }
}

#[test]
fn complete_without_arm_rejects_the_pair() {
    let r = complete::<Door>(1, 'a', None);
    assert!(matches!(r, Ok(Sent::Invalid(1, 'a'))));
}

#[test]
fn complete_takes_the_handler_next_state() {
    let r = complete::<Door>(1, 'a', Some(Ok(2)));
    assert!(matches!(r, Ok(Sent::Valid(2))));
}

#[test]
fn complete_passes_the_handler_failure_unchanged() {
    let r = complete::<Door>(1, 'a', Some(Err("jammed".to_string())));
    match r {
        Err(e) => assert_eq!(e, "jammed"),
        Ok(_) => panic!("a handler failure must be the dispatch error"),
    }
}
