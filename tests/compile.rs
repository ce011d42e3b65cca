use tamata::compiler::{fsm, CompileError};
use tamata::codegen::generate;
use tamata::lexer::{SyntaxError, SyntaxErrorKind};
use tamata::parser::parse_fsm;
use tamata::runtime::Sent;

const TURNSTILE: &str = "Turnstile,
Error = Error,
Context = (),
{
    Locked(Coin) -> Unlocked,
    Locked(Push) -> Locked,
    Unlocked(Coin) -> Unlocked,
    Unlocked(Push) -> Locked,
}";

fn strings(v: &[&str]) -> Vec<String> {
    v.iter().map(|s| s.to_string()).collect()
}

fn syntax(at: usize, kind: SyntaxErrorKind) -> SyntaxError {
    SyntaxError { at, kind }
}

#[test]
fn parses_the_turnstile() {
    let m = parse_fsm(TURNSTILE).unwrap();
    assert_eq!(m.name, "Turnstile");
    assert_eq!(m.error, "Error");
    assert_eq!(m.context, "()");
    assert_eq!(m.states, strings(&["Locked", "Unlocked"]));
    assert_eq!(m.events, strings(&["Coin", "Push"]));
    assert_eq!(m.transitions.len(), 4);
    assert_eq!(m.transitions[0].state, "Locked");
    assert_eq!(m.transitions[0].event, "Coin");
    assert_eq!(m.transitions[0].next, "Unlocked");
    assert!(m.transitions.iter().all(|r| r.action.is_none()));
}

#[test]
fn trailing_commas_are_optional() {
    let bare = parse_fsm("M, Error = E, Context = u8 { A(X) -> B }").unwrap();
    let full = parse_fsm("M, Error = E, Context = u8, { A(X) -> B, }, ").unwrap();
    assert_eq!(bare.transitions.len(), 1);
    assert_eq!(full.transitions.len(), 1);
    assert_eq!(bare.context, "u8");
    assert_eq!(full.context, "u8");
}

#[test]
fn only_the_first_event_of_a_row_counts() {
    let m = parse_fsm("M, Error = E, Context = (), { A(X, Y,) -> B }").unwrap();
    assert_eq!(m.transitions[0].event, "X");
    assert_eq!(m.events, strings(&["X"]));
}

#[test]
fn inline_action_with_commas_is_read_whole() {
    let m = parse_fsm("M, Error = E, Context = u8, { A(X) -> B = |s, e, c| Ok(B), B(X) -> A }").unwrap();
    assert_eq!(m.transitions.len(), 2);
    assert_eq!(m.transitions[0].action.as_deref(), Some("|s, e, c| Ok(B)"));
    assert!(m.transitions[1].action.is_none());
}

#[test]
fn generic_types_keep_their_commas() {
    let m = parse_fsm("M, Error = Box<dyn std::error::Error>, Context = HashMap<u8, u16>, { A(X) -> B }").unwrap();
    assert_eq!(m.error, "Box<dyn std::error::Error>");
    assert_eq!(m.context, "HashMap<u8, u16>");
}

#[test]
fn empty_table_is_refused() {
    let e = parse_fsm("M, Error = E, Context = () {}").unwrap_err();
    assert_eq!(e, syntax(28, SyntaxErrorKind::Ident));
}

#[test]
fn bracket_inside_a_string_literal_is_not_counted() {
    let m = parse_fsm("M, Error = E, Context = (), { A(X) -> B = |s, e, c| Err(\")\".into()), B(X) -> A }").unwrap();
    assert_eq!(m.transitions.len(), 2);
    assert_eq!(m.transitions[0].action.as_deref(), Some("|s, e, c| Err(\")\".into())"));
}

#[test]
fn comma_and_brace_inside_char_and_raw_literals() {
    let m = parse_fsm("M, Error = E, Context = (), { A(X) -> B = |s, e, c| f(',', '}', r#\"}\"#, \"\\\"}\"), B(Y) -> A }").unwrap();
    assert_eq!(m.transitions.len(), 2);
    assert_eq!(m.transitions[0].action.as_deref(), Some("|s, e, c| f(',', '}', r#\"}\"#, \"\\\"}\")"));
    assert_eq!(m.transitions[1].event, "Y");
}

#[test]
fn lifetime_in_a_type_is_no_char_literal() {
    let m = parse_fsm("M, Error = &'static str, Context = (), { A(X) -> B }").unwrap();
    assert_eq!(m.error, "&'static str");
}

#[test]
fn comments_between_tokens_are_passed_over() {
    let text = "// a turnstile\nM, /* error */ Error = E, Context = (), {\n    A(X) -> B = act // go\n    , /* outer /* inner */ still */ B(X) -> A,\n}";
    let m = parse_fsm(text).unwrap();
    assert_eq!(m.name, "M");
    assert_eq!(m.transitions.len(), 2);
    assert_eq!(m.transitions[0].action.as_deref(), Some("act"));
    assert_eq!(m.transitions[1].state, "B");
}

#[test]
fn non_ascii_names_are_identifiers() {
    let m = parse_fsm("M, Error = E, Context = (), { Fermé(Pièce) -> Ouvert }").unwrap();
    assert_eq!(m.transitions[0].state, "Fermé");
    assert_eq!(m.transitions[0].event, "Pièce");
    assert_eq!(m.states, strings(&["Fermé", "Ouvert"]));
}

#[test]
fn c_string_literal_does_not_panic() {
    let r = parse_fsm("M, Error = E, Context = (), { A(X) -> B = c\"x\" }");
    assert_eq!(r.unwrap().transitions[0].action.as_deref(), Some("c\"x\""));
    let t = parse_fsm("M, Error = [u8; c\"x\"], Context = (), { A(X) -> B }");
    assert_eq!(t.unwrap().error, "[u8; c\"x\"]");
}

#[test]
fn missing_comma_after_name() {
    assert_eq!(parse_fsm("M Error = E").unwrap_err(), syntax(2, SyntaxErrorKind::Punct(',')));
}

#[test]
fn missing_error_keyword() {
    let e = parse_fsm("M, Err = E, Context = (), {}").unwrap_err();
    assert_eq!(e, syntax(3, SyntaxErrorKind::ErrorKeyword));
}

#[test]
fn missing_context_keyword() {
    let e = parse_fsm("M, Error = E, Ctx = (), {}").unwrap_err();
    assert_eq!(e, syntax(14, SyntaxErrorKind::ContextKeyword));
}

#[test]
fn keyword_is_no_state_name() {
    let e = parse_fsm("M, Error = E, Context = (), { fn(X) -> B }").unwrap_err();
    assert_eq!(e, syntax(30, SyntaxErrorKind::Ident));
}

#[test]
fn empty_event_list_is_refused() {
    let e = parse_fsm("M, Error = E, Context = (), { A() -> B }").unwrap_err();
    assert_eq!(e, syntax(32, SyntaxErrorKind::Ident));
}

#[test]
fn unparseable_type_is_refused() {
    let e = parse_fsm("M, Error = 1 + 2, Context = (), {}").unwrap_err();
    assert_eq!(e, syntax(11, SyntaxErrorKind::Type));
}

#[test]
fn unparseable_action_is_refused() {
    let e = parse_fsm("M, Error = E, Context = (), { A(X) -> B = |s }").unwrap_err();
    assert_eq!(e, syntax(42, SyntaxErrorKind::Action));
}

#[test]
fn missing_arrow_is_refused() {
    let e = parse_fsm("M, Error = E, Context = (), { A(X) B }").unwrap_err();
    assert_eq!(e, syntax(35, SyntaxErrorKind::Arrow));
}

#[test]
fn text_after_the_table_is_refused() {
    let e = parse_fsm("M, Error = E, Context = (), { A(X) -> B } x").unwrap_err();
    assert_eq!(e, syntax(42, SyntaxErrorKind::End));
}

#[test]
fn turnstile_end_to_end() {
    let m = parse_fsm(TURNSTILE).unwrap();
    let mut state = "Locked".to_string();
    let expected = ["Locked", "Unlocked", "Unlocked", "Locked", "Locked"];
    for (event, want) in ["Push", "Coin", "Coin", "Push", "Push"].iter().zip(expected.iter()) {
        match m.send(state, event.to_string()) {
            Sent::Valid(next) => {
                assert_eq!(next, *want);
                state = next;
            }
            Sent::Invalid(_, _) => panic!("every turnstile pair is declared"),
        }
    }
    assert_eq!(state, "Locked");
}

#[test]
fn unknown_event_is_rejected_unchanged() {
    let m = parse_fsm(TURNSTILE).unwrap();
    match m.send("Locked".to_string(), "Kick".to_string()) {
        Sent::Invalid(state, event) => {
            assert_eq!(state, "Locked");
            assert_eq!(event, "Kick");
        }
        Sent::Valid(_) => panic!("an undeclared pair must be rejected"),
    }
}

#[test]
fn every_declared_pair_is_valid_and_others_rejected() {
    let m = parse_fsm("M, Error = E, Context = (), { A(X) -> B, B(Y) -> A }").unwrap();
    for s in &m.states {
        for e in &m.events {
            let declared = (s == "A" && e == "X") || (s == "B" && e == "Y");
            match m.send(s.clone(), e.clone()) {
                Sent::Valid(_) => assert!(declared),
                Sent::Invalid(s2, e2) => {
                    assert!(!declared);
                    assert_eq!(&s2, s);
                    assert_eq!(&e2, e);
                }
            }
        }
    }
}

#[test]
fn first_declared_row_wins() {
    let m = parse_fsm("M, Error = E, Context = (), { A(X) -> B, A(X) -> C }").unwrap();
    assert!(matches!(m.send("A".to_string(), "X".to_string()), Sent::Valid(n) if n == "B"));
}

#[test]
fn generated_source_of_a_small_machine() {
    let out = fsm("M, Error = E, Context = (), { A(X) -> B }").unwrap();
    let expected = String::new()
        + "impl tamata::Fsm for M {\n    type Error = E;\n    type Context = ();\n    type State = MState;\n    type Event = MEvent;\n}\n"
        + "impl tamata::State<M> for A {}\nimpl tamata::State<M> for B {}\n"
        + "impl tamata::Event<M> for X {}\n"
        + "#[derive(Debug)]\npub enum MState {\n    A(A),\n    B(B),\n}\n"
        + "impl From<A> for MState {\n    fn from(value: A) -> MState {\n        MState::A(value)\n    }\n}\n"
        + "impl From<B> for MState {\n    fn from(value: B) -> MState {\n        MState::B(value)\n    }\n}\n"
        + "#[derive(Debug)]\npub enum MEvent {\n    X(X),\n}\n"
        + "impl From<X> for MEvent {\n    fn from(value: X) -> MEvent {\n        MEvent::X(value)\n    }\n}\n"
        + "impl MState {\n    pub fn send(self, event: impl Into<MEvent>, ctx: ()) -> Result<tamata::Sent<M>, E> {\n        let next = match (self, event.into()) {\n"
        + "            (MState::A(s), MEvent::X(e)) => {\n                let next = tamata::Transition::<M, X>::send(s, e, ctx)?;\n                tamata::Sent::Valid(MState::from(next))\n            }\n"
        + "            (state, event) => tamata::Sent::Invalid(state, event),\n        };\n        Ok(next)\n    }\n}\n";
    assert_eq!(out, expected);
}

#[test]
fn inline_action_becomes_a_transition() {
    let out = fsm("M, Error = E, Context = u8, { A(X) -> B = handle }").unwrap();
    let handler = "impl tamata::Transition<M, X> for A {\n    type Next = B;\n\n    fn send(self, event: X, ctx: u8) -> Result<B, E> {\n        (handle)(self, event, ctx)\n    }\n}\n";
    assert!(out.contains(handler));
    assert_eq!(out.matches("impl tamata::Transition<").count(), 1);
}

#[test]
fn row_without_action_emits_no_transition() {
    let out = fsm(TURNSTILE).unwrap();
    assert!(!out.contains("impl tamata::Transition<"));
    assert_eq!(out.matches("tamata::Sent::Valid(").count(), 4);
}

#[test]
fn compiling_twice_gives_identical_source() {
    let a = fsm(TURNSTILE).unwrap();
    let b = fsm(TURNSTILE).unwrap();
    assert_eq!(a, b);
    let m = parse_fsm(TURNSTILE).unwrap();
    assert_eq!(generate(&m), generate(&m.clone()));
    assert_eq!(generate(&m), a);
}

#[test]
fn duplicate_pair_is_refused() {
    let e = fsm("M, Error = E, Context = (), { A(X) -> B, B(X) -> A, A(X) -> A }").unwrap_err();
    assert_eq!(e, CompileError::Duplicate { first: 0, second: 2 });
}

#[test]
fn syntax_error_is_passed_on() {
    let e = fsm("M, Error = E").unwrap_err();
    assert_eq!(e, CompileError::Syntax(syntax(12, SyntaxErrorKind::Punct(','))));
}
