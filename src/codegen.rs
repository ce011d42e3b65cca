use vstd::prelude::*;
use crate::model::{rows_text, Model, ModelText, RowText, TransitionRow};
use crate::names::names_of;

verus! {

/// The pieces emitted once for each state or event.
#[derive(Clone, Copy, PartialEq, Eq, Structural)]
pub enum NamePiece {
    /// Binds a state type to the machine.
    StateMarker,
    /// Binds an event type to the machine.
    EventMarker,
    /// A variant of the state or event sum.
    Variant,
    /// Lifts a state into the state sum.
    StateFrom,
    /// Lifts an event into the event sum.
    EventFrom,
}

/// The pieces emitted once for each row.
#[derive(Clone, Copy, PartialEq, Eq, Structural)]
pub enum RowPiece {
    /// The transition written by the row's inline action; nothing for a row
    /// without one.
    Handler,
    /// The dispatch arm of the row.
    Arm,
}

/// The pieces, in order, each applied to the items of `items`.
pub open spec fn concat_map<A>(items: Seq<A>, piece: spec_fn(A) -> Seq<char>) -> Seq<char>
    decreases items.len(),
{
    if items.len() == 0 {
        Seq::empty()
    } else {
        concat_map(items.drop_last(), piece) + piece(items.last())
    }
}

pub open spec fn from_impl(sum: Seq<char>, t: Seq<char>) -> Seq<char> {
    "impl From<"@ + t + "> for "@ + sum + " {\n    fn from(value: "@ + t + ") -> "@ + sum + " {\n        "@
        + sum + "::"@ + t + "(value)\n    }\n}\n"@
}

pub open spec fn name_piece(kind: NamePiece, n: Seq<char>, t: Seq<char>) -> Seq<char> {
    match kind {
        NamePiece::StateMarker => "impl tamata::State<"@ + n + "> for "@ + t + " {}\n"@,
        NamePiece::EventMarker => "impl tamata::Event<"@ + n + "> for "@ + t + " {}\n"@,
        NamePiece::Variant => "    "@ + t + "("@ + t + "),\n"@,
        NamePiece::StateFrom => from_impl(n + "State"@, t),
        NamePiece::EventFrom => from_impl(n + "Event"@, t),
    }
}

pub open spec fn row_piece(kind: RowPiece, m: ModelText, row: RowText) -> Seq<char> {
    match kind {
        RowPiece::Handler => match row.action {
            None => Seq::empty(),
            Some(a) => "impl tamata::Transition<"@ + m.name + ", "@ + row.event + "> for "@ + row.state
                + " {\n    type Next = "@ + row.next + ";\n\n    fn send(self, event: "@ + row.event
                + ", ctx: "@ + m.context + ") -> Result<"@ + row.next + ", "@ + m.error
                + "> {\n        ("@ + a + ")(self, event, ctx)\n    }\n}\n"@,
        },
        RowPiece::Arm => "            ("@ + m.name + "State::"@ + row.state + "(s), "@ + m.name + "Event::"@
            + row.event + "(e)) => {\n                let next = tamata::Transition::<"@ + m.name + ", "@
            + row.event + ">::send(s, e, ctx)?;\n                tamata::Sent::Valid("@ + m.name
            + "State::from(next))\n            }\n"@,
    }
}

pub open spec fn fsm_impl(m: ModelText) -> Seq<char> {
    "impl tamata::Fsm for "@ + m.name + " {\n    type Error = "@ + m.error + ";\n    type Context = "@ + m.context
        + ";\n    type State = "@ + m.name + "State;\n    type Event = "@ + m.name + "Event;\n}\n"@
}

pub open spec fn enum_open(sum: Seq<char>) -> Seq<char> {
    "#[derive(Debug)]\npub enum "@ + sum + " {\n"@
}

pub open spec fn dispatch_open(m: ModelText) -> Seq<char> {
    "impl "@ + m.name + "State {\n    pub fn send(self, event: impl Into<"@ + m.name + "Event>, ctx: "@ + m.context
        + ") -> Result<tamata::Sent<"@ + m.name + ">, "@ + m.error
        + "> {\n        let next = match (self, event.into()) {\n"@
}

pub open spec fn dispatch_close() -> Seq<char> {
    "            (state, event) => tamata::Sent::Invalid(state, event),\n        };\n        Ok(next)\n    }\n}\n"@
}

/// The source emitted for machine `m` with the given states and events.
pub open spec fn generated(m: ModelText, states: Seq<Seq<char>>, events: Seq<Seq<char>>) -> Seq<char> {
    let names = |kind: NamePiece, ts: Seq<Seq<char>>| concat_map(ts, |t: Seq<char>| name_piece(kind, m.name, t));
    let rows = |kind: RowPiece| concat_map(m.rows, |row: RowText| row_piece(kind, m, row));
    fsm_impl(m) + names(NamePiece::StateMarker, states) + names(NamePiece::EventMarker, events)
        + enum_open(m.name + "State"@) + names(NamePiece::Variant, states) + "}\n"@
        + names(NamePiece::StateFrom, states)
        + enum_open(m.name + "Event"@) + names(NamePiece::Variant, events) + "}\n"@
        + names(NamePiece::EventFrom, events)
        + rows(RowPiece::Handler) + dispatch_open(m) + rows(RowPiece::Arm) + dispatch_close()
}

fn emit(out: &mut String, parts: &[&str])
    ensures
        final(out)@ == old(out)@ + concat_map(parts@, |p: &str| p@),
{
    let ghost start = out@;
    let mut i: usize = 0;
    while i < parts.len()
        invariant
            i <= parts@.len(),
            out@ == start + concat_map(parts@.subrange(0, i as int), |p: &str| p@),
        decreases parts.len() - i,
    {
        let ghost before = out@;
        out.append(parts[i]);
        proof {
            let sub = parts@.subrange(0, i + 1);
            assert(sub.drop_last() =~= parts@.subrange(0, i as int));
            assert(out@ =~= start + concat_map(sub, |p: &str| p@));
        }
        i = i + 1;
    }
    proof {
        assert(parts@.subrange(0, parts@.len() as int) =~= parts@);
    }
}

fn emit_name_piece(out: &mut String, kind: NamePiece, n: &String, t: &String)
    ensures
        final(out)@ == old(out)@ + name_piece(kind, n@, t@),
{
    let ghost start = out@;
    let n = n.as_str();
    let t = t.as_str();
    match kind {
        NamePiece::StateMarker => emit(out, &["impl tamata::State<", n, "> for ", t, " {}\n"]),
        NamePiece::EventMarker => emit(out, &["impl tamata::Event<", n, "> for ", t, " {}\n"]),
        NamePiece::Variant => emit(out, &["    ", t, "(", t, "),\n"]),
        NamePiece::StateFrom => emit(out, &[
            "impl From<", t, "> for ", n, "State", " {\n    fn from(value: ", t, ") -> ", n, "State",
            " {\n        ", n, "State", "::", t, "(value)\n    }\n}\n",
        ]),
        NamePiece::EventFrom => emit(out, &[
            "impl From<", t, "> for ", n, "Event", " {\n    fn from(value: ", t, ") -> ", n, "Event",
            " {\n        ", n, "Event", "::", t, "(value)\n    }\n}\n",
        ]),
    }
    proof {
        reveal_with_fuel(concat_map, 20);
        assert(out@ =~= start + name_piece(kind, n@, t@));
    }
}

fn emit_row_piece(out: &mut String, kind: RowPiece, model: &Model, row: &TransitionRow)
    ensures
        final(out)@ == old(out)@ + row_piece(kind, model.text(), row.text()),
{
    let ghost start = out@;
    let n = model.name.as_str();
    let st = row.state.as_str();
    let ev = row.event.as_str();
    let nx = row.next.as_str();
    match kind {
        RowPiece::Handler => match &row.action {
            None => {},
            Some(a) => emit(out, &[
                "impl tamata::Transition<", n, ", ", ev, "> for ", st, " {\n    type Next = ", nx,
                ";\n\n    fn send(self, event: ", ev, ", ctx: ", model.context.as_str(), ") -> Result<", nx,
                ", ", model.error.as_str(), "> {\n        (", a.as_str(), ")(self, event, ctx)\n    }\n}\n",
            ]),
        },
        RowPiece::Arm => emit(out, &[
            "            (", n, "State::", st, "(s), ", n, "Event::", ev,
            "(e)) => {\n                let next = tamata::Transition::<", n, ", ", ev,
            ">::send(s, e, ctx)?;\n                tamata::Sent::Valid(", n,
            "State::from(next))\n            }\n",
        ]),
    }
    proof {
        reveal_with_fuel(concat_map, 30);
        assert(out@ =~= start + row_piece(kind, model.text(), row.text()));
    }
}

fn emit_names(out: &mut String, kind: NamePiece, n: &String, ts: &Vec<String>)
    ensures
        final(out)@ == old(out)@ + concat_map(names_of(ts@), |t: Seq<char>| name_piece(kind, n@, t)),
{
    let ghost start = out@;
    let ghost f = |t: Seq<char>| name_piece(kind, n@, t);
    let mut i: usize = 0;
    while i < ts.len()
        invariant
            i <= ts@.len(),
            f == (|t: Seq<char>| name_piece(kind, n@, t)),
            out@ == start + concat_map(names_of(ts@).subrange(0, i as int), f),
        decreases ts.len() - i,
    {
        emit_name_piece(out, kind, n, &ts[i]);
        proof {
            let sub = names_of(ts@).subrange(0, i + 1);
            assert(sub.drop_last() =~= names_of(ts@).subrange(0, i as int));
            assert(sub.last() == ts@[i as int]@);
            assert(out@ =~= start + concat_map(sub, f));
        }
        i = i + 1;
    }
    proof {
        assert(names_of(ts@).subrange(0, ts@.len() as int) =~= names_of(ts@));
    }
}

fn emit_rows(out: &mut String, kind: RowPiece, model: &Model)
    ensures
        final(out)@ == old(out)@ + concat_map(model.text().rows, |row: RowText| row_piece(kind, model.text(), row)),
{
    let ghost start = out@;
    let ghost m = model.text();
    let ghost f = |row: RowText| row_piece(kind, m, row);
    let rows = &model.transitions;
    let mut i: usize = 0;
    while i < rows.len()
        invariant
            i <= rows@.len(),
            m == model.text(),
            rows == &model.transitions,
            f == (|row: RowText| row_piece(kind, m, row)),
            out@ == start + concat_map(rows_text(rows@).subrange(0, i as int), f),
        decreases rows.len() - i,
    {
        emit_row_piece(out, kind, model, &rows[i]);
        proof {
            let sub = rows_text(rows@).subrange(0, i + 1);
            assert(sub.drop_last() =~= rows_text(rows@).subrange(0, i as int));
            assert(sub.last() == rows@[i as int].text());
            assert(out@ =~= start + concat_map(sub, f));
        }
        i = i + 1;
    }
    proof {
        assert(rows_text(rows@).subrange(0, rows@.len() as int) =~= rows_text(rows@));
    }
}

fn emit_fsm_impl(out: &mut String, model: &Model)
    ensures
        final(out)@ == old(out)@ + fsm_impl(model.text()),
{
    let ghost start = out@;
    let n = model.name.as_str();
    emit(out, &[
        "impl tamata::Fsm for ", n, " {\n    type Error = ", model.error.as_str(), ";\n    type Context = ",
        model.context.as_str(), ";\n    type State = ", n, "State;\n    type Event = ", n, "Event;\n}\n",
    ]);
    proof {
        reveal_with_fuel(concat_map, 12);
        assert(out@ =~= start + fsm_impl(model.text()));
    }
}

fn emit_enum_open(out: &mut String, n: &String, suffix: &str)
    ensures
        final(out)@ == old(out)@ + enum_open(n@ + suffix@),
{
    let ghost start = out@;
    emit(out, &["#[derive(Debug)]\npub enum ", n.as_str(), suffix, " {\n"]);
    proof {
        reveal_with_fuel(concat_map, 5);
        assert(out@ =~= start + enum_open(n@ + suffix@));
    }
}

fn emit_text(out: &mut String, t: &str)
    ensures
        final(out)@ == old(out)@ + t@,
{
    out.append(t);
}

fn emit_dispatch_open(out: &mut String, model: &Model)
    ensures
        final(out)@ == old(out)@ + dispatch_open(model.text()),
{
    let ghost start = out@;
    let n = model.name.as_str();
    emit(out, &[
        "impl ", n, "State {\n    pub fn send(self, event: impl Into<", n, "Event>, ctx: ",
        model.context.as_str(), ") -> Result<tamata::Sent<", n, ">, ", model.error.as_str(),
        "> {\n        let next = match (self, event.into()) {\n",
    ]);
    proof {
        reveal_with_fuel(concat_map, 12);
        assert(out@ =~= start + dispatch_open(model.text()));
    }
}

/// The source of machine `model`: the machine binding, a marker binding for
/// each state and event, the state and event sums with their lifting
/// conversions, a transition for each row with an inline action, and the
/// dispatch `send` with one arm per row in declaration order and a rejection
/// for every other pair.
pub fn generate(model: &Model) -> (r: String)
    ensures
        r@ == generated(model.text(), names_of(model.states@), names_of(model.events@)),
{
    let mut out = String::new();
    let n = &model.name;
    emit_fsm_impl(&mut out, model);
    emit_names(&mut out, NamePiece::StateMarker, n, &model.states);
    emit_names(&mut out, NamePiece::EventMarker, n, &model.events);
    emit_enum_open(&mut out, n, "State");
    emit_names(&mut out, NamePiece::Variant, n, &model.states);
    emit_text(&mut out, "}\n");
    emit_names(&mut out, NamePiece::StateFrom, n, &model.states);
    emit_enum_open(&mut out, n, "Event");
    emit_names(&mut out, NamePiece::Variant, n, &model.events);
    emit_text(&mut out, "}\n");
    emit_names(&mut out, NamePiece::EventFrom, n, &model.events);
    emit_rows(&mut out, RowPiece::Handler, model);
    emit_dispatch_open(&mut out, model);
    emit_rows(&mut out, RowPiece::Arm, model);
    emit_text(
        &mut out,
        "            (state, event) => tamata::Sent::Invalid(state, event),\n        };\n        Ok(next)\n    }\n}\n",
    );
    proof {
        assert(out@ =~= generated(model.text(), names_of(model.states@), names_of(model.events@)));
    }
    out
}

} // verus!
