use vstd::prelude::*;
use crate::lexer::{
    chars_of, fragment_at, ident_at, parse_fragment, parse_ident, parse_punct, peek_at, peek_punct,
    punct_at, skip_ws, syntax_error, ws_end, SyntaxError, SyntaxErrorKind,
};
use crate::model::{derive_events, derive_states, rows_text, Model, ModelText, RowText, TransitionRow};

verus! {

/// The arrow `->` after optional whitespace at `i`, and the position after it.
pub open spec fn arrow_at(s: Seq<char>, i: int) -> Result<int, SyntaxError> {
    let a = ws_end(s, i);
    if a + 1 < s.len() && s[a] == '-' && s[a + 1] == '>' {
        Ok(a + 2)
    } else {
        Err(syntax_error(a, SyntaxErrorKind::Arrow))
    }
}

/// The end of a row's event list after its first event: more events, each
/// after a comma, an optional trailing comma, then `)`. Only the first event
/// of the list is the row's.
pub open spec fn event_list_end(s: Seq<char>, i: int) -> Result<int, SyntaxError>
    decreases s.len() - i,
{
    if peek_at(s, i, ')') {
        Ok(ws_end(s, i) + 1)
    } else {
        match punct_at(s, i, ',') {
            Err(e) => Err(e),
            Ok(j) => if peek_at(s, j, ')') {
                Ok(ws_end(s, j) + 1)
            } else {
                match ident_at(s, j) {
                    Err(e) => Err(e),
                    Ok((_, k)) => if i < k <= s.len() {
                        event_list_end(s, k)
                    } else {
                        Err(syntax_error(k, SyntaxErrorKind::Ident))
                    },
                }
            },
        }
    }
}

/// A row `state(event) -> next [= action]` after optional whitespace at `i`,
/// and the position after it.
pub open spec fn row_at(s: Seq<char>, i: int) -> Result<(RowText, int), SyntaxError> {
    match ident_at(s, i) {
        Err(e) => Err(e),
        Ok((state, i1)) => match punct_at(s, i1, '(') {
            Err(e) => Err(e),
            Ok(i2) => match ident_at(s, i2) {
                Err(e) => Err(e),
                Ok((event, i3)) => match event_list_end(s, i3) {
                    Err(e) => Err(e),
                    Ok(i4) => match arrow_at(s, i4) {
                        Err(e) => Err(e),
                        Ok(i5) => match ident_at(s, i5) {
                            Err(e) => Err(e),
                            Ok((next, i6)) => if peek_at(s, i6, '=') {
                                match fragment_at(s, ws_end(s, i6) + 1, true, false) {
                                    Err(e) => Err(e),
                                    Ok((action, i7)) => Ok(
                                        (RowText { state, event, next, action: Some(action) }, i7),
                                    ),
                                }
                            } else {
                                Ok((RowText { state, event, next, action: None }, i6))
                            },
                        },
                    },
                },
            },
        },
    }
}

/// The rows from `i` to the closing brace of the table, separated by commas,
/// with an optional trailing comma, after the rows `acc` read before; and the
/// position after the brace. A table holds at least one row: a brace where
/// the first row should start is an error.
pub open spec fn rows_from(s: Seq<char>, i: int, acc: Seq<RowText>) -> Result<(Seq<RowText>, int), SyntaxError>
    decreases s.len() - i,
{
    if acc.len() > 0 && peek_at(s, i, '}') {
        Ok((acc, ws_end(s, i) + 1))
    } else {
        match row_at(s, i) {
            Err(e) => Err(e),
            Ok((row, j)) => if peek_at(s, j, '}') {
                Ok((acc.push(row), ws_end(s, j) + 1))
            } else {
                match punct_at(s, j, ',') {
                    Err(e) => Err(e),
                    Ok(k) => if i < k <= s.len() {
                        rows_from(s, k, acc.push(row))
                    } else {
                        Err(syntax_error(k, SyntaxErrorKind::Punct(',')))
                    },
                }
            },
        }
    }
}

/// The position after an optional comma at `i`.
pub open spec fn optional_comma(s: Seq<char>, i: int) -> int {
    if peek_at(s, i, ',') {
        ws_end(s, i) + 1
    } else {
        i
    }
}

/// The keyword `kw` as an identifier at `i`, then `=` and a type: the type and
/// the position after it.
pub open spec fn declaration_at(s: Seq<char>, i: int, kw: Seq<char>, kind: SyntaxErrorKind, brace: bool) -> Result<(Seq<char>, int), SyntaxError> {
    match ident_at(s, i) {
        Err(e) => Err(e),
        Ok((word, i1)) => if word != kw {
            Err(syntax_error(ws_end(s, i), kind))
        } else {
            match punct_at(s, i1, '=') {
                Err(e) => Err(e),
                Ok(i2) => fragment_at(s, i2, false, brace),
            }
        },
    }
}

pub open spec fn error_word() -> Seq<char> {
    seq!['E', 'r', 'r', 'o', 'r']
}

pub open spec fn context_word() -> Seq<char> {
    seq!['C', 'o', 'n', 't', 'e', 'x', 't']
}

/// The whole text as a machine:
/// `Name, Error = Type, Context = Type [,] { row (, row)* [,] } [,]`.
pub open spec fn model_of(s: Seq<char>) -> Result<ModelText, SyntaxError> {
    match ident_at(s, 0) {
        Err(e) => Err(e),
        Ok((name, i1)) => match punct_at(s, i1, ',') {
            Err(e) => Err(e),
            Ok(i2) => match declaration_at(s, i2, error_word(), SyntaxErrorKind::ErrorKeyword, false) {
                Err(e) => Err(e),
                Ok((error, i3)) => match punct_at(s, i3, ',') {
                    Err(e) => Err(e),
                    Ok(i4) => match declaration_at(s, i4, context_word(), SyntaxErrorKind::ContextKeyword, true) {
                        Err(e) => Err(e),
                        Ok((context, i5)) => match punct_at(s, optional_comma(s, i5), '{') {
                            Err(e) => Err(e),
                            Ok(i6) => match rows_from(s, i6, Seq::empty()) {
                                Err(e) => Err(e),
                                Ok((rows, i7)) => {
                                    let end = ws_end(s, optional_comma(s, i7));
                                    if end == s.len() {
                                        Ok(ModelText { name, error, context, rows })
                                    } else {
                                        Err(syntax_error(end, SyntaxErrorKind::End))
                                    }
                                },
                            },
                        },
                    },
                },
            },
        },
    }
}

fn parse_arrow(s: &Vec<char>, i: usize) -> (r: Result<usize, SyntaxError>)
    requires
        i <= s.len(),
    ensures
        match arrow_at(s@, i as int) {
            Ok(j) => r == Ok::<usize, SyntaxError>(j as usize) && i < j <= s.len(),
            Err(e) => r == Err::<usize, SyntaxError>(e),
        },
{
    let a = skip_ws(s, i);
    if s.len() > 1 && a < s.len() - 1 && s[a] == '-' && s[a + 1] == '>' {
        Ok(a + 2)
    } else {
        Err(SyntaxError { at: a, kind: SyntaxErrorKind::Arrow })
    }
}

fn parse_event_list_end(text: &str, s: &Vec<char>, i: usize) -> (r: Result<usize, SyntaxError>)
    requires
        s@ == text@,
        i <= s.len(),
    ensures
        match event_list_end(s@, i as int) {
            Ok(j) => r == Ok::<usize, SyntaxError>(j as usize) && i < j <= s.len(),
            Err(e) => r == Err::<usize, SyntaxError>(e),
        },
{
    let mut k = i;
    loop
        invariant
            s@ == text@,
            i <= k <= s.len(),
            event_list_end(s@, i as int) == event_list_end(s@, k as int),
        decreases s.len() - k,
    {
        if peek_punct(s, k, ')') {
            return Ok(skip_ws(s, k) + 1);
        }
        let j = match parse_punct(s, k, ',') {
            Ok(j) => j,
            Err(e) => return Err(e),
        };
        if peek_punct(s, j, ')') {
            return Ok(skip_ws(s, j) + 1);
        }
        match parse_ident(text, s, j) {
            Ok((_, n)) => {
                k = n;
            },
            Err(e) => return Err(e),
        }
    }
}

/// A row `state(event) -> next [= action]` at position `i` of the
/// characters `s` of `text`.
pub fn parse_transition(text: &str, s: &Vec<char>, i: usize) -> (r: Result<(TransitionRow, usize), SyntaxError>)
    requires
        s@ == text@,
        i <= s.len(),
    ensures
        match row_at(s@, i as int) {
            Ok((t, j)) => r matches Ok((row, k)) && row.text() == t && k == j && i < j <= s.len(),
            Err(e) => r == Err::<(TransitionRow, usize), SyntaxError>(e),
        },
{
    let (state, i1) = parse_ident(text, s, i)?;
    let i2 = parse_punct(s, i1, '(')?;
    let (event, i3) = parse_ident(text, s, i2)?;
    let i4 = parse_event_list_end(text, s, i3)?;
    let i5 = parse_arrow(s, i4)?;
    let (next, i6) = parse_ident(text, s, i5)?;
    if peek_punct(s, i6, '=') {
        let a = skip_ws(s, i6) + 1;
        let (action, i7) = parse_fragment(text, s, a, true, false)?;
        Ok((TransitionRow { state, event, next, action: Some(action) }, i7))
    } else {
        Ok((TransitionRow { state, event, next, action: None }, i6))
    }
}

fn parse_rows(text: &str, s: &Vec<char>, i: usize) -> (r: Result<(Vec<TransitionRow>, usize), SyntaxError>)
    requires
        s@ == text@,
        i <= s.len(),
    ensures
        match rows_from(s@, i as int, Seq::empty()) {
            Ok((t, j)) => r matches Ok((rows, k)) && rows_text(rows@) == t && k == j && j <= s.len(),
            Err(e) => r == Err::<(Vec<TransitionRow>, usize), SyntaxError>(e),
        },
{
    let mut rows: Vec<TransitionRow> = Vec::new();
    let mut k = i;
    proof {
        assert(rows_text(rows@) =~= Seq::<RowText>::empty());
    }
    loop
        invariant
            s@ == text@,
            i <= k <= s.len(),
            rows_from(s@, i as int, Seq::empty()) == rows_from(s@, k as int, rows_text(rows@)),
        decreases s.len() - k,
    {
        if rows.len() > 0 && peek_punct(s, k, '}') {
            return Ok((rows, skip_ws(s, k) + 1));
        }
        let (row, j) = match parse_transition(text, s, k) {
            Ok(p) => p,
            Err(e) => return Err(e),
        };
        let ghost before = rows_text(rows@);
        rows.push(row);
        proof {
            assert(rows_text(rows@) =~= before.push(row.text()));
        }
        if peek_punct(s, j, '}') {
            return Ok((rows, skip_ws(s, j) + 1));
        }
        match parse_punct(s, j, ',') {
            Ok(n) => {
                k = n;
            },
            Err(e) => return Err(e),
        }
    }
}

fn parse_declaration(text: &str, s: &Vec<char>, i: usize, kw: &str, kind: SyntaxErrorKind, brace: bool) -> (r: Result<(String, usize), SyntaxError>)
    requires
        s@ == text@,
        i <= s.len(),
    ensures
        match declaration_at(s@, i as int, kw@, kind, brace) {
            Ok((t, j)) => r matches Ok((ty, k)) && ty@ == t && k == j && i <= j <= s.len(),
            Err(e) => r == Err::<(String, usize), SyntaxError>(e),
        },
{
    let (word, i1) = parse_ident(text, s, i)?;
    if word != String::from_str(kw) {
        return Err(SyntaxError { at: skip_ws(s, i), kind });
    }
    let i2 = parse_punct(s, i1, '=')?;
    parse_fragment(text, s, i2, false, brace)
}

fn skip_optional_comma(s: &Vec<char>, i: usize) -> (r: usize)
    requires
        i <= s.len(),
    ensures
        r == optional_comma(s@, i as int),
        i <= r <= s.len(),
{
    if peek_punct(s, i, ',') {
        skip_ws(s, i) + 1
    } else {
        i
    }
}

/// Parses a machine: `Name, Error = Type, Context = Type [,] { rows } [,]`,
/// one or more rows `State(Event) -> Next [= action]`, separated by commas
/// with an optional trailing one. Whitespace and comments between tokens are
/// passed over. The states and events are derived from the rows.
pub fn parse_fsm(text: &str) -> (r: Result<Model, SyntaxError>)
    ensures
        match model_of(text@) {
            Ok(m) => r matches Ok(model) && model.text() == m && model.wf(),
            Err(e) => r == Err::<Model, SyntaxError>(e),
        },
{
    let s = chars_of(text);
    proof {
        reveal_strlit("Error");
        reveal_strlit("Context");
        assert("Error"@ =~= error_word());
        assert("Context"@ =~= context_word());
    }
    let (name, i1) = parse_ident(text, &s, 0)?;
    let i2 = parse_punct(&s, i1, ',')?;
    let (error, i3) = parse_declaration(text, &s, i2, "Error", SyntaxErrorKind::ErrorKeyword, false)?;
    let i4 = parse_punct(&s, i3, ',')?;
    let (context, i5) = parse_declaration(text, &s, i4, "Context", SyntaxErrorKind::ContextKeyword, true)?;
    let i6 = parse_punct(&s, skip_optional_comma(&s, i5), '{')?;
    let (transitions, i7) = parse_rows(text, &s, i6)?;
    let end = skip_ws(&s, skip_optional_comma(&s, i7));
    if end != s.len() {
        return Err(SyntaxError { at: end, kind: SyntaxErrorKind::End });
    }
    let states = derive_states(&transitions);
    let events = derive_events(&transitions);
    Ok(Model { name, error, context, states, events, transitions })
}

} // verus!
