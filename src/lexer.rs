use vstd::prelude::*;
use crate::atoms::{
    atom_end, ident_end, is_trivia, lemma_atom_end_bounds, scan_atom_end, scan_ident_end, ws_char,
};
use crate::syntax::{accepts_expr, accepts_ident, accepts_type, is_rust_expr, is_rust_ident, is_rust_type};

verus! {

/// What the parser expected where it stopped.
#[derive(Clone, Copy, Debug, PartialEq, Eq, Structural)]
pub enum SyntaxErrorKind {
    /// An identifier.
    Ident,
    /// This punctuation character.
    Punct(char),
    /// The arrow `->` of a row.
    Arrow,
    /// The keyword `Error`.
    ErrorKeyword,
    /// The keyword `Context`.
    ContextKeyword,
    /// A Rust type.
    Type,
    /// A Rust expression, the inline action of a row.
    Action,
    /// The end of the input.
    End,
}

/// A syntax error: where the parser stopped, counted in characters, and what
/// it expected there.
#[derive(Clone, Copy, Debug, PartialEq, Eq, Structural)]
pub struct SyntaxError {
    pub at: usize,
    pub kind: SyntaxErrorKind,
}

pub open spec fn syntax_error(at: int, kind: SyntaxErrorKind) -> SyntaxError {
    SyntaxError { at: at as usize, kind }
}

pub open spec fn is_opener(c: char) -> bool {
    c == '(' || c == '[' || c == '{'
}

pub open spec fn is_closer(c: char) -> bool {
    c == ')' || c == ']' || c == '}'
}

/// The first position at or after `i` that holds neither whitespace nor a
/// comment.
pub open spec fn ws_end(s: Seq<char>, i: int) -> int
    decreases s.len() - i,
{
    if 0 <= i < s.len() && is_trivia(s, i) {
        proof {
            lemma_atom_end_bounds(s, i);
        }
        ws_end(s, atom_end(s, i))
    } else {
        i
    }
}

/// An identifier after optional whitespace at `i`: its text and the position
/// after it.
pub open spec fn ident_at(s: Seq<char>, i: int) -> Result<(Seq<char>, int), SyntaxError> {
    let a = ws_end(s, i);
    let b = ident_end(s, a);
    if is_rust_ident(s.subrange(a, b)) {
        Ok((s.subrange(a, b), b))
    } else {
        Err(syntax_error(a, SyntaxErrorKind::Ident))
    }
}

/// The character `c` after optional whitespace at `i`, and the position after
/// it.
pub open spec fn punct_at(s: Seq<char>, i: int, c: char) -> Result<int, SyntaxError> {
    let a = ws_end(s, i);
    if a < s.len() && s[a] == c {
        Ok(a + 1)
    } else {
        Err(syntax_error(a, SyntaxErrorKind::Punct(c)))
    }
}

/// Whether the next character after optional whitespace is `c`.
pub open spec fn peek_at(s: Seq<char>, i: int, c: char) -> bool {
    let a = ws_end(s, i);
    a < s.len() && s[a] == c
}

/// The first unit boundary at or after `i` where a span that is `d` brackets
/// deep may end: a comma or an unmatched closing bracket outside any bracket,
/// an opening brace there too when `brace` holds, or the end of the text.
/// Brackets and commas inside comments and literals do not count.
pub open spec fn stop_at(s: Seq<char>, i: int, d: int, brace: bool) -> int
    decreases s.len() - i,
{
    if i < 0 || i >= s.len() {
        i
    } else if d == 0 && (s[i] == ',' || is_closer(s[i]) || (brace && s[i] == '{')) {
        i
    } else {
        proof {
            lemma_atom_end_bounds(s, i);
        }
        let d2 = if is_opener(s[i]) {
            d + 1
        } else if is_closer(s[i]) {
            d - 1
        } else {
            d
        };
        stop_at(s, atom_end(s, i), d2, brace)
    }
}

/// Whether `t` is a Rust expression (for `expr`) or a Rust type.
pub open spec fn fragment_ok(t: Seq<char>, expr: bool) -> bool {
    if expr {
        is_rust_expr(t)
    } else {
        is_rust_type(t)
    }
}

/// The end of the shortest span from `a` that is a whole type (or expression)
/// and stops where `stop_at` allows, looking for stops from `i` on. Commas
/// inside the fragment, as in `HashMap<K, V>` or `|s, e, c| ..`, are passed
/// over until the span reads whole.
pub open spec fn fragment_end(s: Seq<char>, a: int, i: int, expr: bool, brace: bool) -> Result<int, SyntaxError>
    decreases s.len() - i,
{
    let j = stop_at(s, i, 0, brace);
    if a <= j && fragment_ok(s.subrange(a, j), expr) {
        Ok(j)
    } else if i <= j < s.len() && s[j] == ',' {
        fragment_end(s, a, j + 1, expr, brace)
    } else {
        Err(syntax_error(a, if expr { SyntaxErrorKind::Action } else { SyntaxErrorKind::Type }))
    }
}

/// The end of the last unit before `j`, from `i` on, that is neither
/// whitespace nor a comment; `last` where there is none.
pub open spec fn content_end(s: Seq<char>, i: int, j: int, last: int) -> int
    decreases s.len() - i,
{
    if i < 0 || i >= j || i >= s.len() {
        last
    } else {
        proof {
            lemma_atom_end_bounds(s, i);
        }
        let k = atom_end(s, i);
        if is_trivia(s, i) {
            content_end(s, k, j, last)
        } else {
            content_end(s, k, j, k)
        }
    }
}

/// A type (or expression) after optional whitespace at `i`: its text, without
/// surrounding whitespace and comments, and the position after it.
pub open spec fn fragment_at(s: Seq<char>, i: int, expr: bool, brace: bool) -> Result<(Seq<char>, int), SyntaxError> {
    let a = ws_end(s, i);
    match fragment_end(s, a, a, expr, brace) {
        Ok(j) => Ok((s.subrange(a, content_end(s, a, j, a)), j)),
        Err(e) => Err(e),
    }
}

/// The characters of `text`.
pub fn chars_of(text: &str) -> (r: Vec<char>)
    ensures
        r@ == text@,
{
    let n = text.unicode_len();
    let mut r: Vec<char> = Vec::new();
    let mut i: usize = 0;
    while i < n
        invariant
            n == text@.len(),
            i <= n,
            r@ == text@.subrange(0, i as int),
        decreases n - i,
    {
        r.push(text.get_char(i));
        i = i + 1;
        proof {
            assert(r@ =~= text@.subrange(0, i as int));
        }
    }
    proof {
        assert(r@ =~= text@);
    }
    r
}

pub fn skip_ws(s: &Vec<char>, i: usize) -> (r: usize)
    requires
        i <= s.len(),
    ensures
        r == ws_end(s@, i as int),
        i <= r <= s.len(),
{
    let mut k = i;
    while k < s.len() && (ws_char(s[k]) || (k + 1 < s.len() && s[k] == '/' && (s[k + 1] == '/' || s[k + 1] == '*')))
        invariant
            i <= k <= s.len(),
            ws_end(s@, i as int) == ws_end(s@, k as int),
        decreases s.len() - k,
    {
        k = scan_atom_end(s, k);
    }
    k
}

pub fn parse_ident(text: &str, s: &Vec<char>, i: usize) -> (r: Result<(String, usize), SyntaxError>)
    requires
        s@ == text@,
        i <= s.len(),
    ensures
        match ident_at(s@, i as int) {
            Ok((t, j)) => r matches Ok((name, k)) && name@ == t && k == j && i <= j <= s.len(),
            Err(e) => r == Err::<(String, usize), SyntaxError>(e),
        },
{
    let a = skip_ws(s, i);
    let b = scan_ident_end(s, a);
    let t = text.substring_char(a, b);
    if accepts_ident(t) {
        Ok((String::from_str(t), b))
    } else {
        Err(SyntaxError { at: a, kind: SyntaxErrorKind::Ident })
    }
}

pub fn parse_punct(s: &Vec<char>, i: usize, c: char) -> (r: Result<usize, SyntaxError>)
    requires
        i <= s.len(),
    ensures
        match punct_at(s@, i as int, c) {
            Ok(j) => r == Ok::<usize, SyntaxError>(j as usize) && i < j <= s.len(),
            Err(e) => r == Err::<usize, SyntaxError>(e),
        },
{
    let a = skip_ws(s, i);
    if a < s.len() && s[a] == c {
        Ok(a + 1)
    } else {
        Err(SyntaxError { at: a, kind: SyntaxErrorKind::Punct(c) })
    }
}

pub fn peek_punct(s: &Vec<char>, i: usize, c: char) -> (r: bool)
    requires
        i <= s.len(),
    ensures
        r == peek_at(s@, i as int, c),
{
    let a = skip_ws(s, i);
    a < s.len() && s[a] == c
}

pub fn scan_stop(s: &Vec<char>, i: usize, brace: bool) -> (r: usize)
    requires
        i <= s.len(),
    ensures
        r == stop_at(s@, i as int, 0, brace),
        i <= r <= s.len(),
{
    let mut k = i;
    let mut d: usize = 0;
    while k < s.len() && !(d == 0 && (s[k] == ',' || s[k] == ')' || s[k] == ']' || s[k] == '}' || (brace && s[k] == '{')))
        invariant
            i <= k <= s.len(),
            d <= k - i,
            stop_at(s@, i as int, 0, brace) == stop_at(s@, k as int, d as int, brace),
        decreases s.len() - k,
    {
        let c = s[k];
        if c == '(' || c == '[' || c == '{' {
            d = d + 1;
        } else if c == ')' || c == ']' || c == '}' {
            d = d - 1;
        }
        k = scan_atom_end(s, k);
    }
    k
}

fn fragment_accepted(text: &str, a: usize, j: usize, expr: bool) -> (r: bool)
    requires
        a <= j <= text@.len(),
    ensures
        r == fragment_ok(text@.subrange(a as int, j as int), expr),
{
    let t = text.substring_char(a, j);
    if expr {
        accepts_expr(t)
    } else {
        accepts_type(t)
    }
}

pub fn scan_fragment_end(text: &str, s: &Vec<char>, a: usize, expr: bool, brace: bool) -> (r: Result<usize, SyntaxError>)
    requires
        s@ == text@,
        a <= s.len(),
    ensures
        match fragment_end(s@, a as int, a as int, expr, brace) {
            Ok(j) => r == Ok::<usize, SyntaxError>(j as usize) && a <= j <= s.len(),
            Err(e) => r == Err::<usize, SyntaxError>(e),
        },
{
    let mut i = a;
    loop
        invariant
            s@ == text@,
            a <= i <= s.len(),
            fragment_end(s@, a as int, a as int, expr, brace) == fragment_end(s@, a as int, i as int, expr, brace),
        decreases s.len() - i,
    {
        let j = scan_stop(s, i, brace);
        if fragment_accepted(text, a, j, expr) {
            return Ok(j);
        } else if j < s.len() && s[j] == ',' {
            i = j + 1;
        } else {
            let kind = if expr { SyntaxErrorKind::Action } else { SyntaxErrorKind::Type };
            return Err(SyntaxError { at: a, kind });
        }
    }
}

pub fn scan_content_end(s: &Vec<char>, a: usize, j: usize) -> (r: usize)
    requires
        a <= j <= s.len(),
    ensures
        r == content_end(s@, a as int, j as int, a as int),
        a <= r <= s.len(),
{
    let mut k = a;
    let mut last = a;
    while k < j
        invariant
            a <= k <= s.len(),
            a <= last <= s.len(),
            j <= s.len(),
            content_end(s@, a as int, j as int, a as int) == content_end(s@, k as int, j as int, last as int),
        decreases s.len() - k,
    {
        let trivia = ws_char(s[k]) || (k + 1 < s.len() && s[k] == '/' && (s[k + 1] == '/' || s[k + 1] == '*'));
        k = scan_atom_end(s, k);
        if !trivia {
            last = k;
        }
    }
    last
}

pub fn parse_fragment(text: &str, s: &Vec<char>, i: usize, expr: bool, brace: bool) -> (r: Result<(String, usize), SyntaxError>)
    requires
        s@ == text@,
        i <= s.len(),
    ensures
        match fragment_at(s@, i as int, expr, brace) {
            Ok((t, j)) => r matches Ok((frag, k)) && frag@ == t && k == j && i <= j <= s.len(),
            Err(e) => r == Err::<(String, usize), SyntaxError>(e),
        },
{
    let a = skip_ws(s, i);
    let j = scan_fragment_end(text, s, a, expr, brace)?;
    let e = scan_content_end(s, a, j);
    Ok((String::from_str(text.substring_char(a, e)), j))
}

} // verus!
