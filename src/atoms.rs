use vstd::prelude::*;

verus! {

// The smallest units of the table's text that brackets and commas never
// split: comments, string, character and raw-string literals, and words.

/// Rust's whitespace characters.
pub open spec fn is_ws(c: char) -> bool {
    c == ' ' || c == '\t' || c == '\n' || c == '\r' || c == '\u{0B}' || c == '\u{0C}' || c == '\u{85}'
        || c == '\u{200E}' || c == '\u{200F}' || c == '\u{2028}' || c == '\u{2029}'
}

/// Characters that may stand in a word: ASCII letters, digits and `_`, and
/// every non-ASCII character but whitespace. Whether a word is an identifier
/// is syn's to say.
pub open spec fn is_ident_char(c: char) -> bool {
    ('a' <= c && c <= 'z') || ('A' <= c && c <= 'Z') || ('0' <= c && c <= '9') || c == '_'
        || ((c as int) >= 128 && !is_ws(c))
}

/// The end of the run of word characters that starts at `j`.
pub open spec fn ident_end(s: Seq<char>, j: int) -> int
    decreases s.len() - j,
{
    if 0 <= j < s.len() && is_ident_char(s[j]) {
        ident_end(s, j + 1)
    } else {
        j
    }
}

/// A comment starts at `i`: `//` or `/*`.
pub open spec fn starts_comment(s: Seq<char>, i: int) -> bool {
    0 <= i && i + 1 < s.len() && s[i] == '/' && (s[i + 1] == '/' || s[i + 1] == '*')
}

/// The end of a line comment whose text runs from `j`: the next newline, or
/// the end of the text.
pub open spec fn line_end(s: Seq<char>, j: int) -> int
    decreases s.len() - j,
{
    if j < 0 || j >= s.len() {
        s.len() as int
    } else if s[j] == '\n' {
        j
    } else {
        line_end(s, j + 1)
    }
}

/// The position after a block comment whose text runs from `j`, inside `d`
/// comments nested in the outermost one.
pub open spec fn block_end(s: Seq<char>, j: int, d: nat) -> int
    decreases s.len() - j,
{
    if j < 0 || j >= s.len() {
        s.len() as int
    } else if j + 1 < s.len() && s[j] == '*' && s[j + 1] == '/' {
        if d == 0 {
            j + 2
        } else {
            block_end(s, j + 2, (d - 1) as nat)
        }
    } else if j + 1 < s.len() && s[j] == '/' && s[j + 1] == '*' {
        block_end(s, j + 2, d + 1)
    } else {
        block_end(s, j + 1, d)
    }
}

/// The position after the comment that starts at `i`.
pub open spec fn comment_end(s: Seq<char>, i: int) -> int {
    if s[i + 1] == '/' {
        line_end(s, i + 2)
    } else {
        block_end(s, i + 2, 0)
    }
}

/// The position after a string literal whose text runs from `j`, past its
/// escapes.
pub open spec fn str_end(s: Seq<char>, j: int) -> int
    decreases s.len() - j,
{
    if j < 0 || j >= s.len() {
        s.len() as int
    } else if s[j] == '"' {
        j + 1
    } else if s[j] == '\\' && j + 1 < s.len() {
        str_end(s, j + 2)
    } else {
        str_end(s, j + 1)
    }
}

/// The position after the next `'` at or after `j`.
pub open spec fn quote_close(s: Seq<char>, j: int) -> int
    decreases s.len() - j,
{
    if j < 0 || j >= s.len() {
        s.len() as int
    } else if s[j] == '\'' {
        j + 1
    } else {
        quote_close(s, j + 1)
    }
}

/// The position after a character literal that starts with the `'` at `i`;
/// a `'` that starts a lifetime or a label stands alone.
pub open spec fn char_end(s: Seq<char>, i: int) -> int {
    if i + 1 < s.len() && s[i + 1] == '\\' {
        quote_close(s, i + 3)
    } else if i + 2 < s.len() && s[i + 2] == '\'' {
        i + 3
    } else {
        i + 1
    }
}

/// The end of the run of `#` that starts at `j`.
pub open spec fn hash_end(s: Seq<char>, j: int) -> int
    decreases s.len() - j,
{
    if 0 <= j < s.len() && s[j] == '#' {
        hash_end(s, j + 1)
    } else {
        j
    }
}

/// The position after the `"` followed by `n` hashes that closes a raw
/// string whose text runs from `j`.
pub open spec fn raw_close(s: Seq<char>, j: int, n: int) -> int
    decreases s.len() - j,
{
    if j < 0 || j >= s.len() {
        s.len() as int
    } else if s[j] == '"' && hash_end(s, j + 1) - (j + 1) >= n {
        j + 1 + n
    } else {
        raw_close(s, j + 1, n)
    }
}

/// The position after a raw string whose hashes start at `k`, just after its
/// prefix; `k` itself where no raw string opens there.
pub open spec fn raw_end(s: Seq<char>, k: int) -> int {
    let h = hash_end(s, k);
    if h < s.len() && s[h] == '"' {
        raw_close(s, h + 1, h - k)
    } else {
        k
    }
}

/// The prefixes of raw strings: `r`, `br` and `cr`.
pub open spec fn is_raw_prefix(w: Seq<char>) -> bool {
    w == seq!['r'] || w == seq!['b', 'r'] || w == seq!['c', 'r']
}

/// The position after the word at `i`, and after the raw string that the
/// word opens, if it does.
pub open spec fn word_end(s: Seq<char>, i: int) -> int {
    let k = ident_end(s, i);
    if is_raw_prefix(s.subrange(i, k)) && k < s.len() && (s[k] == '"' || s[k] == '#') {
        raw_end(s, k)
    } else {
        k
    }
}

/// The position after the unit of text that starts at `i`: a comment, a
/// literal, a word, or else a single character.
pub open spec fn atom_end(s: Seq<char>, i: int) -> int {
    if starts_comment(s, i) {
        comment_end(s, i)
    } else if s[i] == '"' {
        str_end(s, i + 1)
    } else if s[i] == '\'' {
        char_end(s, i)
    } else if is_ident_char(s[i]) {
        word_end(s, i)
    } else {
        i + 1
    }
}

/// The unit at `i` is whitespace or a comment.
pub open spec fn is_trivia(s: Seq<char>, i: int) -> bool {
    is_ws(s[i]) || starts_comment(s, i)
}

pub proof fn lemma_ident_end_bounds(s: Seq<char>, j: int)
    requires
        0 <= j <= s.len(),
    ensures
        j <= ident_end(s, j) <= s.len(),
    decreases s.len() - j,
{
    if j < s.len() && is_ident_char(s[j]) {
        lemma_ident_end_bounds(s, j + 1);
    }
}

pub proof fn lemma_line_end_bounds(s: Seq<char>, j: int)
    requires
        0 <= j <= s.len(),
    ensures
        j <= line_end(s, j) <= s.len(),
    decreases s.len() - j,
{
    if j < s.len() && s[j] != '\n' {
        lemma_line_end_bounds(s, j + 1);
    }
}

pub proof fn lemma_block_end_bounds(s: Seq<char>, j: int, d: nat)
    requires
        0 <= j <= s.len(),
    ensures
        j <= block_end(s, j, d) <= s.len(),
    decreases s.len() - j,
{
    if j < s.len() {
        if j + 1 < s.len() && s[j] == '*' && s[j + 1] == '/' {
            if d != 0 {
                lemma_block_end_bounds(s, j + 2, (d - 1) as nat);
            }
        } else if j + 1 < s.len() && s[j] == '/' && s[j + 1] == '*' {
            lemma_block_end_bounds(s, j + 2, d + 1);
        } else {
            lemma_block_end_bounds(s, j + 1, d);
        }
    }
}

pub proof fn lemma_str_end_bounds(s: Seq<char>, j: int)
    requires
        0 <= j <= s.len(),
    ensures
        j <= str_end(s, j) <= s.len(),
    decreases s.len() - j,
{
    if j < s.len() && s[j] != '"' {
        if s[j] == '\\' && j + 1 < s.len() {
            lemma_str_end_bounds(s, j + 2);
        } else {
            lemma_str_end_bounds(s, j + 1);
        }
    }
}

pub proof fn lemma_quote_close_bounds(s: Seq<char>, j: int)
    requires
        0 <= j,
    ensures
        quote_close(s, j) <= s.len(),
        j <= s.len() ==> j <= quote_close(s, j),
    decreases s.len() - j,
{
    if j < s.len() && s[j] != '\'' {
        lemma_quote_close_bounds(s, j + 1);
    }
}

pub proof fn lemma_hash_end_bounds(s: Seq<char>, j: int)
    requires
        0 <= j <= s.len(),
    ensures
        j <= hash_end(s, j) <= s.len(),
    decreases s.len() - j,
{
    if j < s.len() && s[j] == '#' {
        lemma_hash_end_bounds(s, j + 1);
    }
}

pub proof fn lemma_raw_close_bounds(s: Seq<char>, j: int, n: int)
    requires
        0 <= j <= s.len(),
        0 <= n,
    ensures
        j <= raw_close(s, j, n) <= s.len(),
    decreases s.len() - j,
{
    if j < s.len() {
        if s[j] == '"' && hash_end(s, j + 1) - (j + 1) >= n {
            lemma_hash_end_bounds(s, j + 1);
        } else {
            lemma_raw_close_bounds(s, j + 1, n);
        }
    }
}

/// Every unit is at least one character long and ends within the text.
pub proof fn lemma_atom_end_bounds(s: Seq<char>, i: int)
    requires
        0 <= i < s.len(),
    ensures
        i < atom_end(s, i) <= s.len(),
{
    if starts_comment(s, i) {
        lemma_line_end_bounds(s, i + 2);
        lemma_block_end_bounds(s, i + 2, 0);
    } else if s[i] == '"' {
        lemma_str_end_bounds(s, i + 1);
    } else if s[i] == '\'' {
        lemma_quote_close_bounds(s, i + 3);
    } else if is_ident_char(s[i]) {
        lemma_ident_end_bounds(s, i + 1);
        let k = ident_end(s, i);
        lemma_hash_end_bounds(s, k);
        let h = hash_end(s, k);
        if k < s.len() && h < s.len() {
            lemma_raw_close_bounds(s, h + 1, h - k);
        }
    }
}

pub fn ws_char(c: char) -> (r: bool)
    ensures
        r == is_ws(c),
{
    c == ' ' || c == '\t' || c == '\n' || c == '\r' || c == '\u{0B}' || c == '\u{0C}' || c == '\u{85}'
        || c == '\u{200E}' || c == '\u{200F}' || c == '\u{2028}' || c == '\u{2029}'
}

pub fn ident_char(c: char) -> (r: bool)
    ensures
        r == is_ident_char(c),
{
    ('a' <= c && c <= 'z') || ('A' <= c && c <= 'Z') || ('0' <= c && c <= '9') || c == '_'
        || ((c as u32) >= 128 && !ws_char(c))
}

pub fn scan_ident_end(s: &Vec<char>, i: usize) -> (r: usize)
    requires
        i <= s.len(),
    ensures
        r == ident_end(s@, i as int),
        i <= r <= s.len(),
{
    let mut k = i;
    while k < s.len() && ident_char(s[k])
        invariant
            i <= k <= s.len(),
            ident_end(s@, i as int) == ident_end(s@, k as int),
        decreases s.len() - k,
    {
        k = k + 1;
    }
    k
}

fn scan_line_end(s: &Vec<char>, j: usize) -> (r: usize)
    requires
        j <= s.len(),
    ensures
        r == line_end(s@, j as int),
{
    let mut k = j;
    while k < s.len() && s[k] != '\n'
        invariant
            j <= k <= s.len(),
            line_end(s@, j as int) == line_end(s@, k as int),
        decreases s.len() - k,
    {
        k = k + 1;
    }
    if k >= s.len() {
        s.len()
    } else {
        k
    }
}

fn scan_block_end(s: &Vec<char>, j: usize) -> (r: usize)
    requires
        j <= s.len(),
    ensures
        r == block_end(s@, j as int, 0),
{
    let mut k = j;
    let mut d: usize = 0;
    while k < s.len()
        invariant
            j <= k <= s.len(),
            d <= k,
            block_end(s@, j as int, 0) == block_end(s@, k as int, d as nat),
        decreases s.len() - k,
    {
        if k + 1 < s.len() && s[k] == '*' && s[k + 1] == '/' {
            if d == 0 {
                return k + 2;
            }
            d = d - 1;
            k = k + 2;
        } else if k + 1 < s.len() && s[k] == '/' && s[k + 1] == '*' {
            d = d + 1;
            k = k + 2;
        } else {
            k = k + 1;
        }
    }
    s.len()
}

fn scan_str_end(s: &Vec<char>, j: usize) -> (r: usize)
    requires
        j <= s.len(),
    ensures
        r == str_end(s@, j as int),
{
    let mut k = j;
    while k < s.len()
        invariant
            j <= k <= s.len(),
            str_end(s@, j as int) == str_end(s@, k as int),
        decreases s.len() - k,
    {
        if s[k] == '"' {
            return k + 1;
        } else if s[k] == '\\' && k + 1 < s.len() {
            k = k + 2;
        } else {
            k = k + 1;
        }
    }
    s.len()
}

fn scan_quote_close(s: &Vec<char>, j: usize) -> (r: usize)
    requires
        j <= s.len() + 3,
    ensures
        r == quote_close(s@, j as int),
{
    if j >= s.len() {
        return s.len();
    }
    let mut k = j;
    while k < s.len()
        invariant
            j <= k <= s.len(),
            quote_close(s@, j as int) == quote_close(s@, k as int),
        decreases s.len() - k,
    {
        if s[k] == '\'' {
            return k + 1;
        }
        k = k + 1;
    }
    s.len()
}

fn scan_hash_end(s: &Vec<char>, j: usize) -> (r: usize)
    requires
        j <= s.len(),
    ensures
        r == hash_end(s@, j as int),
        j <= r <= s.len(),
{
    let mut k = j;
    while k < s.len() && s[k] == '#'
        invariant
            j <= k <= s.len(),
            hash_end(s@, j as int) == hash_end(s@, k as int),
        decreases s.len() - k,
    {
        k = k + 1;
    }
    k
}

fn scan_raw_close(s: &Vec<char>, j: usize, n: usize) -> (r: usize)
    requires
        j <= s.len(),
    ensures
        r == raw_close(s@, j as int, n as int),
{
    let mut k = j;
    while k < s.len()
        invariant
            j <= k <= s.len(),
            raw_close(s@, j as int, n as int) == raw_close(s@, k as int, n as int),
        decreases s.len() - k,
    {
        if s[k] == '"' {
            let h = scan_hash_end(s, k + 1);
            if h - (k + 1) >= n {
                return k + 1 + n;
            }
        }
        k = k + 1;
    }
    s.len()
}

fn scan_word_end(s: &Vec<char>, i: usize) -> (r: usize)
    requires
        i < s.len(),
    ensures
        r == word_end(s@, i as int),
{
    let k = scan_ident_end(s, i);
    let w = k - i;
    let prefix = (w == 1 && s[i] == 'r') || (w == 2 && (s[i] == 'b' || s[i] == 'c') && s[i + 1] == 'r');
    proof {
        let sub = s@.subrange(i as int, k as int);
        let r1 = seq!['r'];
        let r2 = seq!['b', 'r'];
        let r3 = seq!['c', 'r'];
        assert(r1.len() == 1 && r1[0] == 'r');
        assert(r2.len() == 2 && r2[0] == 'b' && r2[1] == 'r');
        assert(r3.len() == 2 && r3[0] == 'c' && r3[1] == 'r');
        if prefix {
            if w == 1 {
                assert(sub =~= r1);
            } else if s[i as int] == 'b' {
                assert(sub =~= r2);
            } else {
                assert(sub =~= r3);
            }
        } else {
            if sub == r1 {
                assert(sub[0] == 'r');
            }
            if sub == r2 {
                assert(sub[0] == 'b' && sub[1] == 'r');
            }
            if sub == r3 {
                assert(sub[0] == 'c' && sub[1] == 'r');
            }
        }
        assert(prefix == is_raw_prefix(sub));
    }
    if prefix && k < s.len() && (s[k] == '"' || s[k] == '#') {
        let h = scan_hash_end(s, k);
        if h < s.len() && s[h] == '"' {
            scan_raw_close(s, h + 1, h - k)
        } else {
            k
        }
    } else {
        k
    }
}

pub fn scan_atom_end(s: &Vec<char>, i: usize) -> (r: usize)
    requires
        i < s.len(),
    ensures
        r == atom_end(s@, i as int),
        i < r <= s.len(),
{
    proof {
        lemma_atom_end_bounds(s@, i as int);
    }
    if i + 1 < s.len() && s[i] == '/' && (s[i + 1] == '/' || s[i + 1] == '*') {
        if s[i + 1] == '/' {
            scan_line_end(s, i + 2)
        } else {
            scan_block_end(s, i + 2)
        }
    } else if s[i] == '"' {
        scan_str_end(s, i + 1)
    } else if s[i] == '\'' {
        if i + 1 < s.len() && s[i + 1] == '\\' {
            if i + 2 >= s.len() {
                s.len()
            } else {
                scan_quote_close(s, i + 3)
            }
        } else if s.len() - i > 2 && s[i + 2] == '\'' {
            i + 3
        } else {
            i + 1
        }
    } else if ident_char(s[i]) {
        scan_word_end(s, i)
    } else {
        i + 1
    }
}

} // verus!
