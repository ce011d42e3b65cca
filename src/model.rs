use vstd::prelude::*;
use crate::names::{insert_name, lemma_sorted_names_unique, names_of, strictly_sorted};

verus! {

/// One row of a transition table: `state(event) -> next [= action]`.
#[derive(Clone, Debug)]
pub struct TransitionRow {
    pub state: String,
    pub event: String,
    pub next: String,
    /// Source text of the inline action, where the row has one.
    pub action: Option<String>,
}

/// A parsed machine: its name, the error and context types as source text,
/// the derived vocabulary, and the rows in declaration order.
#[derive(Clone, Debug)]
pub struct Model {
    pub name: String,
    pub error: String,
    pub context: String,
    pub states: Vec<String>,
    pub events: Vec<String>,
    pub transitions: Vec<TransitionRow>,
}

/// The text of a row.
pub struct RowText {
    pub state: Seq<char>,
    pub event: Seq<char>,
    pub next: Seq<char>,
    pub action: Option<Seq<char>>,
}

/// The text of a parsed machine: what a model holds before its vocabulary is
/// derived.
pub struct ModelText {
    pub name: Seq<char>,
    pub error: Seq<char>,
    pub context: Seq<char>,
    pub rows: Seq<RowText>,
}

impl TransitionRow {
    pub open spec fn text(&self) -> RowText {
        RowText {
            state: self.state@,
            event: self.event@,
            next: self.next@,
            action: match self.action {
                Some(a) => Some(a@),
                None => None,
            },
        }
    }
}

/// The texts of the rows, in order.
pub open spec fn rows_text(rows: Seq<TransitionRow>) -> Seq<RowText> {
    rows.map_values(|r: TransitionRow| r.text())
}

/// Every state named by a row, as source or as target.
pub open spec fn state_set(rows: Seq<RowText>) -> Set<Seq<char>> {
    Set::new(|s: Seq<char>| exists|i: int| 0 <= i < rows.len() && (#[trigger] rows[i].state == s || rows[i].next == s))
}

/// Every event named by a row.
pub open spec fn event_set(rows: Seq<RowText>) -> Set<Seq<char>> {
    Set::new(|e: Seq<char>| exists|i: int| 0 <= i < rows.len() && #[trigger] rows[i].event == e)
}

/// The states of `rows`, each once, in canonical order.
pub open spec fn is_state_vocabulary(v: Seq<String>, rows: Seq<RowText>) -> bool {
    strictly_sorted(names_of(v)) && names_of(v).to_set() == state_set(rows)
}

/// The events of `rows`, each once, in canonical order.
pub open spec fn is_event_vocabulary(v: Seq<String>, rows: Seq<RowText>) -> bool {
    strictly_sorted(names_of(v)) && names_of(v).to_set() == event_set(rows)
}

impl Model {
    pub open spec fn text(&self) -> ModelText {
        ModelText {
            name: self.name@,
            error: self.error@,
            context: self.context@,
            rows: rows_text(self.transitions@),
        }
    }

    /// The vocabulary is the one that the rows determine.
    pub open spec fn wf(&self) -> bool {
        is_state_vocabulary(self.states@, rows_text(self.transitions@))
            && is_event_vocabulary(self.events@, rows_text(self.transitions@))
    }
}

/// Every state that the rows name, as source or target, each once and in
/// canonical order.
pub fn derive_states(rows: &Vec<TransitionRow>) -> (r: Vec<String>)
    ensures
        is_state_vocabulary(r@, rows_text(rows@)),
{
    let mut states: Vec<String> = Vec::new();
    let mut i: usize = 0;
    while i < rows.len()
        invariant
            i <= rows.len(),
            strictly_sorted(names_of(states@)),
            names_of(states@).to_set() == state_set(rows_text(rows@).subrange(0, i as int)),
        decreases rows.len() - i,
    {
        insert_name(&mut states, &rows[i].state);
        insert_name(&mut states, &rows[i].next);
        proof {
            let pre = rows_text(rows@).subrange(0, i as int);
            let post = rows_text(rows@).subrange(0, i + 1);
            assert forall|s: Seq<char>| state_set(post).contains(s) <==> state_set(pre).insert(rows@[i as int].state@).insert(rows@[i as int].next@).contains(s) by {
                if state_set(post).contains(s) {
                    let k = choose|k: int| 0 <= k < post.len() && (#[trigger] post[k].state == s || post[k].next == s);
                    if k < i {
                        assert(pre[k] == post[k]);
                    }
                }
                if state_set(pre).contains(s) {
                    let k = choose|k: int| 0 <= k < pre.len() && (#[trigger] pre[k].state == s || pre[k].next == s);
                    assert(pre[k] == post[k]);
                    assert(post[k].state == pre[k].state);
                }
                assert(post[i as int] == rows@[i as int].text());
                assert(post[i as int].state == rows@[i as int].state@);
            }
            assert(state_set(post) =~= state_set(pre).insert(rows@[i as int].state@).insert(rows@[i as int].next@));
        }
        i = i + 1;
    }
    proof {
        assert(rows_text(rows@).subrange(0, rows.len() as int) =~= rows_text(rows@));
    }
    states
}

/// Every event that the rows name, each once and in canonical order.
pub fn derive_events(rows: &Vec<TransitionRow>) -> (r: Vec<String>)
    ensures
        is_event_vocabulary(r@, rows_text(rows@)),
{
    let mut events: Vec<String> = Vec::new();
    let mut i: usize = 0;
    while i < rows.len()
        invariant
            i <= rows.len(),
            strictly_sorted(names_of(events@)),
            names_of(events@).to_set() == event_set(rows_text(rows@).subrange(0, i as int)),
        decreases rows.len() - i,
    {
        insert_name(&mut events, &rows[i].event);
        proof {
            let pre = rows_text(rows@).subrange(0, i as int);
            let post = rows_text(rows@).subrange(0, i + 1);
            assert forall|e: Seq<char>| event_set(post).contains(e) <==> event_set(pre).insert(rows@[i as int].event@).contains(e) by {
                if event_set(post).contains(e) {
                    let k = choose|k: int| 0 <= k < post.len() && #[trigger] post[k].event == e;
                    if k < i {
                        assert(pre[k] == post[k]);
                    }
                }
                if event_set(pre).contains(e) {
                    let k = choose|k: int| 0 <= k < pre.len() && #[trigger] pre[k].event == e;
                    assert(pre[k] == post[k]);
                    assert(post[k].event == pre[k].event);
                }
                assert(post[i as int] == rows@[i as int].text());
                assert(post[i as int].event == rows@[i as int].event@);
            }
            assert(event_set(post) =~= event_set(pre).insert(rows@[i as int].event@));
        }
        i = i + 1;
    }
    proof {
        assert(rows_text(rows@).subrange(0, rows.len() as int) =~= rows_text(rows@));
    }
    events
}

/// The names of `set`, each once, in canonical order.
pub open spec fn canonical_names(set: Set<Seq<char>>) -> Seq<Seq<char>> {
    choose|v: Seq<Seq<char>>| strictly_sorted(v) && v.to_set() == set
}

/// A well-formed model holds exactly the canonical vocabulary of its rows: it
/// does not depend on how the rows are ordered, only on the names they hold.
pub proof fn lemma_vocabulary_canonical(m: Model)
    requires
        m.wf(),
    ensures
        names_of(m.states@) == canonical_names(state_set(rows_text(m.transitions@))),
        names_of(m.events@) == canonical_names(event_set(rows_text(m.transitions@))),
{
    let rows = rows_text(m.transitions@);
    let st = canonical_names(state_set(rows));
    let ev = canonical_names(event_set(rows));
    assert(strictly_sorted(st) && st.to_set() == state_set(rows));
    assert(strictly_sorted(ev) && ev.to_set() == event_set(rows));
    lemma_sorted_names_unique(names_of(m.states@), st);
    lemma_sorted_names_unique(names_of(m.events@), ev);
}

/// Two rows for the same state and event.
pub open spec fn same_pair(a: RowText, b: RowText) -> bool {
    a.state == b.state && a.event == b.event
}

/// Some two rows share their state and event.
pub open spec fn has_duplicate(rows: Seq<RowText>) -> bool {
    exists|i: int, j: int| 0 <= i < j < rows.len() && #[trigger] same_pair(rows[i], rows[j])
}

/// Row `j` is the first row that repeats the pair of an earlier row, and row
/// `i` is the first row with that pair.
pub open spec fn first_duplicate(rows: Seq<RowText>, i: int, j: int) -> bool {
    &&& 0 <= i < j < rows.len()
    &&& same_pair(rows[i], rows[j])
    &&& forall|a: int, b: int| 0 <= a < b < j ==> !#[trigger] same_pair(rows[a], rows[b])
    &&& forall|a: int| 0 <= a < i ==> !#[trigger] same_pair(rows[a], rows[j])
}

/// The first two rows declared for the same state and event, if any: such a
/// table would dispatch the pair twice.
pub fn find_duplicate(rows: &Vec<TransitionRow>) -> (r: Option<(usize, usize)>)
    ensures
        match r {
            Some((i, j)) => first_duplicate(rows_text(rows@), i as int, j as int),
            None => !has_duplicate(rows_text(rows@)),
        },
{
    let ghost t = rows_text(rows@);
    let mut j: usize = 0;
    while j < rows.len()
        invariant
            t == rows_text(rows@),
            j <= rows.len(),
            forall|a: int, b: int| 0 <= a < b < j ==> !#[trigger] same_pair(t[a], t[b]),
        decreases rows.len() - j,
    {
        let mut i: usize = 0;
        while i < j
            invariant
                t == rows_text(rows@),
                i <= j < rows.len(),
                forall|a: int, b: int| 0 <= a < b < j ==> !#[trigger] same_pair(t[a], t[b]),
                forall|a: int| 0 <= a < i ==> !#[trigger] same_pair(t[a], t[j as int]),
            decreases j - i,
        {
            if rows[i].state == rows[j].state && rows[i].event == rows[j].event {
                return Some((i, j));
            }
            i = i + 1;
        }
        j = j + 1;
    }
    None
}

} // verus!
