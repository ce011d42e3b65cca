use vstd::prelude::*;
use crate::codegen::{generate, generated};
use crate::lexer::SyntaxError;
use crate::model::{
    canonical_names, event_set, find_duplicate, first_duplicate, has_duplicate, lemma_vocabulary_canonical,
    state_set, Model, ModelText,
};
use crate::names::names_of;
use crate::parser::{model_of, parse_fsm};

verus! {

/// Why a machine could not be compiled.
#[derive(Clone, Copy, Debug, PartialEq, Eq, Structural)]
pub enum CompileError {
    /// The text does not follow the table's syntax.
    Syntax(SyntaxError),
    /// Rows `first` and `second` (counted from 0) are both declared for the
    /// same state and event.
    Duplicate { first: usize, second: usize },
}

/// The source emitted for the parsed machine `m`, with its canonical
/// vocabulary.
pub open spec fn compiled(m: ModelText) -> Seq<char> {
    generated(m, canonical_names(state_set(m.rows)), canonical_names(event_set(m.rows)))
}

/// Compiles a transition table into the source of its machine: the table is
/// parsed, a pair declared twice is refused, and the source is generated from
/// the model with its canonical vocabulary.
pub fn fsm(input: &str) -> (r: Result<String, CompileError>)
    ensures
        match model_of(input@) {
            Err(e) => r == Err::<String, CompileError>(CompileError::Syntax(e)),
            Ok(m) => if has_duplicate(m.rows) {
                exists|i: int, j: int| first_duplicate(m.rows, i, j)
                    && r == Err::<String, CompileError>(CompileError::Duplicate { first: i as usize, second: j as usize })
            } else {
                r matches Ok(out) && out@ == compiled(m)
            },
        },
{
    let model = match parse_fsm(input) {
        Ok(model) => model,
        Err(e) => return Err(CompileError::Syntax(e)),
    };
    if let Some((first, second)) = find_duplicate(&model.transitions) {
        return Err(CompileError::Duplicate { first, second });
    }
    proof {
        lemma_vocabulary_canonical(model);
    }
    Ok(generate(&model))
}

/// Generation is deterministic: two well-formed models with the same text
/// (same name, types and rows in the same order) give byte-identical source,
/// however their vocabularies were built.
pub proof fn lemma_generation_deterministic(m1: Model, m2: Model)
    requires
        m1.wf(),
        m2.wf(),
        m1.text() == m2.text(),
    ensures
        generated(m1.text(), names_of(m1.states@), names_of(m1.events@))
            == generated(m2.text(), names_of(m2.states@), names_of(m2.events@)),
        generated(m1.text(), names_of(m1.states@), names_of(m1.events@)) == compiled(m1.text()),
{
    lemma_vocabulary_canonical(m1);
    lemma_vocabulary_canonical(m2);
}

} // verus!
