use vstd::prelude::*;

verus! {

/// Whether the text is one Rust identifier that may name an item (no keyword,
/// not `_`), as syn reads it.
pub uninterp spec fn is_rust_ident(t: Seq<char>) -> bool;

/// Whether the text is exactly one Rust type, as syn reads it.
pub uninterp spec fn is_rust_type(t: Seq<char>) -> bool;

/// Whether the text is exactly one Rust expression, as syn reads it.
pub uninterp spec fn is_rust_expr(t: Seq<char>) -> bool;

/// Relies on `syn::parse_str::<syn::Ident>`: it accepts the whole text as one
/// identifier or fails, and the outcome depends on the text alone.
#[verifier::external_body]
pub(crate) fn accepts_ident(t: &str) -> (r: bool)
    ensures
        r == is_rust_ident(t@),
        r ==> t@.len() > 0,
{
    syn::parse_str::<syn::Ident>(t).is_ok()
}

/// Relies on `syn::parse_str::<syn::Type>`: it accepts the whole text as one
/// type or fails, and the outcome depends on the text alone.
#[verifier::external_body]
pub(crate) fn accepts_type(t: &str) -> (r: bool)
    ensures
        r == is_rust_type(t@),
{
    syn::parse_str::<syn::Type>(t).is_ok()
}

/// Relies on `syn::parse_str::<syn::Expr>`: it accepts the whole text as one
/// expression or fails, and the outcome depends on the text alone.
#[verifier::external_body]
pub(crate) fn accepts_expr(t: &str) -> (r: bool)
    ensures
        r == is_rust_expr(t@),
{
    syn::parse_str::<syn::Expr>(t).is_ok()
}

} // verus!
