use vstd::prelude::*;

verus! {

/// The snake-case form that `heck::ToSnakeCase::to_snake_case` gives a text.
pub uninterp spec fn snake_case(text: Seq<char>) -> Seq<char>;

/// Calls `heck::ToSnakeCase::to_snake_case` on `text`.
///
/// Believed, not proved: the string that comes back is the one that
/// [`snake_case`] names.
#[verifier::external_body]
pub(crate) fn to_snake_case(text: &str) -> (r: String)
    ensures
        r@ == snake_case(text@),
{
    heck::ToSnakeCase::to_snake_case(text)
}

} // verus!
