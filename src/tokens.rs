//! The token buffer that generated code is written to.
use vstd::prelude::*;

use quote::Tokens;

verus! {

#[verifier::external_type_specification]
#[verifier::external_body]
pub struct ExTokens(quote::Tokens);

/// The text held by a token buffer.
pub uninterp spec fn tokens_text(t: quote::Tokens) -> Seq<char>;

/// The text after one token is appended: tokens are separated by a single
/// space, and an empty token leaves the text as it was.
pub open spec fn appended(text: Seq<char>, token: Seq<char>) -> Seq<char> {
    if text.len() > 0 && token.len() > 0 {
        text + seq![' '] + token
    } else {
        text + token
    }
}

/// Relies on quote::Tokens::new: a new buffer holds no text.
#[verifier::external_body]
pub(crate) fn new_tokens() -> (r: Tokens)
    ensures
        tokens_text(r) == Seq::<char>::empty(),
{
    Tokens::new()
}

/// Relies on quote::Tokens::append: pushes a space unless the buffer or the
/// token is empty, then the token itself.
#[verifier::external_body]
pub(crate) fn append_token(t: &mut Tokens, token: &str)
    ensures
        tokens_text(*final(t)) == appended(tokens_text(*old(t)), token@),
{
    t.append(token)
}

} // verus!
