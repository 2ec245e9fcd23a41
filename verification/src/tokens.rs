use vstd::prelude::*;

verus! {

/// The 128-bit value, if any, that the token parser reads out of a piece of
/// text. Which texts parse, and to what, depends on the characters alone.
pub uninterp spec fn spec_parse_token(s: Seq<char>) -> Option<u128>;

/// The canonical text of a 128-bit token, a function of its bits alone.
pub uninterp spec fn spec_token_text(t: u128) -> Seq<char>;

/// Relies on `uuid::Uuid::parse_str` and `Uuid::as_u128`: parsing either
/// succeeds or fails deterministically from the input text, and a parsed
/// token is its 128 bits in big-endian order.
#[verifier::external_body]
pub fn parse_token(s: &str) -> (r: Option<u128>)
    ensures
        r == spec_parse_token(s@),
{
    match uuid::Uuid::parse_str(s) {
        Ok(u) => Some(u.as_u128()),
        Err(_) => None,
    }
}

/// Relies on `uuid::Uuid::from_u128` and the `Display` rendering of a UUID:
/// the hyphenated text is a function of the 128 bits alone.
#[verifier::external_body]
pub fn format_token(t: u128) -> (r: String)
    ensures
        r@ == spec_token_text(t),
{
    uuid::Uuid::from_u128(t).to_string()
}

/// Relies on `uuid::Uuid::new_v4` for a fresh random token; nothing is
/// assumed of the value drawn.
#[verifier::external_body]
pub fn fresh_token() -> u128 {
    uuid::Uuid::new_v4().as_u128()
}

} // verus!
