use vstd::prelude::*;

verus! {

/// The lower-case hexadecimal digits.
pub open spec fn hex_digits() -> Seq<char> {
    seq!['0', '1', '2', '3', '4', '5', '6', '7', '8', '9', 'a', 'b', 'c', 'd', 'e', 'f']
}

pub open spec fn pow16(e: nat) -> nat
    decreases e,
{
    if e == 0 {
        1
    } else {
        16 * pow16((e - 1) as nat)
    }
}

/// Hexadecimal digit `k` of `id`, counted from the most significant (0 to 31).
pub open spec fn hex_digit_of(id: u128, k: int) -> char {
    hex_digits()[((id as nat) / pow16((31 - k) as nat)) as int % 16]
}

/// Which hexadecimal digit stands at position `i` of the hyphenated text.
pub open spec fn digit_at(i: int) -> int {
    if i < 8 {
        i
    } else if i < 13 {
        i - 1
    } else if i < 18 {
        i - 2
    } else if i < 23 {
        i - 3
    } else {
        i - 4
    }
}

/// The hyphenated lower-case text of a task identifier: its 32 hexadecimal
/// digits, most significant first, with hyphens at positions 8, 13, 18 and 23.
pub open spec fn uuid_text(id: u128) -> Seq<char> {
    Seq::new(
        36,
        |i: int|
            if i == 8 || i == 13 || i == 18 || i == 23 {
                '-'
            } else {
                hex_digit_of(id, digit_at(i))
            },
    )
}

/// The identifier that a text denotes, if it is a well-formed identifier text.
pub uninterp spec fn uuid_parsed(text: Seq<char>) -> Option<u128>;

/// Relies on uuid::Uuid::new_v4: a fresh random identifier, read as a 128-bit integer.
/// Nothing is promised of its value.
#[verifier::external_body]
pub(crate) fn fresh_task_id() -> (r: u128) {
    uuid::Uuid::new_v4().as_u128()
}

/// Relies on uuid::Uuid::from_u128 and the `Display` of `Uuid`: the text of an
/// identifier, in the hyphenated form, which `Uuid::parse_str` reads back.
#[verifier::external_body]
pub(crate) fn format_task_id(id: u128) -> (r: String)
    ensures
        r@ == uuid_text(id),
        uuid_parsed(r@) == Some(id),
{
    uuid::Uuid::from_u128(id).to_string()
}

/// Relies on uuid::Uuid::parse_str: the identifier that `text` denotes, or `None`
/// when the text is not an identifier.
#[verifier::external_body]
pub(crate) fn parse_task_id(text: &str) -> (r: Option<u128>)
    ensures
        r == uuid_parsed(text@),
{
    match uuid::Uuid::parse_str(text) {
        Ok(u) => Some(u.as_u128()),
        Err(_) => None,
    }
}

} // verus!
