//! The JSON text of the optional scalar and list fields that are stored as
//! serialized strings on a node.
use vstd::prelude::*;

verus! {

/// The character of a decimal digit.
pub open spec fn digit_char(d: nat) -> char {
    seq!['0', '1', '2', '3', '4', '5', '6', '7', '8', '9'][d as int]
}

/// Decimal digits of a natural number, most significant first, no leading zeros.
pub open spec fn nat_text(n: nat) -> Seq<char>
    decreases n,
{
    if n < 10 {
        seq![digit_char(n)]
    } else {
        nat_text(n / 10) + seq![digit_char(n % 10)]
    }
}

/// JSON text of an integer: its digits, after a `-` when it is negative.
pub open spec fn int_text(n: int) -> Seq<char> {
    if n < 0 {
        seq!['-'] + nat_text((-n) as nat)
    } else {
        nat_text(n as nat)
    }
}

/// JSON text of an absent value.
pub open spec fn null_text() -> Seq<char> {
    seq!['n', 'u', 'l', 'l']
}

/// The items of a JSON array of integers, separated by commas.
pub open spec fn items_text(s: Seq<i64>) -> Seq<char>
    decreases s.len(),
{
    if s.len() == 0 {
        Seq::empty()
    } else if s.len() == 1 {
        int_text(s[0] as int)
    } else {
        items_text(s.drop_last()) + seq![','] + int_text(s.last() as int)
    }
}

/// Compact JSON text of an array of integers.
pub open spec fn list_text(s: Seq<i64>) -> Seq<char> {
    seq!['['] + items_text(s) + seq![']']
}

/// JSON text of an optional integer.
pub open spec fn opt_int_text(v: Option<i64>) -> Seq<char> {
    match v {
        Some(n) => int_text(n as int),
        None => null_text(),
    }
}

/// The contents of an optional vector.
pub open spec fn opt_seq(v: Option<Vec<i64>>) -> Option<Seq<i64>> {
    match v {
        Some(x) => Some(x@),
        None => None,
    }
}

/// JSON text of an optional array of integers.
pub open spec fn opt_list_text(v: Option<Seq<i64>>) -> Seq<char> {
    match v {
        Some(s) => list_text(s),
        None => null_text(),
    }
}

/// Relies on serde_json::to_string for `Option<i64>`: `null` for `None`, else
/// the integer in decimal (itoa), with no whitespace; writing to a `Vec` does
/// not fail for this type.
#[verifier::external_body]
fn opt_int_json(v: &Option<i64>) -> (r: String)
    ensures
        r@ == opt_int_text(*v),
{
    serde_json::to_string(v).unwrap_or_default()
}

/// Relies on serde_json::to_string for `Option<Vec<i64>>`: `null` for `None`,
/// else `[`, the integers in decimal separated by `,`, then `]` (compact
/// formatter); writing to a `Vec` does not fail for this type.
#[verifier::external_body]
fn opt_list_json(v: &Option<Vec<i64>>) -> (r: String)
    ensures
        r@ == opt_list_text(opt_seq(*v)),
{
    serde_json::to_string(v).unwrap_or_default()
}

/// Serialized text of an optional integer field.
pub fn encode_opt_int(v: &Option<i64>) -> (r: String)
    ensures
        r@ == opt_int_text(*v),
{
    opt_int_json(v)
}

/// Serialized text of an optional list-of-identifiers field.
pub fn encode_opt_list(v: &Option<Vec<i64>>) -> (r: String)
    ensures
        r@ == opt_list_text(opt_seq(*v)),
{
    opt_list_json(v)
}

proof fn lemma_nat_text_starts_with_digit(n: nat)
    ensures
        nat_text(n).len() > 0,
        nat_text(n)[0] != 'n' && nat_text(n)[0] != '-' && nat_text(n)[0] != '[',
    decreases n,
{
    if n >= 10 {
        lemma_nat_text_starts_with_digit(n / 10);
    }
}

/// An absent optional integer is stored as `null`, a present one never is, so
/// readers of the stored text can tell the two apart.
pub proof fn lemma_absent_int_is_distinguishable(n: i64)
    ensures
        opt_int_text(None) == null_text(),
        opt_int_text(Some(n)) != null_text(),
{
    if n < 0 {
        assert(opt_int_text(Some(n))[0] == '-');
    } else {
        lemma_nat_text_starts_with_digit(n as nat);
    }
}

/// An absent optional list is stored as `null`, a present one (even empty) never
/// is.
pub proof fn lemma_absent_list_is_distinguishable(s: Seq<i64>)
    ensures
        opt_list_text(None) == null_text(),
        opt_list_text(Some(s)) != null_text(),
{
    assert(opt_list_text(Some(s))[0] == '[');
}

} // verus!
