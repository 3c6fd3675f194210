//! Fresh identifiers.

use crate::text::{blank, is_blank, Text};
use vstd::prelude::*;

verus! {

/// A lower-case hexadecimal digit.
pub open spec fn is_hex(c: char) -> bool {
    ('0' <= c && c <= '9') || ('a' <= c && c <= 'f')
}

/// A text of 32 lower-case hexadecimal digits.
pub open spec fn is_simple_uuid(t: Text) -> bool {
    t.len() == 32 && forall|i: int| 0 <= i < 32 ==> is_hex(#[trigger] t[i])
}

/// A text of 36 characters: hexadecimal digits in groups of 8, 4, 4, 4 and 12,
/// with hyphens between the groups.
pub open spec fn is_uuid(t: Text) -> bool {
    t.len() == 36 && forall|i: int|
        0 <= i < 36 ==> if i == 8 || i == 13 || i == 18 || i == 23 {
            #[trigger] t[i] == '-'
        } else {
            is_hex(t[i])
        }
}

/// `uuid::Uuid::new_v4`, written without hyphens (`simple`): which identifier it
/// is is left to chance.
#[verifier::external_body]
fn new_simple_uuid() -> (r: String)
    ensures
        is_simple_uuid(r@),
{
    uuid::Uuid::new_v4().simple().to_string()
}

/// `uuid::Uuid::new_v4`, written with hyphens: which identifier it is is left to
/// chance.
#[verifier::external_body]
fn new_uuid() -> (r: String)
    ensures
        is_uuid(r@),
{
    uuid::Uuid::new_v4().to_string()
}

/// A fresh identifier with hyphens.
pub fn fresh_uuid() -> (r: String)
    ensures
        is_uuid(r@),
{
    new_uuid()
}

/// The identifier of a tool call that came without one.
pub open spec fn is_synthetic_id(t: Text) -> bool {
    exists|u: Text| is_simple_uuid(u) && t == #[trigger] synthetic_id(u)
}

pub open spec fn synthetic_id(u: Text) -> Text {
    "toolu_"@ + u
}

/// A fresh identifier for a tool call that came without one.
pub fn fresh_tool_id() -> (r: String)
    ensures
        is_synthetic_id(r@),
{
    let u = new_simple_uuid();
    let mut r = "toolu_".to_string();
    r.push_str(&u);
    assert(r@ == synthetic_id(u@));
    r
}

/// The identifier of a tool call, or `fresh` where it has none.
pub open spec fn tool_id_or(id: Text, fresh: Text) -> Text {
    if is_blank(id) {
        fresh
    } else {
        id
    }
}

/// The identifier of a tool call, or `fresh` where it has none.
pub fn id_or(id: &str, fresh: &str) -> (r: String)
    ensures
        r@ == tool_id_or(id@, fresh@),
{
    if blank(id) {
        fresh.to_string()
    } else {
        id.to_string()
    }
}

/// A tool call needs an identifier so that its answer can name it: one that is
/// empty or blank is replaced by a fresh one, any other is kept.
pub fn sanitize_tool_use_id(id: &str) -> (r: String)
    ensures
        !is_blank(id@) ==> r@ == id@,
        is_blank(id@) ==> is_synthetic_id(r@),
{
    let fresh = fresh_tool_id();
    id_or(id, &fresh)
}

} // verus!
