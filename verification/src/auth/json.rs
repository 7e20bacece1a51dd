//! Reading the claims of a decoded token.
//!
//! A decoded token hands its claims over as one JSON value. What such a
//! value holds is named here, one name for each of the four questions that
//! are asked of it, and read by the functions below.

use crate::text::text_view;
use vstd::prelude::*;

verus! {

#[verifier::external_type_specification]
#[verifier::external_body]
pub struct ExValue(serde_json::Value);

/// The member `name` of `v`, where `v` is a JSON object that has one.
pub uninterp spec fn json_member(v: serde_json::Value, name: Seq<char>) -> Option<
    serde_json::Value,
>;

/// The text of `v`, where `v` is a JSON string.
pub uninterp spec fn json_text(v: serde_json::Value) -> Option<Seq<char>>;

/// The number `v`, where `v` is a JSON number that is an integer from 0 to
/// 2^64 - 1.
pub uninterp spec fn json_number(v: serde_json::Value) -> Option<u64>;

/// The items of `v`, where `v` is a JSON array.
pub uninterp spec fn json_items(v: serde_json::Value) -> Option<Seq<serde_json::Value>>;

/// The items of a list that may be absent.
pub open spec fn items_view(t: Option<Vec<serde_json::Value>>) -> Option<Seq<serde_json::Value>> {
    match t {
        Some(s) => Some(s@),
        None => None,
    }
}

/// Calls `serde_json::Value::get` with a text as index: a copy of the member
/// of that name where `v` is an object that has one, else nothing.
#[verifier::external_body]
fn member(v: &serde_json::Value, name: &str) -> (r: Option<serde_json::Value>)
    ensures
        r == json_member(*v, name@),
{
    v.get(name).cloned()
}

/// Calls `serde_json::Value::as_str`: the text where `v` is a string, else
/// nothing.
#[verifier::external_body]
fn text(v: &serde_json::Value) -> (r: Option<String>)
    ensures
        text_view(r) == json_text(*v),
{
    v.as_str().map(str::to_owned)
}

/// Calls `serde_json::Value::as_u64`: the number where `v` is an integer
/// that fits in 64 bits without a sign, else nothing.
#[verifier::external_body]
fn number(v: &serde_json::Value) -> (r: Option<u64>)
    ensures
        r == json_number(*v),
{
    v.as_u64()
}

/// Calls `serde_json::Value::as_array`: copies of the items where `v` is an
/// array, else nothing.
#[verifier::external_body]
fn items(v: &serde_json::Value) -> (r: Option<Vec<serde_json::Value>>)
    ensures
        items_view(r) == json_items(*v),
{
    v.as_array().cloned()
}

/// The text of the claim `name`, where the claims have it as a string.
pub open spec fn claim_text(claims: serde_json::Value, name: Seq<char>) -> Option<Seq<char>> {
    match json_member(claims, name) {
        Some(v) => json_text(v),
        None => None,
    }
}

/// The number of the claim `name`, where the claims have it as an integer
/// from 0 to 2^64 - 1.
pub open spec fn claim_number(claims: serde_json::Value, name: Seq<char>) -> Option<u64> {
    match json_member(claims, name) {
        Some(v) => json_number(v),
        None => None,
    }
}

/// The texts among `items`, in their order.
pub open spec fn texts(items: Seq<serde_json::Value>) -> Seq<Seq<char>>
    decreases items.len(),
{
    if items.len() == 0 {
        Seq::empty()
    } else {
        match json_text(items.last()) {
            Some(t) => texts(items.drop_last()).push(t),
            None => texts(items.drop_last()),
        }
    }
}

/// The texts of the claim `name`: the one text where the claim is a string,
/// the strings among its items where it is an array, none otherwise.
pub open spec fn claim_texts(claims: serde_json::Value, name: Seq<char>) -> Seq<Seq<char>> {
    match json_member(claims, name) {
        None => Seq::empty(),
        Some(v) => match json_text(v) {
            Some(t) => seq![t],
            None => match json_items(v) {
                Some(items) => texts(items),
                None => Seq::empty(),
            },
        },
    }
}

/// The values of a list of texts.
pub open spec fn text_rows(v: Seq<String>) -> Seq<Seq<char>> {
    v.map_values(|s: String| s@)
}

/// Reads the claim `name` as a text.
pub fn read_text(claims: &serde_json::Value, name: &str) -> (r: Option<String>)
    ensures
        text_view(r) == claim_text(*claims, name@),
{
    match member(claims, name) {
        Some(v) => text(&v),
        None => None,
    }
}

/// Reads the claim `name` as a number.
pub fn read_number(claims: &serde_json::Value, name: &str) -> (r: Option<u64>)
    ensures
        r == claim_number(*claims, name@),
{
    match member(claims, name) {
        Some(v) => number(&v),
        None => None,
    }
}

/// Reads the claim `name` as a list of texts.
pub fn read_texts(claims: &serde_json::Value, name: &str) -> (r: Vec<String>)
    ensures
        text_rows(r@) == claim_texts(*claims, name@),
{
    let mut out: Vec<String> = Vec::new();
    let v = match member(claims, name) {
        Some(v) => v,
        None => {
            assert(text_rows(out@) =~= Seq::<Seq<char>>::empty());
            return out;
        },
    };
    match text(&v) {
        Some(t) => {
            let ghost chars = t@;
            out.push(t);
            assert(text_rows(out@) =~= seq![chars]);
        },
        None => match items(&v) {
            None => {
                assert(text_rows(out@) =~= Seq::<Seq<char>>::empty());
            },
            Some(list) => {
                let mut i: usize = 0;
                assert(text_rows(out@) =~= texts(list@.take(0)));
                while i < list.len()
                    invariant
                        i <= list.len(),
                        text_rows(out@) == texts(list@.take(i as int)),
                    decreases list.len() - i,
                {
                    let ghost before = out@;
                    proof {
                        assert(list@.take(i + 1).drop_last() =~= list@.take(i as int));
                        assert(list@.take(i + 1).last() == list@[i as int]);
                    }
                    match text(&list[i]) {
                        Some(t) => {
                            let ghost chars = t@;
                            out.push(t);
                            assert(text_rows(out@) =~= text_rows(before).push(chars));
                        },
                        None => {},
                    }
                    i += 1;
                }
                assert(list@.take(i as int) =~= list@);
            },
        },
    }
    out
}

} // verus!
