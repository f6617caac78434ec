//! Characters: the list offered for switching, and a character's manifest.
use vstd::prelude::*;

use crate::catalog::contains_string;

verus! {

/// The built-in character.
pub open spec fn default_character() -> Seq<char> {
    "shenshen"@
}

/// `ids` followed by those of `found` not met before, in order.
pub open spec fn add_new(ids: Seq<Seq<char>>, found: Seq<Seq<char>>) -> Seq<Seq<char>>
    decreases found.len(),
{
    if found.len() == 0 {
        ids
    } else {
        let prev = add_new(ids, found.drop_last());
        if prev.contains(found.last()) {
            prev
        } else {
            prev.push(found.last())
        }
    }
}

/// The name of the built-in character.
pub fn default_character_name() -> (r: String)
    ensures
        r@ == default_character(),
{
    String::from_str("shenshen")
}

/// The characters to offer: the built-in one first, then each character
/// found on disk (in the order found) that is not listed yet.
pub fn merge_character_ids(found: &Vec<String>) -> (r: Vec<String>)
    ensures
        r.deep_view() == add_new(seq![default_character()], found.deep_view()),
{
    let mut ids: Vec<String> = Vec::new();
    ids.push(default_character_name());
    assert(ids.deep_view() =~= seq![default_character()]);
    let mut i: usize = 0;
    while i < found.len()
        invariant
            i <= found@.len(),
            ids.deep_view() == add_new(seq![default_character()], found.deep_view().take(i as int)),
        decreases found@.len() - i,
    {
        let ghost prefix = found.deep_view().take(i as int + 1);
        assert(prefix.drop_last() =~= found.deep_view().take(i as int));
        assert(prefix.last() == found.deep_view()[i as int]);
        if !contains_string(&ids, &found[i]) {
            ids.push(found[i].clone());
            assert(ids.deep_view() =~= add_new(seq![default_character()], prefix));
        }
        i = i + 1;
    }
    assert(found.deep_view().take(found@.len() as int) =~= found.deep_view());
    ids
}

/// The list of characters never names one twice, starts with the built-in
/// one and names every character found.
pub proof fn lemma_character_list(found: Seq<Seq<char>>)
    ensures
        add_new(seq![default_character()], found).no_duplicates(),
        add_new(seq![default_character()], found)[0] == default_character(),
        add_new(seq![default_character()], found).len() >= 1,
        forall|i: int|
            0 <= i < found.len() ==> add_new(seq![default_character()], found).contains(
                #[trigger] found[i],
            ),
    decreases found.len(),
{
    let r = add_new(seq![default_character()], found);
    if found.len() > 0 {
        let rest = found.drop_last();
        lemma_character_list(rest);
        let prev = add_new(seq![default_character()], rest);
        assert forall|i: int| 0 <= i < found.len() implies r.contains(#[trigger] found[i]) by {
            if i < found.len() - 1 {
                assert(rest[i] == found[i]);
                let k = choose|k: int| 0 <= k < prev.len() && prev[k] == rest[i];
                if !prev.contains(found.last()) {
                    assert(r[k] == prev[k]);
                }
            } else {
                if !prev.contains(found.last()) {
                    assert(r[prev.len() as int] == found.last());
                }
            }
        }
    } else {
        assert(r.no_duplicates());
    }
}

/// A JSON document as `serde_json` parses it.
#[verifier::external_type_specification]
#[verifier::external_body]
pub struct ExJsonValue(serde_json::Value);

/// A `serde_json` parse error.
#[verifier::external_type_specification]
#[verifier::external_body]
pub struct ExJsonError(serde_json::Error);

/// What `serde_json` makes of a text: `None` where it is not a JSON
/// document, `Some(b)` where it is, `b` telling whether its top level is an
/// object.
pub uninterp spec fn json_shape(text: Seq<char>) -> Option<bool>;

/// Calls `serde_json::from_str::<serde_json::Value>` and tells the
/// `Value::Object` variant of the result apart from the others. The claim is
/// that whether it succeeds, and whether the top level is an object, are what
/// `json_shape` names for the text, which depends on the text alone; what
/// the parsed document holds is not stated.
#[verifier::external_body]
fn json_from_str(text: &str) -> (r: Result<(serde_json::Value, bool), serde_json::Error>)
    ensures
        match r {
            Ok((_, is_object)) => json_shape(text@) == Some(is_object),
            Err(_) => json_shape(text@) is None,
        },
{
    match serde_json::from_str::<serde_json::Value>(text) {
        Ok(serde_json::Value::Object(m)) => Ok((serde_json::Value::Object(m), true)),
        Ok(other) => Ok((other, false)),
        Err(e) => Err(e),
    }
}

/// A character's manifest from the text of its manifest file: the parsed
/// document where the text is JSON whose top level is an object, `None`
/// otherwise.
pub fn parse_manifest(text: &str) -> (r: Option<serde_json::Value>)
    ensures
        r is Some <==> json_shape(text@) == Some(true),
{
    match json_from_str(text) {
        Ok((v, is_object)) => {
            if is_object {
                Some(v)
            } else {
                None
            }
        },
        Err(_) => None,
    }
}

} // verus!
