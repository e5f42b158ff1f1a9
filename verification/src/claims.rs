//! What the claims of a token say.

use crate::external::json::{
    get_items, get_member, get_number, get_string, is_object, json_is_object, json_items,
    json_member, json_number, json_string,
};
use crate::external::jwt::optional_text;
use serde_json::Value;
use vstd::prelude::*;

verus! {

/// What the claims of a token say.
#[derive(Debug, PartialEq, Eq)]
pub struct Claims {
    /// Whether they are an object at all.
    pub object: bool,
    /// Whom they are about, where that is a string.
    pub subject: Option<String>,
    /// When they expire, in seconds since 1970, where that is a whole number.
    pub expiry: Option<u64>,
    /// Who issued them, where that is a string or a list of strings.
    pub issuers: Option<Vec<String>>,
    /// Whom they are for, where that is a string or a list of strings.
    pub audiences: Option<Vec<String>>,
}

/// `Claims` with texts as sequences of characters.
pub struct ClaimsView {
    pub object: bool,
    pub subject: Option<Seq<char>>,
    pub expiry: Option<u64>,
    pub issuers: Option<Seq<Seq<char>>>,
    pub audiences: Option<Seq<Seq<char>>>,
}

/// The texts of a list.
pub open spec fn texts(items: Seq<String>) -> Seq<Seq<char>> {
    items.map_values(|item: String| item@)
}

/// The texts of an optional list.
pub open spec fn optional_texts(items: Option<Vec<String>>) -> Option<Seq<Seq<char>>> {
    match items {
        Some(found) => Some(texts(found@)),
        None => None,
    }
}

impl View for Claims {
    type V = ClaimsView;

    open spec fn view(&self) -> ClaimsView {
        ClaimsView {
            object: self.object,
            subject: optional_text(self.subject),
            expiry: self.expiry,
            issuers: optional_texts(self.issuers),
            audiences: optional_texts(self.audiences),
        }
    }
}

/// The text of the claim `name`, where it is a string.
pub open spec fn claim_string(claims: Value, name: Seq<char>) -> Option<Seq<char>> {
    match json_member(claims, name) {
        Some(member) => json_string(member),
        None => None,
    }
}

/// The claim `name`, where it is a whole number.
pub open spec fn claim_number(claims: Value, name: Seq<char>) -> Option<u64> {
    match json_member(claims, name) {
        Some(member) => json_number(member),
        None => None,
    }
}

/// Whether all of `items` are strings.
pub open spec fn all_strings(items: Seq<Value>) -> bool {
    forall|i: int| 0 <= i < items.len() ==> json_string(#[trigger] items[i]) is Some
}

/// The texts of a list of strings.
pub open spec fn string_texts(items: Seq<Value>) -> Seq<Seq<char>> {
    items.map_values(|item: Value| json_string(item)->0)
}

/// The texts that a value holds, where it is a string or a list of strings.
pub open spec fn value_texts(value: Value) -> Option<Seq<Seq<char>>> {
    match (json_string(value), json_items(value)) {
        (Some(text), _) => Some(seq![text]),
        (None, Some(items)) => if all_strings(items) {
            Some(string_texts(items))
        } else {
            None
        },
        (None, None) => None,
    }
}

/// The texts of the claim `name`, where it is a string or a list of strings.
pub open spec fn claim_texts(claims: Value, name: Seq<char>) -> Option<Seq<Seq<char>>> {
    match json_member(claims, name) {
        Some(member) => value_texts(member),
        None => None,
    }
}

/// What claims say.
pub open spec fn claims_of(value: Value) -> ClaimsView {
    ClaimsView {
        object: json_is_object(value),
        subject: claim_string(value, "sub"@),
        expiry: claim_number(value, "exp"@),
        issuers: claim_texts(value, "iss"@),
        audiences: claim_texts(value, "aud"@),
    }
}

/// The texts of a list, where all of it are strings.
fn read_strings(items: &Vec<Value>) -> (found: Option<Vec<String>>)
    ensures
        found is Some <==> all_strings(items@),
        found matches Some(list) ==> texts(list@) == string_texts(items@),
{
    let mut list: Vec<String> = Vec::new();
    let mut i: usize = 0;
    while i < items.len()
        invariant
            i <= items@.len(),
            list@.len() == i,
            forall|j: int| 0 <= j < i ==> json_string(#[trigger] items@[j]) == Some(list@[j]@),
        decreases items@.len() - i,
    {
        match get_string(&items[i]) {
            Some(text) => {
                list.push(text.to_owned());
            },
            None => {
                assert(json_string(items@[i as int]) is None);
                return None;
            },
        }
        i = i + 1;
    }
    assert(texts(list@) =~= string_texts(items@));
    Some(list)
}

/// The texts of the claim `name`, where it is a string or a list of strings.
fn read_texts(claims: &Value, name: &str) -> (found: Option<Vec<String>>)
    ensures
        optional_texts(found) == claim_texts(*claims, name@),
{
    match get_member(claims, name) {
        Some(member) => match get_string(member) {
            Some(text) => {
                let mut list: Vec<String> = Vec::new();
                list.push(text.to_owned());
                assert(texts(list@) =~= seq![text@]);
                Some(list)
            },
            None => match get_items(member) {
                Some(items) => read_strings(items),
                None => None,
            },
        },
        None => None,
    }
}

/// Reads what claims say.
pub fn read_claims(value: &Value) -> (claims: Claims)
    ensures
        claims@ == claims_of(*value),
{
    let subject = match get_member(value, "sub") {
        Some(member) => match get_string(member) {
            Some(text) => Some(text.to_owned()),
            None => None,
        },
        None => None,
    };
    let expiry = match get_member(value, "exp") {
        Some(member) => get_number(member),
        None => None,
    };
    Claims {
        object: is_object(value),
        subject,
        expiry,
        issuers: read_texts(value, "iss"),
        audiences: read_texts(value, "aud"),
    }
}


/// What is read from claims is what the members of that name hold: `sub` where it
/// is a string, `exp` where it is a whole number, `iss` and `aud` where they are
/// a string or a list of strings.
pub proof fn law_claims_are_the_members(value: Value)
    ensures
        claims_of(value).object == json_is_object(value),
        claims_of(value).subject == (match json_member(value, "sub"@) {
            Some(member) => json_string(member),
            None => None,
        }),
        claims_of(value).expiry == (match json_member(value, "exp"@) {
            Some(member) => json_number(member),
            None => None,
        }),
        claims_of(value).issuers == claim_texts(value, "iss"@),
        claims_of(value).audiences == claim_texts(value, "aud"@),
{
}

/// The texts of a claim are its one string, or its strings in their order; a list
/// with anything else in it, or another value, or none, gives nothing.
pub proof fn law_claim_texts(claims: Value, name: Seq<char>)
    ensures
        match json_member(claims, name) {
            None => claim_texts(claims, name) is None,
            Some(member) => match (json_string(member), json_items(member)) {
                (Some(text), _) => claim_texts(claims, name) == Some(seq![text]),
                (None, None) => claim_texts(claims, name) is None,
                (None, Some(items)) => {
                    &&& claim_texts(claims, name) is None <==> exists|i: int|
                        0 <= i < items.len() && json_string(#[trigger] items[i]) is None
                    &&& claim_texts(claims, name) matches Some(list) ==> {
                        &&& list.len() == items.len()
                        &&& forall|i: int|
                            0 <= i < items.len() ==> json_string(#[trigger] items[i]) == Some(
                                list[i],
                            )
                    }
                },
            },
        },
{
}

/// The view of claims holds what they hold.
pub proof fn law_claims_view(claims: Claims)
    ensures
        claims@.object == claims.object,
        claims@.expiry == claims.expiry,
        claims.subject matches Some(text) ==> claims@.subject == Some(text@),
        claims.subject is None ==> claims@.subject is None,
        claims.issuers is None <==> claims@.issuers is None,
        claims.issuers matches Some(list) ==> (claims@.issuers->0).len() == list@.len() && forall|
            i: int,
        |
            0 <= i < list@.len() ==> (claims@.issuers->0)[i] == (#[trigger] list@[i])@,
        claims.audiences is None <==> claims@.audiences is None,
        claims.audiences matches Some(list) ==> (claims@.audiences->0).len() == list@.len()
            && forall|i: int|
            0 <= i < list@.len() ==> (claims@.audiences->0)[i] == (#[trigger] list@[i])@,
{
}

} // verus!
