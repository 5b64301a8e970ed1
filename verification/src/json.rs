//! What the library reads in JSON documents and writes into them. The
//! documents are read and rendered by `serde_json`; which members matter is
//! decided by the callers.

use vstd::prelude::*;
use crate::packages::{pairs_of, Entry, Pair};
use crate::text::{same_text, texts_of};

verus! {

/// A member of a JSON object as contracts speak of it: its key, and its value
/// where that is a string.
pub type MemberView = (Seq<char>, Option<Seq<char>>);

/// A member of a JSON object.
#[derive(Debug)]
pub struct Member {
    pub key: String,
    /// The value, or nothing where it is not a string.
    pub text: Option<String>,
}

impl View for Member {
    type V = MemberView;

    open spec fn view(&self) -> MemberView {
        (
            self.key@,
            match self.text {
                Some(t) => Some(t@),
                None => None,
            },
        )
    }
}

/// The contents of a list of members.
pub open spec fn members_of(list: Seq<Member>) -> Seq<MemberView> {
    Seq::new(list.len(), |i: int| list[i]@)
}

/// The keys of a list of members, in order.
pub open spec fn keys_of(list: Seq<MemberView>) -> Seq<Seq<char>> {
    Seq::new(list.len(), |i: int| list[i].0)
}

/// `i` is the first position of a list of members that holds `key`.
pub open spec fn is_member_at(list: Seq<MemberView>, key: Seq<char>, i: int) -> bool {
    &&& 0 <= i < list.len()
    &&& list[i].0 == key
    &&& forall|j: int| 0 <= j < i ==> (#[trigger] list[j]).0 != key
}

/// The string that stands for `key` among the members: that of the first
/// member with that key, and nothing where no member has the key or the
/// member's value is no string.
pub open spec fn member_text(list: Seq<MemberView>, key: Seq<char>) -> Option<Seq<char>> {
    if exists|i: int| is_member_at(list, key, i) {
        list[choose|i: int| is_member_at(list, key, i)].1
    } else {
        None
    }
}

/// The members that `serde_json` finds in the object at `member` of a
/// document: nothing where the text is not JSON; else the members in the order
/// in which `serde_json`'s map yields them, or nothing where no object stands
/// there.
pub uninterp spec fn json_members_at(text: Seq<char>, member: Seq<char>) -> Option<
    Option<Seq<MemberView>>,
>;

/// The text that `serde_json` renders for a document after `member` of its
/// top-level object was set to an object that holds each of `entries` as a
/// key with a string: nothing where the text is not JSON or its top level is
/// no object.
pub uninterp spec fn json_with_member(
    text: Seq<char>,
    member: Seq<char>,
    entries: Seq<Pair>,
) -> Option<Seq<char>>;

/// Has `serde_json::from_str` read `text` as a `serde_json::Value` and copies
/// the members of the object at `member` out of it. The contract names the
/// outcome and claims no more.
#[verifier::external_body]
pub(crate) fn members_at(text: &str, member: &str) -> (found: Option<Option<Vec<Member>>>)
    ensures
        found is Some <==> json_members_at(text@, member@) is Some,
        found matches Some(f) ==> (f is Some <==> json_members_at(text@, member@)->0 is Some),
        found matches Some(Some(list)) ==> json_members_at(text@, member@) == Some(
            Some(members_of(list@)),
        ),
{
    match serde_json::from_str::<serde_json::Value>(text) {
        Ok(json) => Some(
            json[member].as_object().map(
                |m|
                    m.iter().map(
                        |(k, v)| Member { key: k.clone(), text: v.as_str().map(String::from) },
                    ).collect(),
            ),
        ),
        Err(_) => None,
    }
}

/// The keys of a list of members, in order.
pub fn member_keys(list: &Vec<Member>) -> (keys: Vec<String>)
    ensures
        texts_of(keys@) == keys_of(members_of(list@)),
{
    let mut keys: Vec<String> = Vec::new();
    let mut i: usize = 0;
    while i < list.len()
        invariant
            i <= list.len(),
            keys.len() == i,
            forall|j: int| 0 <= j < i ==> (#[trigger] keys[j])@ == list[j].key@,
        decreases list.len() - i,
    {
        keys.push(list[i].key.clone());
        i = i + 1;
    }
    keys
}

/// The string that stands for `key` among the members.
pub fn find_text(list: &Vec<Member>, key: &str) -> (text: Option<String>)
    ensures
        text is Some <==> member_text(members_of(list@), key@) is Some,
        text matches Some(t) ==> member_text(members_of(list@), key@) == Some(t@),
{
    let ghost members = members_of(list@);
    let mut i: usize = 0;
    while i < list.len()
        invariant
            i <= list.len(),
            members == members_of(list@),
            forall|j: int| 0 <= j < i ==> (#[trigger] members[j]).0 != key@,
        decreases list.len() - i,
    {
        if same_text(list[i].key.as_str(), key) {
            assert(is_member_at(members, key@, i as int));
            return match &list[i].text {
                Some(t) => Some(t.clone()),
                None => None,
            };
        }
        i = i + 1;
    }
    None
}

/// Has `serde_json::from_str` read `text` as a `serde_json::Value`, puts an
/// object made of `entries` at `member` of its top-level object, and has
/// `serde_json::to_string_pretty` render the result. The contract names the
/// outcome and claims no more.
#[verifier::external_body]
pub(crate) fn with_member(text: &str, member: &str, entries: &Vec<Entry>) -> (rendered: Option<
    String,
>)
    ensures
        rendered is Some <==> json_with_member(text@, member@, pairs_of(entries@)) is Some,
        rendered matches Some(r) ==> json_with_member(text@, member@, pairs_of(entries@)) == Some(
            r@,
        ),
{
    let mut json = serde_json::from_str::<serde_json::Value>(text).ok()?;
    let table = entries.iter().map(
        |e| (e.name.clone(), serde_json::Value::String(e.version.clone())),
    ).collect();
    json.as_object_mut()?.insert(member.to_string(), serde_json::Value::Object(table));
    serde_json::to_string_pretty(&json).ok()
}

} // verus!
