//! JSON objects read through serde_json, as plain members.
use vstd::prelude::*;

verus! {

/// A JSON object's members: each key, with its value when that is a string.
pub open spec fn members_view(v: Seq<(String, Option<String>)>) -> Seq<(Seq<char>, Option<Seq<char>>)> {
    v.map_values(
        |a: (String, Option<String>)|
            (
                a.0@,
                match a.1 {
                    Some(s) => Some(s@),
                    None => None,
                },
            ),
    )
}

pub open spec fn parsed_view(r: Result<Option<Vec<(String, Option<String>)>>, String>) -> Result<
    Option<Seq<(Seq<char>, Option<Seq<char>>)>>,
    Seq<char>,
> {
    match r {
        Ok(Some(v)) => Ok(Some(members_view(v@))),
        Ok(None) => Ok(None),
        Err(e) => Err(e@),
    }
}

/// What serde_json makes of a text: an error's message when it is not
/// JSON; nothing when it is JSON but not an object; else the object's
/// members in the order of its map, each value kept when it is a string.
pub uninterp spec fn json_object(text: Seq<char>) -> Result<Option<Seq<(Seq<char>, Option<Seq<char>>)>>, Seq<char>>;

/// Calls `serde_json::from_str::<serde_json::Value>` and hands out the
/// object's members. The contract only names the result: it depends on the
/// text alone.
#[verifier::external_body]
pub(crate) fn parse_json_object(text: &str) -> (r: Result<Option<Vec<(String, Option<String>)>>, String>)
    ensures
        parsed_view(r) == json_object(text@),
{
    match serde_json::from_str::<serde_json::Value>(text) {
        Err(e) => Err(e.to_string()),
        Ok(serde_json::Value::Object(m)) => {
            let mut v = Vec::new();
            for (k, x) in m {
                v.push((k, match x { serde_json::Value::String(s) => Some(s), _ => None }));
            }
            Ok(Some(v))
        },
        Ok(_) => Ok(None),
    }
}

/// The value of the first member with the given key.
pub open spec fn member(ms: Seq<(Seq<char>, Option<Seq<char>>)>, key: Seq<char>) -> Option<Option<Seq<char>>>
    decreases ms.len(),
{
    if ms.len() == 0 {
        None
    } else {
        match member(ms.drop_last(), key) {
            Some(v) => Some(v),
            None => if ms.last().0 == key {
                Some(ms.last().1)
            } else {
                None
            },
        }
    }
}

proof fn lemma_member_prefix(s: Seq<(Seq<char>, Option<Seq<char>>)>, k: int, key: Seq<char>)
    requires
        0 <= k <= s.len(),
        member(s.take(k), key) is Some,
    ensures
        member(s, key) == member(s.take(k), key),
    decreases s.len() - k,
{
    if k == s.len() {
        assert(s.take(k) =~= s);
    } else {
        assert(s.drop_last().take(k) =~= s.take(k));
        lemma_member_prefix(s.drop_last(), k, key);
    }
}

/// Looks a member up: `None` when there is none with the key, `Some(None)`
/// when its value is not a string.
pub fn find_member(ms: &Vec<(String, Option<String>)>, key: &str) -> (r: Option<Option<String>>)
    ensures
        match member(members_view(ms@), key@) {
            Some(Some(v)) => r matches Some(Some(x)) && x@ == v,
            Some(None) => r matches Some(None),
            None => r is None,
        },
{
    let ghost mv = members_view(ms@);
    let mut i: usize = 0;
    while i < ms.len()
        invariant
            i <= ms.len(),
            mv == members_view(ms@),
            member(mv.take(i as int), key@) is None,
        decreases ms.len() - i,
    {
        assert(mv.take(i + 1).drop_last() =~= mv.take(i as int));
        assert(mv.take(i + 1).last() == mv[i as int]);
        if crate::text::str_eq(ms[i].0.as_str(), key) {
            proof {
                lemma_member_prefix(mv, i + 1, key@);
            }
            return match &ms[i].1 {
                Some(v) => Some(Some(v.clone())),
                None => Some(None),
            };
        }
        i += 1;
    }
    assert(mv.take(ms.len() as int) =~= mv);
    None
}

} // verus!
