//! JSON objects, by way of `serde_json`.
//!
//! A value inside an object is spoken of by its compact JSON text.

use crate::text::{opt, str_less, texts};
use vstd::prelude::*;

verus! {

/// Declares `serde_json::Value`.
#[verifier::external_type_specification]
#[verifier::external_body]
pub struct ExValue(serde_json::Value);

/// Declares `serde_json::Map`.
#[verifier::external_type_specification]
#[verifier::external_body]
#[verifier::reject_recursive_types(K)]
#[verifier::reject_recursive_types(V)]
pub struct ExMap<K, V>(serde_json::Map<K, V>);

/// The members of an object: each key with the compact text of its value.
pub uninterp spec fn members(
    m: serde_json::Map<String, serde_json::Value>,
) -> Map<Seq<char>, Seq<char>>;

/// No members.
pub open spec fn no_members() -> Map<Seq<char>, Seq<char>> {
    Map::empty()
}

/// One member.
pub open spec fn single(key: Seq<char>, value: Seq<char>) -> Map<Seq<char>, Seq<char>> {
    no_members().insert(key, value)
}

/// The members of the object that a JSON text denotes, if it denotes one.
pub uninterp spec fn object_of(text: Seq<char>) -> Option<Map<Seq<char>, Seq<char>>>;

/// The compact form of the value that a JSON text denotes, if it denotes one.
pub uninterp spec fn value_of(text: Seq<char>) -> Option<Seq<char>>;

/// The compact text of a string value.
pub uninterp spec fn string_text(s: Seq<char>) -> Seq<char>;

/// The string that a compact text denotes, if it denotes one.
pub uninterp spec fn string_of(text: Seq<char>) -> Option<Seq<char>>;

/// The compact text of an object.
pub uninterp spec fn object_text(members: Map<Seq<char>, Seq<char>>) -> Seq<char>;

/// Calls `serde_json::from_str` for a value and `Value::as_object` on it. The
/// members depend on the text alone and are named by `object_of`; it is `None`
/// for a text that is not JSON and for a value that is no object.
#[verifier::external_body]
pub(crate) fn parse_object(text: &str) -> (r: Option<serde_json::Map<String, serde_json::Value>>)
    ensures
        match r {
            Some(m) => object_of(text@) == Some(members(m)),
            None => object_of(text@) is None,
        },
{
    serde_json::from_str::<serde_json::Value>(text).ok().and_then(|v| v.as_object().cloned())
}

/// Calls `serde_json::from_str` for a value and `serde_json::Map::insert` into a
/// new map. The value depends on the text alone and is named by `value_of`.
#[verifier::external_body]
pub(crate) fn parse_under(
    key: &str,
    text: &str,
) -> (r: Option<serde_json::Map<String, serde_json::Value>>)
    ensures
        match r {
            Some(m) => value_of(text@) is Some && members(m) == single(key@, value_of(text@)->0),
            None => value_of(text@) is None,
        },
{
    let value = serde_json::from_str::<serde_json::Value>(text).ok()?;
    let mut m = serde_json::Map::new();
    m.insert(key.to_string(), value);
    Some(m)
}

/// Calls `serde_json::Map::new`: an object without members.
#[verifier::external_body]
pub(crate) fn new_object() -> (r: serde_json::Map<String, serde_json::Value>)
    ensures
        members(r) == no_members(),
{
    serde_json::Map::new()
}

/// Calls `serde_json::Map::insert` with a string value. The text of such a value
/// depends on the string alone and is named by `string_text`; reading the member
/// as a string gives the string back.
#[verifier::external_body]
pub(crate) fn put_string(
    m: &mut serde_json::Map<String, serde_json::Value>,
    key: &str,
    value: &str,
)
    ensures
        members(*final(m)) == members(*old(m)).insert(key@, string_text(value@)),
        string_of(members(*final(m))[key@]) == Some(value@),
{
    m.insert(key.to_string(), serde_json::Value::String(value.to_string()));
}

/// Calls `serde_json::Map::insert` with a copy of a member of another object.
#[verifier::external_body]
pub(crate) fn put_member(
    m: &mut serde_json::Map<String, serde_json::Value>,
    key: &str,
    from: &serde_json::Map<String, serde_json::Value>,
    from_key: &str,
)
    requires
        members(*from).contains_key(from_key@),
    ensures
        members(*final(m)) == members(*old(m)).insert(key@, members(*from)[from_key@]),
{
    m.insert(key.to_string(), from[from_key].clone());
}

/// Calls `serde_json::Map::remove`: the object without a key.
#[verifier::external_body]
pub(crate) fn remove_member(m: &mut serde_json::Map<String, serde_json::Value>, key: &str)
    ensures
        members(*final(m)) == members(*old(m)).remove(key@),
{
    m.remove(key);
}

/// Calls `serde_json::Map::contains_key`.
#[verifier::external_body]
pub(crate) fn has_member(m: &serde_json::Map<String, serde_json::Value>, key: &str) -> (r: bool)
    ensures
        r == members(*m).contains_key(key@),
{
    m.contains_key(key)
}

/// Calls `serde_json::Map::keys`: every key once, in increasing order.
#[verifier::external_body]
pub(crate) fn member_keys(m: &serde_json::Map<String, serde_json::Value>) -> (r: Vec<String>)
    ensures
        texts(r@).to_set() == members(*m).dom(),
        forall|i: int, j: int|
            0 <= i < j < r@.len() ==> str_less((#[trigger] r@[i])@, (#[trigger] r@[j])@),
{
    m.keys().map(|k| k.to_string()).collect()
}

/// Calls `serde_json::Value::is_null` on a member: the one value whose text is
/// `null`.
#[verifier::external_body]
pub(crate) fn member_is_null(
    m: &serde_json::Map<String, serde_json::Value>,
    key: &str,
) -> (r: bool)
    requires
        members(*m).contains_key(key@),
    ensures
        r == (members(*m)[key@] == "null"@),
{
    m[key].is_null()
}

/// Calls `serde_json::Map::get` and `serde_json::Value::as_str`. The string
/// depends on the text of the member alone and is named by `string_of`.
#[verifier::external_body]
pub(crate) fn member_string(
    m: &serde_json::Map<String, serde_json::Value>,
    key: &str,
) -> (r: Option<String>)
    ensures
        opt(r) == (if members(*m).contains_key(key@) {
            string_of(members(*m)[key@])
        } else {
            None
        }),
{
    m.get(key).and_then(|v| v.as_str()).map(|s| s.to_string())
}

/// Calls `serde_json::Value::is_object` on a member: a value whose text begins
/// with a brace.
#[verifier::external_body]
pub(crate) fn member_is_object(
    m: &serde_json::Map<String, serde_json::Value>,
    key: &str,
) -> (r: bool)
    requires
        members(*m).contains_key(key@),
    ensures
        r == begins_with_brace(members(*m)[key@]),
{
    m[key].is_object()
}

/// Whether the text of a value begins with a brace.
pub open spec fn begins_with_brace(text: Seq<char>) -> bool {
    text.len() > 0 && text[0] == '{'
}

/// Calls `to_string` of a member: its compact text.
#[verifier::external_body]
pub(crate) fn member_text(
    m: &serde_json::Map<String, serde_json::Value>,
    key: &str,
) -> (r: String)
    requires
        members(*m).contains_key(key@),
    ensures
        r@ == members(*m)[key@],
{
    m[key].to_string()
}

/// Calls `to_string` of `serde_json::Value::Object`. The text depends on the
/// members alone and is named by `object_text`.
#[verifier::external_body]
pub(crate) fn to_text(m: &serde_json::Map<String, serde_json::Value>) -> (r: String)
    ensures
        r@ == object_text(members(*m)),
{
    serde_json::Value::Object(m.clone()).to_string()
}

// ---------- merging ----------

/// A patch laid over an object: a `null` takes the key out, any other value
/// replaces it.
pub open spec fn merged(
    base: Map<Seq<char>, Seq<char>>,
    patch: Map<Seq<char>, Seq<char>>,
) -> Map<Seq<char>, Seq<char>> {
    Map::new(
        |k: Seq<char>|
            if patch.contains_key(k) {
                patch[k] != "null"@
            } else {
                base.contains_key(k)
            },
        |k: Seq<char>|
            if patch.contains_key(k) {
                patch[k]
            } else {
                base[k]
            },
    )
}

/// Lays a patch over an object.
pub(crate) fn merge_into(
    base: &mut serde_json::Map<String, serde_json::Value>,
    patch: &serde_json::Map<String, serde_json::Value>,
)
    ensures
        members(*final(base)) == merged(members(*old(base)), members(*patch)),
{
    let keys = member_keys(patch);
    let ghost all = texts(keys@);
    let ghost p = members(*patch);
    let ghost start = members(*base);
    let n: usize = keys.len();
    let mut i: usize = 0;
    while i < n
        invariant
            i <= n == keys@.len(),
            all == texts(keys@),
            p == members(*patch),
            all.to_set() == p.dom(),
            forall|k: Seq<char>| #[trigger]
                members(*base).contains_key(k) <==> (if all.take(i as int).contains(k) {
                    p[k] != "null"@
                } else {
                    start.contains_key(k)
                }),
            forall|k: Seq<char>| #[trigger]
                members(*base).contains_key(k) ==> members(*base)[k] == (if all.take(
                    i as int,
                ).contains(k) {
                    p[k]
                } else {
                    start[k]
                }),
        decreases n - i,
    {
        let key = keys[i].as_str();
        let ghost done = all.take(i as int);
        let ghost prev = members(*base);
        assert(all[i as int] == key@);
        assert(all.to_set().contains(key@));
        if member_is_null(patch, key) {
            remove_member(base, key);
        } else {
            put_member(base, key, patch, key);
        }
        proof {
            let next = all.take(i + 1);
            assert forall|k: Seq<char>| #[trigger] next.contains(k) <==> done.contains(k) || k
                == key@ by {
                if done.contains(k) {
                    let j = choose|j: int| 0 <= j < done.len() && done[j] == k;
                    assert(next[j] == k);
                }
                if k == key@ {
                    assert(next[i as int] == k);
                }
                if next.contains(k) {
                    let j = choose|j: int| 0 <= j < next.len() && next[j] == k;
                    if j < i {
                        assert(done[j] == k);
                    }
                }
            }
        }
        i = i + 1;
    }
    proof {
        assert(all.take(n as int) =~= all);
        assert forall|k: Seq<char>| #[trigger] all.contains(k) <==> p.contains_key(k) by {
            assert(all.to_set().contains(k) <==> p.dom().contains(k));
        }
        assert(members(*base) =~= merged(start, p));
    }
}

/// What a patch does not name stays; what it sets is set; what it sets to
/// `null` is gone.
pub proof fn law_merge(
    base: Map<Seq<char>, Seq<char>>,
    patch: Map<Seq<char>, Seq<char>>,
    k: Seq<char>,
)
    ensures
        !patch.contains_key(k) ==> (merged(base, patch).contains_key(k) <==> base.contains_key(k)),
        !patch.contains_key(k) && base.contains_key(k) ==> merged(base, patch)[k] == base[k],
        patch.contains_key(k) && patch[k] != "null"@ ==> merged(base, patch).contains_key(k)
            && merged(base, patch)[k] == patch[k],
        patch.contains_key(k) && patch[k] == "null"@ ==> !merged(base, patch).contains_key(k),
{
}

/// The members of the object that an optional text denotes, or none.
pub open spec fn members_or_empty(text: Option<Seq<char>>) -> Map<Seq<char>, Seq<char>> {
    match text {
        Some(s) => match object_of(s) {
            Some(m) => m,
            None => Map::empty(),
        },
        None => Map::empty(),
    }
}

/// The object that an optional text denotes, or an empty one.
pub(crate) fn parse_or_empty(
    text: &Option<String>,
) -> (r: serde_json::Map<String, serde_json::Value>)
    ensures
        members(r) == members_or_empty(opt(*text)),
{
    match text {
        Some(s) => match parse_object(s.as_str()) {
            Some(m) => m,
            None => new_object(),
        },
        None => new_object(),
    }
}

} // verus!
