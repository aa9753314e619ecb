//! The media manifest: a JSON object from decimal indices to logical file names.
use crate::error::Error;
use crate::text::{decimal, decimal_string};
use std::collections::BTreeMap;
use vstd::prelude::*;

verus! {

/// The views of a sequence of string pairs.
pub open spec fn pairs_view(v: Seq<(String, String)>) -> Seq<(Seq<char>, Seq<char>)> {
    v.map_values(|p: (String, String)| (p.0@, p.1@))
}

/// The JSON text of the object that holds `members`, written in the order of its keys.
pub uninterp spec fn json_object_text(members: Seq<(Seq<char>, Seq<char>)>) -> Seq<char>;

/// The members of the JSON object that `bytes` holds, in the order of their keys,
/// when `bytes` holds an object whose values are all strings.
pub uninterp spec fn json_string_members(bytes: Seq<u8>) -> Option<Seq<(Seq<char>, Seq<char>)>>;

/// Relies on serde_json::to_string of a `BTreeMap<String, String>`: the JSON text of
/// the object, which depends on the members alone. It fails only where a
/// `Serialize` impl fails or a map key is not a string, which cannot happen here.
#[verifier::external_body]
fn object_to_json(members: &Vec<(String, String)>) -> (r: Option<String>)
    ensures
        r is Some,
        r matches Some(t) ==> t@ == json_object_text(pairs_view(members@)),
{
    let map: BTreeMap<String, String> = members.iter().cloned().collect();
    serde_json::to_string(&map).ok()
}

/// Relies on serde_json::from_slice into a `BTreeMap<String, String>`: it succeeds
/// exactly on a JSON object with string values, whose members it returns.
#[verifier::external_body]
fn json_to_object(bytes: &Vec<u8>) -> (r: Option<Vec<(String, String)>>)
    ensures
        r is Some == json_string_members(bytes@) is Some,
        r matches Some(v) ==> pairs_view(v@) == json_string_members(bytes@)->Some_0,
{
    match serde_json::from_slice::<BTreeMap<String, String>>(bytes) {
        Ok(map) => Some(map.into_iter().collect()),
        Err(_) => None,
    }
}

/// The manifest of a media list whose logical names are `names`: position `i`
/// maps to the `i`-th name.
pub open spec fn manifest_of(names: Seq<Seq<char>>) -> Seq<(Seq<char>, Seq<char>)> {
    Seq::new(names.len(), |i: int| (decimal(i as nat), names[i]))
}

/// Whether some member of `members` has the key `key`.
pub open spec fn has_key(members: Seq<(Seq<char>, Seq<char>)>, key: Seq<char>) -> bool {
    exists|k: int| 0 <= k < members.len() && (#[trigger] members[k]).0 == key
}

/// Whether `k` is the first member with the key `key`.
pub open spec fn first_with_key(members: Seq<(Seq<char>, Seq<char>)>, key: Seq<char>, k: int) -> bool {
    &&& 0 <= k < members.len()
    &&& members[k].0 == key
    &&& forall|j: int| 0 <= j < k ==> (#[trigger] members[j]).0 != key
}

/// Whether every position of a list as long as `members` has its decimal index as a key.
pub open spec fn is_indexed(members: Seq<(Seq<char>, Seq<char>)>) -> bool {
    forall|i: int| 0 <= i < members.len() ==> has_key(members, #[trigger] decimal(i as nat))
}

/// The members put in the order of their decimal keys when every position has
/// its key, else as given.
pub open spec fn ordered_members(members: Seq<(Seq<char>, Seq<char>)>) -> Seq<(Seq<char>, Seq<char>)> {
    if is_indexed(members) {
        Seq::new(
            members.len(),
            |i: int| members[choose|k: int| #[trigger] first_with_key(members, decimal(i as nat), k)],
        )
    } else {
        members
    }
}

/// A key that some member has is had by a first member.
pub proof fn lemma_first_key_exists(members: Seq<(Seq<char>, Seq<char>)>, key: Seq<char>)
    requires
        has_key(members, key),
    ensures
        exists|k: int| #[trigger] first_with_key(members, key, k),
    decreases members.len(),
{
    let rest = members.drop_last();
    if has_key(rest, key) {
        lemma_first_key_exists(rest, key);
        let k = choose|k: int| #[trigger] first_with_key(rest, key, k);
        assert(forall|j: int| 0 <= j < k ==> rest[j] == members[j]);
        assert(first_with_key(members, key, k));
    } else {
        let k = members.len() - 1;
        assert forall|j: int| 0 <= j < k implies (#[trigger] members[j]).0 != key by {
            assert(rest[j] == members[j]);
        }
        assert(first_with_key(members, key, k));
    }
}

/// The first member with a key is the one place that answers to it.
pub proof fn lemma_first_with_key_unique(
    members: Seq<(Seq<char>, Seq<char>)>,
    key: Seq<char>,
    k1: int,
    k2: int,
)
    requires
        first_with_key(members, key, k1),
        first_with_key(members, key, k2),
    ensures
        k1 == k2,
{
    if k1 < k2 {
        assert(members[k1].0 != key);
    } else if k2 < k1 {
        assert(members[k2].0 != key);
    }
}

/// Whether `m` is the first member of `members` whose key is the decimal index `i`.
pub open spec fn placed_at(members: Seq<(String, String)>, m: (String, String), i: int) -> bool {
    exists|k: int| first_with_key(pairs_view(members), decimal(i as nat), k) && m == members[k]
}

/// The manifest text for the given members.
pub fn manifest_text(members: &Vec<(String, String)>) -> (r: Result<String, Error>)
    ensures
        r matches Ok(t) && t@ == json_object_text(pairs_view(members@)),
{
    match object_to_json(members) {
        Some(t) => Ok(t),
        None => Err(Error::Export(String::from_str("cannot write the media manifest"))),
    }
}

/// Reads a manifest file: `None` when it is not a JSON object of strings.
pub fn parse_manifest(bytes: &Vec<u8>) -> (r: Option<Vec<(String, String)>>)
    ensures
        r is Some == json_string_members(bytes@) is Some,
        r matches Some(v) ==> pairs_view(v@) == json_string_members(bytes@)->Some_0,
{
    json_to_object(bytes)
}

/// The first member with the key `key`.
pub fn find_key(members: &Vec<(String, String)>, key: &String) -> (r: Option<usize>)
    ensures
        r matches Some(k) ==> first_with_key(pairs_view(members@), key@, k as int),
        r is None ==> !has_key(pairs_view(members@), key@),
{
    let ghost mv = pairs_view(members@);
    let mut k: usize = 0;
    while k < members.len()
        invariant
            mv == pairs_view(members@),
            k <= members@.len(),
            forall|j: int| 0 <= j < k ==> (#[trigger] mv[j]).0 != key@,
        decreases members@.len() - k,
    {
        if members[k].0 == *key {
            return Some(k);
        }
        k += 1;
    }
    None
}

/// Puts the members of a manifest in the order of their decimal keys, so that the
/// member at position `i` has the key `i`. Where some index below the number of
/// members has no key, the members stay in the order given.
pub fn order_manifest(members: Vec<(String, String)>) -> (r: Vec<(String, String)>)
    ensures
        is_indexed(pairs_view(members@)) ==> {
            &&& r@.len() == members@.len()
            &&& forall|i: int| 0 <= i < r@.len() ==> placed_at(members@, #[trigger] r@[i], i)
        },
        !is_indexed(pairs_view(members@)) ==> r@ == members@,
        pairs_view(r@) == ordered_members(pairs_view(members@)),
{
    let ghost mv = pairs_view(members@);
    assert(mv.len() == members@.len());
    let ghost mut ks: Seq<int> = Seq::empty();
    let mut out: Vec<(String, String)> = Vec::new();
    let mut i: usize = 0;
    while i < members.len()
        invariant
            mv == pairs_view(members@),
            mv.len() == members@.len(),
            i <= members@.len(),
            out@.len() == i,
            ks.len() == i,
            forall|j: int| 0 <= j < i ==> has_key(mv, #[trigger] decimal(j as nat)),
            forall|j: int|
                0 <= j < i ==> first_with_key(mv, decimal(j as nat), #[trigger] ks[j]) && out@[j]
                    == members@[ks[j]],
        decreases members@.len() - i,
    {
        let key = decimal_string(i as u64);
        let ghost ii: int = i as int;
        assert(key@ == decimal(ii as nat));
        match find_key(&members, &key) {
            Some(k) => {
                let m = (members[k].0.clone(), members[k].1.clone());
                out.push(m);
                proof {
                    ks = ks.push(k as int);
                    assert(mv[k as int].0 == key@);
                }
            },
            None => {
                assert(!has_key(mv, decimal(ii as nat)));
                assert(!is_indexed(mv));
                return members;
            },
        }
        i += 1;
    }
    assert(is_indexed(mv));
    assert(out@.len() == members@.len());
    assert forall|i: int| 0 <= i < out@.len() implies placed_at(members@, #[trigger] out@[i], i) by {
        assert(first_with_key(mv, decimal(i as nat), ks[i]));
        assert(out@[i] == members@[ks[i]]);
    }
    assert forall|i: int| 0 <= i < out@.len() implies pairs_view(out@)[i] == ordered_members(mv)[i] by {
        let c = choose|k: int| #[trigger] first_with_key(mv, decimal(i as nat), k);
        assert(first_with_key(mv, decimal(i as nat), ks[i]));
        lemma_first_with_key_unique(mv, decimal(i as nat), c, ks[i]);
    }
    assert(pairs_view(out@) =~= ordered_members(mv));
    out
}

} // verus!
