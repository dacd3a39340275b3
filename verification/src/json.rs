//! A JSON document model: the values the validators read.
use vstd::prelude::*;

verus! {

/// A JSON number as `serde_json` stores it. A float carries only whether it
/// is finite with a magnitude no larger than the largest exact JavaScript
/// integer, and its raw bits, which the library hands back unchanged.
#[derive(Clone, Copy, Debug, PartialEq, Eq, Structural)]
pub enum JsonNumber {
    PosInt(u64),
    NegInt(i64),
    Float { within_safe_range: bool, bits: u64 },
}

#[derive(Debug)]
pub enum Json {
    Null,
    Bool(bool),
    Number(JsonNumber),
    String(String),
    Array(Vec<Json>),
    Object(Vec<(String, Json)>),
}

pub open spec fn node_count(v: Json) -> nat
    decreases v,
{
    match v {
        Json::Array(items) => 1 + items_count(items@),
        Json::Object(entries) => 1 + entries_count(entries@),
        _ => 1,
    }
}

pub open spec fn items_count(items: Seq<Json>) -> nat
    decreases items,
{
    if items.len() == 0 {
        0
    } else {
        items_count(items.drop_last()) + node_count(items.last())
    }
}

pub open spec fn entries_count(entries: Seq<(String, Json)>) -> nat
    decreases entries,
{
    if entries.len() == 0 {
        0
    } else {
        entries_count(entries.drop_last()) + node_count(entries.last().1)
    }
}

/// The value of the first member named `key`; a parsed object names each
/// member once.
pub open spec fn object_get(entries: Seq<(String, Json)>, key: Seq<char>) -> Option<Json>
    decreases entries.len(),
{
    if entries.len() == 0 {
        None
    } else if entries[0].0@ == key {
        Some(entries[0].1)
    } else {
        object_get(entries.drop_first(), key)
    }
}

pub proof fn lemma_object_get_update(
    entries: Seq<(String, Json)>,
    idx: int,
    entry: (String, Json),
    k: Seq<char>,
)
    requires
        0 <= idx < entries.len(),
        entries[idx].0@ == entry.0@,
        forall|j: int| 0 <= j < idx ==> (#[trigger] entries[j]).0@ != entry.0@,
    ensures
        object_get(entries.update(idx, entry), k) == if k == entry.0@ {
            Some(entry.1)
        } else {
            object_get(entries, k)
        },
    decreases idx,
{
    if idx > 0 {
        assert(entries.update(idx, entry).drop_first() == entries.drop_first().update(idx - 1, entry));
        assert forall|j: int| 0 <= j < idx - 1 implies (#[trigger] entries.drop_first()[j]).0@
            != entry.0@ by {
            assert(entries.drop_first()[j] == entries[j + 1]);
        }
        lemma_object_get_update(entries.drop_first(), idx - 1, entry, k);
        assert(entries.update(idx, entry)[0] == entries[0]);
    } else {
        assert(entries.update(idx, entry).drop_first() == entries.drop_first());
        assert(entries.update(idx, entry)[0] == entry);
    }
}

pub proof fn lemma_object_get_push(entries: Seq<(String, Json)>, entry: (String, Json), k: Seq<char>)
    requires
        forall|j: int| 0 <= j < entries.len() ==> (#[trigger] entries[j]).0@ != entry.0@,
    ensures
        object_get(entries.push(entry), k) == if k == entry.0@ {
            Some(entry.1)
        } else {
            object_get(entries, k)
        },
    decreases entries.len(),
{
    if entries.len() > 0 {
        assert(entries.push(entry).drop_first() == entries.drop_first().push(entry));
        assert forall|j: int| 0 <= j < entries.len() - 1 implies (
        #[trigger] entries.drop_first()[j]).0@ != entry.0@ by {
            assert(entries.drop_first()[j] == entries[j + 1]);
        }
        lemma_object_get_push(entries.drop_first(), entry, k);
        assert(entries[0].0@ != entry.0@);
        assert(entries.push(entry)[0] == entries[0]);
    } else {
        assert(entries.push(entry).drop_first().len() == 0);
        assert(entries.push(entry)[0] == entry);
        assert(object_get(entries.push(entry).drop_first(), k) is None);
    }
}

pub proof fn lemma_object_get_found(entries: Seq<(String, Json)>, idx: int)
    requires
        0 <= idx < entries.len(),
        forall|j: int| 0 <= j < idx ==> (#[trigger] entries[j]).0@ != entries[idx].0@,
    ensures
        object_get(entries, entries[idx].0@) == Some(entries[idx].1),
    decreases idx,
{
    if idx > 0 {
        assert forall|j: int| 0 <= j < idx - 1 implies (#[trigger] entries.drop_first()[j]).0@
            != entries.drop_first()[idx - 1].0@ by {
            assert(entries.drop_first()[j] == entries[j + 1]);
        }
        lemma_object_get_found(entries.drop_first(), idx - 1);
    }
}

pub proof fn lemma_object_get_absent(entries: Seq<(String, Json)>, k: Seq<char>)
    requires
        forall|j: int| 0 <= j < entries.len() ==> (#[trigger] entries[j]).0@ != k,
    ensures
        object_get(entries, k) is None,
    decreases entries.len(),
{
    if entries.len() > 0 {
        assert forall|j: int| 0 <= j < entries.len() - 1 implies (#[trigger] entries.drop_first()[j]).0@
            != k by {
            assert(entries.drop_first()[j] == entries[j + 1]);
        }
        lemma_object_get_absent(entries.drop_first(), k);
    }
}

/// The position of the first member named `key`.
pub fn find_member(entries: &Vec<(String, Json)>, key: &str) -> (r: Option<usize>)
    ensures
        match r {
            Some(i) => i < entries@.len() && entries@[i as int].0@ == key@ && forall|j: int|
                0 <= j < i ==> (#[trigger] entries@[j]).0@ != key@,
            None => forall|j: int| 0 <= j < entries@.len() ==> (#[trigger] entries@[j]).0@ != key@,
        },
{
    let mut i: usize = 0;
    while i < entries.len()
        invariant
            i <= entries@.len(),
            forall|j: int| 0 <= j < i ==> (#[trigger] entries@[j]).0@ != key@,
        decreases entries@.len() - i,
    {
        if crate::text::str_eq(entries[i].0.as_str(), key) {
            return Some(i);
        }
        i = i + 1;
    }
    None
}

/// `Map::get`: the value of the member named `key`.
pub fn get_member<'a>(entries: &'a Vec<(String, Json)>, key: &str) -> (r: Option<&'a Json>)
    ensures
        match r {
            Some(v) => object_get(entries@, key@) == Some(*v),
            None => object_get(entries@, key@) is None,
        },
{
    match find_member(entries, key) {
        Some(i) => {
            proof {
                lemma_object_get_found(entries@, i as int);
            }
            Some(&entries[i].1)
        },
        None => {
            proof {
                lemma_object_get_absent(entries@, key@);
            }
            None
        },
    }
}

/// `Map::insert`: sets the member named `key`, in place where it exists.
pub fn set_member(entries: &mut Vec<(String, Json)>, key: String, value: Json)
    ensures
        forall|k: Seq<char>|
            #![trigger object_get(final(entries)@, k)]
            object_get(final(entries)@, k) == if k == key@ {
                Some(value)
            } else {
                object_get(old(entries)@, k)
            },
{
    let ghost before = entries@;
    let ghost entry = (key, value);
    match find_member(entries, key.as_str()) {
        Some(i) => {
            entries.set(i, (key, value));
            proof {
                assert(entries@ == before.update(i as int, entry));
                assert forall|k: Seq<char>|
                    #![trigger object_get(entries@, k)]
                    object_get(entries@, k) == if k == entry.0@ {
                        Some(entry.1)
                    } else {
                        object_get(before, k)
                    } by {
                    lemma_object_get_update(before, i as int, entry, k);
                }
            }
        },
        None => {
            entries.push((key, value));
            proof {
                assert forall|k: Seq<char>|
                    #![trigger object_get(entries@, k)]
                    object_get(entries@, k) == if k == entry.0@ {
                        Some(entry.1)
                    } else {
                        object_get(before, k)
                    } by {
                    lemma_object_get_push(before, entry, k);
                }
            }
        },
    }
}

} // verus!
