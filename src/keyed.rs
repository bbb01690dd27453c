//! Sequences of entries keyed by name, where the first entry for a name counts.
use vstd::prelude::*;

verus! {

/// Position of the first entry for `key`, or -1 when there is none.
pub open spec fn entry_index<T>(s: Seq<(Seq<char>, T)>, key: Seq<char>) -> int
    decreases s.len(),
{
    if s.len() == 0 {
        -1
    } else if s[0].0 == key {
        0
    } else {
        let i = entry_index(s.drop_first(), key);
        if i < 0 {
            -1
        } else {
            i + 1
        }
    }
}

pub proof fn lemma_entry_index<T>(s: Seq<(Seq<char>, T)>, key: Seq<char>)
    ensures
        -1 <= entry_index(s, key) < s.len(),
        entry_index(s, key) >= 0 ==> s[entry_index(s, key)].0 == key,
        forall|j: int|
            0 <= j < s.len() && (entry_index(s, key) < 0 || j < entry_index(s, key)) ==> s[j].0
                != key,
    decreases s.len(),
{
    if s.len() > 0 && s[0].0 != key {
        lemma_entry_index(s.drop_first(), key);
        assert forall|j: int|
            0 <= j < s.len() && (entry_index(s, key) < 0 || j < entry_index(s, key)) implies s[j].0
                != key by {
            if j > 0 {
                assert(s[j] == s.drop_first()[j - 1]);
            }
        }
    }
}

pub proof fn lemma_entry_index_first<T>(s: Seq<(Seq<char>, T)>, key: Seq<char>, i: int)
    requires
        0 <= i < s.len(),
        s[i].0 == key,
        forall|j: int| 0 <= j < i ==> s[j].0 != key,
    ensures
        entry_index(s, key) == i,
    decreases i,
{
    if i > 0 {
        lemma_entry_index_first(s.drop_first(), key, i - 1);
    }
}

pub proof fn lemma_entry_index_none<T>(s: Seq<(Seq<char>, T)>, key: Seq<char>)
    requires
        forall|j: int| 0 <= j < s.len() ==> s[j].0 != key,
    ensures
        entry_index(s, key) == -1,
    decreases s.len(),
{
    if s.len() > 0 {
        lemma_entry_index_none(s.drop_first(), key);
    }
}

/// The text stored for `key`.
pub open spec fn lookup<T>(s: Seq<(Seq<char>, T)>, key: Seq<char>) -> Option<T> {
    let i = entry_index(s, key);
    if 0 <= i < s.len() {
        Some(s[i].1)
    } else {
        None
    }
}

/// `s` with `value` stored for `key`: the entry for `key` replaced, or a new one appended.
pub open spec fn store<T>(s: Seq<(Seq<char>, T)>, key: Seq<char>, value: T) -> Seq<(Seq<char>, T)> {
    let i = entry_index(s, key);
    if 0 <= i < s.len() {
        s.update(i, (key, value))
    } else {
        s.push((key, value))
    }
}

/// After storing `value` for `key`, `key` finds `value` and every other key finds
/// what it found before.
pub proof fn lemma_store_lookup<T>(
    s: Seq<(Seq<char>, T)>,
    key: Seq<char>,
    value: T,
    other: Seq<char>,
)
    ensures
        lookup(store(s, key, value), key) == Some(value),
        other != key ==> lookup(store(s, key, value), other) == lookup(s, other),
{
    let t = store(s, key, value);
    lemma_entry_index(s, key);
    lemma_entry_index(s, other);
    let i = entry_index(s, key);
    if 0 <= i < s.len() {
        lemma_entry_index_first(t, key, i);
    } else {
        lemma_entry_index_first(t, key, s.len() as int);
    }
    if other != key {
        let o = entry_index(s, other);
        if 0 <= o < s.len() {
            lemma_entry_index_first(t, other, o);
        } else {
            lemma_entry_index_none(t, other);
        }
    }
}

} // verus!
