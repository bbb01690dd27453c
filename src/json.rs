//! JSON documents as plain values.
use vstd::prelude::*;
use crate::text::same_text;

verus! {

/// A JSON document.
pub enum Json {
    Null,
    Bool(bool),
    /// A number, held as the decimal text that denotes it.
    Number(String),
    Str(String),
    Array(Vec<Json>),
    /// Members in document order.
    Object(Vec<(String, Json)>),
}

/// The mathematical form of a JSON document.
pub enum JsonV {
    Null,
    Bool(bool),
    Number(Seq<char>),
    Str(Seq<char>),
    Array(Seq<JsonV>),
    Object(Seq<(Seq<char>, JsonV)>),
}

impl Json {
    pub open spec fn view(&self) -> JsonV
        decreases self,
    {
        match self {
            Json::Null => JsonV::Null,
            Json::Bool(b) => JsonV::Bool(*b),
            Json::Number(n) => JsonV::Number(n@),
            Json::Str(s) => JsonV::Str(s@),
            Json::Array(items) => JsonV::Array(
                Seq::new(
                    items@.len(),
                    |i: int|
                        if 0 <= i < items@.len() {
                            items@[i].view()
                        } else {
                            JsonV::Null
                        },
                ),
            ),
            Json::Object(m) => JsonV::Object(
                Seq::new(
                    m@.len(),
                    |i: int|
                        if 0 <= i < m@.len() {
                            (m@[i].0@, m@[i].1.view())
                        } else {
                            (Seq::empty(), JsonV::Null)
                        },
                ),
            ),
        }
    }
}

/// The views of a sequence of values.
pub open spec fn jviews(v: Seq<Json>) -> Seq<JsonV> {
    Seq::new(v.len(), |i: int| if 0 <= i < v.len() { v[i]@ } else { JsonV::Null })
}

/// The views of a sequence of members.
pub open spec fn mviews(m: Seq<(String, Json)>) -> Seq<(Seq<char>, JsonV)> {
    Seq::new(
        m.len(),
        |i: int|
            if 0 <= i < m.len() {
                (m[i].0@, m[i].1@)
            } else {
                (Seq::empty(), JsonV::Null)
            },
    )
}

pub proof fn lemma_container_view(j: &Json)
    ensures
        j is Array ==> j@ == JsonV::Array(jviews(j->Array_0@)),
        j is Object ==> j@ == JsonV::Object(mviews(j->Object_0@)),
{
    match j {
        Json::Array(items) => {
            assert(j@->Array_0 =~= jviews(items@));
        },
        Json::Object(m) => {
            assert(j@->Object_0 =~= mviews(m@));
        },
        _ => {},
    }
}

/// Position of the first member named `key`, or -1 when there is none.
pub open spec fn member_index(m: Seq<(Seq<char>, JsonV)>, key: Seq<char>) -> int
    decreases m.len(),
{
    if m.len() == 0 {
        -1
    } else if m[0].0 == key {
        0
    } else {
        let i = member_index(m.drop_first(), key);
        if i < 0 {
            -1
        } else {
            i + 1
        }
    }
}

/// The value of the first member named `key` of an object; nothing for other values.
pub open spec fn field(j: JsonV, key: Seq<char>) -> Option<JsonV> {
    match j {
        JsonV::Object(m) => {
            let i = member_index(m, key);
            if 0 <= i < m.len() {
                Some(m[i].1)
            } else {
                None
            }
        },
        _ => None,
    }
}

/// The text of a string value.
pub open spec fn text_of(j: Option<JsonV>) -> Option<Seq<char>> {
    match j {
        Some(JsonV::Str(s)) => Some(s),
        _ => None,
    }
}

/// A deep copy of `j`.
pub fn copy_json(j: &Json) -> (r: Json)
    ensures
        r@ == j@,
    decreases j@,
{
    match j {
        Json::Null => Json::Null,
        Json::Bool(b) => Json::Bool(*b),
        Json::Number(n) => Json::Number(n.clone()),
        Json::Str(s) => Json::Str(s.clone()),
        Json::Array(items) => {
            let mut out: Vec<Json> = Vec::new();
            let mut i: usize = 0;
            assert(forall|k: int| 0 <= k < items@.len() ==> #[trigger] j@->Array_0[k] == items@[k]@);
            while i < items.len()
                invariant
                    i <= items@.len(),
                    j@ is Array,
                    j@->Array_0.len() == items@.len(),
                    forall|k: int| 0 <= k < items@.len() ==> #[trigger] j@->Array_0[k] == items@[k]@,
                    forall|k: int| 0 <= k < i ==> out@[k]@ == items@[k]@,
                    out@.len() == i,
                decreases items@.len() - i,
            {
                proof {
                    assert(items@[i as int]@ == j@->Array_0[i as int]);
                }
                let v = copy_json(&items[i]);
                out.push(v);
                i = i + 1;
            }
            let r = Json::Array(out);
            assert(r@ == j@) by {
                assert(r@->Array_0 =~= j@->Array_0);
            }
            r
        },
        Json::Object(members) => {
            let mut out: Vec<(String, Json)> = Vec::new();
            let mut i: usize = 0;
            assert(forall|k: int|
                0 <= k < members@.len() ==> #[trigger] j@->Object_0[k] == (members@[k].0@, members@[k].1@));
            while i < members.len()
                invariant
                    i <= members@.len(),
                    j@ is Object,
                    j@->Object_0.len() == members@.len(),
                    forall|k: int|
                        0 <= k < members@.len() ==> #[trigger] j@->Object_0[k] == (members@[k].0@, members@[k].1@),
                    out@.len() == i,
                    forall|k: int|
                        0 <= k < i ==> out@[k].0@ == members@[k].0@ && out@[k].1@ == members@[k].1@,
                decreases members@.len() - i,
            {
                proof {
                    assert(members@[i as int].1@ == j@->Object_0[i as int].1);
                }
                let k = members[i].0.clone();
                let v = copy_json(&members[i].1);
                out.push((k, v));
                i = i + 1;
            }
            let r = Json::Object(out);
            assert(r@ == j@) by {
                assert(r@->Object_0 =~= j@->Object_0);
            }
            r
        },
    }
}

/// Whether `a` and `b` are the same document.
pub fn json_equal(a: &Json, b: &Json) -> (r: bool)
    ensures
        r == (a@ == b@),
    decreases a@,
{
    proof {
        lemma_container_view(a);
        lemma_container_view(b);
    }
    match (a, b) {
        (Json::Null, Json::Null) => true,
        (Json::Bool(x), Json::Bool(y)) => *x == *y,
        (Json::Number(x), Json::Number(y)) => same_text(x.as_str(), y.as_str()),
        (Json::Str(x), Json::Str(y)) => same_text(x.as_str(), y.as_str()),
        (Json::Array(xs), Json::Array(ys)) => {
            if xs.len() != ys.len() {
                assert(jviews(xs@).len() != jviews(ys@).len());
                return false;
            }
            let mut i: usize = 0;
            while i < xs.len()
                invariant
                    i <= xs@.len(),
                    xs@.len() == ys@.len(),
                    a@ == JsonV::Array(jviews(xs@)),
                    b@ == JsonV::Array(jviews(ys@)),
                    forall|k: int| 0 <= k < i ==> #[trigger] xs@[k]@ == ys@[k]@,
                decreases xs@.len() - i,
            {
                proof {
                    assert(jviews(xs@)[i as int] == xs@[i as int]@);
                    assert(decreases_to!(a@ => a@->Array_0[i as int]));
                }
                if !json_equal(&xs[i], &ys[i]) {
                    assert(jviews(ys@)[i as int] == ys@[i as int]@);
                    return false;
                }
                i = i + 1;
            }
            assert(jviews(xs@) =~= jviews(ys@));
            true
        },
        (Json::Object(xs), Json::Object(ys)) => {
            if xs.len() != ys.len() {
                assert(mviews(xs@).len() != mviews(ys@).len());
                return false;
            }
            let mut i: usize = 0;
            while i < xs.len()
                invariant
                    i <= xs@.len(),
                    xs@.len() == ys@.len(),
                    a@ == JsonV::Object(mviews(xs@)),
                    b@ == JsonV::Object(mviews(ys@)),
                    forall|k: int| 0 <= k < i ==> #[trigger] mviews(xs@)[k] == mviews(ys@)[k],
                decreases xs@.len() - i,
            {
                proof {
                    assert(mviews(xs@)[i as int] == (xs@[i as int].0@, xs@[i as int].1@));
                    assert(mviews(ys@)[i as int] == (ys@[i as int].0@, ys@[i as int].1@));
                    assert(decreases_to!(a@ => a@->Object_0[i as int]));
                    assert(decreases_to!(a@->Object_0[i as int] => a@->Object_0[i as int].1));
                }
                if !same_text(xs[i].0.as_str(), ys[i].0.as_str()) {
                    return false;
                }
                if !json_equal(&xs[i].1, &ys[i].1) {
                    return false;
                }
                i = i + 1;
            }
            assert(mviews(xs@) =~= mviews(ys@));
            true
        },
        _ => false,
    }
}

impl Json {
    /// The value of the first member named `key`, where `self` is an object.
    pub fn get(&self, key: &str) -> (r: Option<&Json>)
        ensures
            match r {
                Some(v) => field(self@, key@) == Some(v@),
                None => field(self@, key@) is None,
            },
    {
        match self {
            Json::Object(m) => {
                assert(self@->Object_0.len() == m@.len());
                assert(forall|j: int|
                    0 <= j < m@.len() ==> #[trigger] self@->Object_0[j] == (m@[j].0@, m@[j].1@));
                let mut i: usize = 0;
                while i < m.len()
                    invariant
                        i <= m@.len(),
                        self@ is Object,
                        self@->Object_0.len() == m@.len(),
                        forall|j: int|
                            0 <= j < m@.len() ==> #[trigger] self@->Object_0[j] == (m@[j].0@, m@[j].1@),
                        forall|j: int| 0 <= j < i ==> self@->Object_0[j].0 != key@,
                    decreases m@.len() - i,
                {
                    if same_text(m[i].0.as_str(), key) {
                        proof {
                            lemma_first_member(self@->Object_0, key@, i as int);
                            assert(self@->Object_0[i as int] == (m@[i as int].0@, m@[i as int].1@));
                        }
                        return Some(&m[i].1);
                    }
                    i = i + 1;
                }
                proof {
                    lemma_no_member(self@->Object_0, key@);
                }
                None
            },
            _ => None,
        }
    }

    /// The text of `self`, where it is a string.
    pub fn as_str(&self) -> (r: Option<&str>)
        ensures
            match r {
                Some(s) => self@ == JsonV::Str(s@),
                None => !(self@ is Str),
            },
    {
        match self {
            Json::Str(s) => Some(s.as_str()),
            _ => None,
        }
    }
}

proof fn lemma_first_member(m: Seq<(Seq<char>, JsonV)>, key: Seq<char>, i: int)
    requires
        0 <= i < m.len(),
        m[i].0 == key,
        forall|j: int| 0 <= j < i ==> m[j].0 != key,
    ensures
        member_index(m, key) == i,
    decreases i,
{
    if i > 0 {
        lemma_first_member(m.drop_first(), key, i - 1);
    }
}

proof fn lemma_no_member(m: Seq<(Seq<char>, JsonV)>, key: Seq<char>)
    requires
        forall|j: int| 0 <= j < m.len() ==> m[j].0 != key,
    ensures
        member_index(m, key) == -1,
    decreases m.len(),
{
    if m.len() > 0 {
        lemma_no_member(m.drop_first(), key);
    }
}

} // verus!
