use vstd::prelude::*;

verus! {

use vstd::pervasive::VecAdditionalExecFns;

/// A JSON-like value: the shape of the context object that extraction
/// results are merged into. Numbers are carried as their decimal text,
/// so nothing is lost on the way through.
#[derive(Debug, PartialEq, Eq)]
pub enum JsonValue {
    Null,
    Bool(bool),
    Num(String),
    Str(String),
    Array(Vec<JsonValue>),
    Object(Vec<(String, JsonValue)>),
}

/// The mathematical model of a JSON value: strings as character
/// sequences, arrays and objects as sequences. An object is a sequence
/// of key/value pairs, not a map, so that the order of the keys and any
/// duplicates among them are part of the model.
pub enum SpecJson {
    Null,
    Bool(bool),
    Num(Seq<char>),
    Str(Seq<char>),
    Arr(Seq<SpecJson>),
    Obj(Seq<(Seq<char>, SpecJson)>),
}

impl JsonValue {
    /// The model of this value.
    pub open spec fn model(self) -> SpecJson
        decreases self,
    {
        match self {
            JsonValue::Null => SpecJson::Null,
            JsonValue::Bool(b) => SpecJson::Bool(b),
            JsonValue::Num(s) => SpecJson::Num(s@),
            JsonValue::Str(s) => SpecJson::Str(s@),
            JsonValue::Array(a) => SpecJson::Arr(model_seq(a@)),
            JsonValue::Object(o) => SpecJson::Obj(model_entries(o@)),
        }
    }

    /// The entry sequence of an object value's model.
    pub open spec fn obj_model(self) -> Seq<(Seq<char>, SpecJson)>
        recommends
            self is Object,
    {
        model_entries(self->Object_0@)
    }
}

/// The models of a sequence of values, element by element.
pub open spec fn model_seq(s: Seq<JsonValue>) -> Seq<SpecJson>
    decreases s,
{
    if s.len() == 0 {
        Seq::empty()
    } else {
        seq![s[0].model()] + model_seq(s.subrange(1, s.len() as int))
    }
}

/// The models of a sequence of key/value pairs: keys as character
/// sequences, values modelled element by element.
pub open spec fn model_entries(s: Seq<(String, JsonValue)>) -> Seq<(Seq<char>, SpecJson)>
    decreases s,
{
    if s.len() == 0 {
        Seq::empty()
    } else {
        seq![(s[0].0@, s[0].1.model())] + model_entries(s.subrange(1, s.len() as int))
    }
}

/// `model_seq` is the element-by-element model of a sequence.
pub proof fn lemma_model_seq(s: Seq<JsonValue>)
    ensures
        model_seq(s).len() == s.len(),
        forall|i: int| 0 <= i < s.len() ==> model_seq(s)[i] == s[i].model(),
    decreases s.len(),
{
    if s.len() > 0 {
        lemma_model_seq(s.subrange(1, s.len() as int));
    }
}

/// `model_entries` is the pair-by-pair model of an entry sequence.
pub proof fn lemma_model_entries(s: Seq<(String, JsonValue)>)
    ensures
        model_entries(s).len() == s.len(),
        forall|i: int| 0 <= i < s.len() ==> model_entries(s)[i] == (s[i].0@, s[i].1.model()),
    decreases s.len(),
{
    if s.len() > 0 {
        lemma_model_entries(s.subrange(1, s.len() as int));
    }
}

/// The value an object holds at key `k`: the value of the first pair
/// whose key is `k`, or `None` when no pair has that key.
pub open spec fn obj_lookup(m: Seq<(Seq<char>, SpecJson)>, k: Seq<char>) -> Option<SpecJson>
    decreases m,
{
    if m.len() == 0 {
        None
    } else if m[0].0 == k {
        Some(m[0].1)
    } else {
        obj_lookup(m.subrange(1, m.len() as int), k)
    }
}

/// Whether an object holds any pair with key `k`.
pub open spec fn obj_has_key(m: Seq<(Seq<char>, SpecJson)>, k: Seq<char>) -> bool {
    obj_lookup(m, k) is Some
}

/// The object after writing `v` at key `k`: the first pair whose key is
/// `k` is replaced, every other pair is kept in place; when no pair has
/// that key, `(k, v)` is appended at the end.
pub open spec fn obj_insert(m: Seq<(Seq<char>, SpecJson)>, k: Seq<char>, v: SpecJson) -> Seq<
    (Seq<char>, SpecJson),
>
    decreases m,
{
    if m.len() == 0 {
        seq![(k, v)]
    } else if m[0].0 == k {
        seq![(k, v)] + m.subrange(1, m.len() as int)
    } else {
        seq![m[0]] + obj_insert(m.subrange(1, m.len() as int), k, v)
    }
}

/// After a write at key `k`, a lookup at `k` finds exactly the value
/// written.
pub proof fn lemma_obj_insert_lookup(m: Seq<(Seq<char>, SpecJson)>, k: Seq<char>, v: SpecJson)
    ensures
        obj_lookup(obj_insert(m, k, v), k) == Some(v),
    decreases m,
{
    if m.len() > 0 && m[0].0 != k {
        let t = m.subrange(1, m.len() as int);
        lemma_obj_insert_lookup(t, k, v);
        assert((seq![m[0]] + obj_insert(t, k, v)).subrange(
            1,
            (seq![m[0]] + obj_insert(t, k, v)).len() as int,
        ) =~= obj_insert(t, k, v));
    }
}

/// Isolation: a write at key `k` leaves the value at every other key
/// exactly as it was.
pub proof fn lemma_obj_insert_frame(
    m: Seq<(Seq<char>, SpecJson)>,
    k: Seq<char>,
    v: SpecJson,
    other: Seq<char>,
)
    requires
        other != k,
    ensures
        obj_lookup(obj_insert(m, k, v), other) == obj_lookup(m, other),
    decreases m,
{
    let t = if m.len() > 0 {
        m.subrange(1, m.len() as int)
    } else {
        m
    };
    if m.len() == 0 {
        assert(seq![(k, v)].subrange(1, 1) =~= Seq::<(Seq<char>, SpecJson)>::empty());
        assert(obj_lookup(Seq::<(Seq<char>, SpecJson)>::empty(), other) is None);
    } else if m[0].0 == k {
        assert((seq![(k, v)] + t).subrange(1, (seq![(k, v)] + t).len() as int) =~= t);
    } else {
        lemma_obj_insert_frame(t, k, v, other);
        assert((seq![m[0]] + obj_insert(t, k, v)).subrange(
            1,
            (seq![m[0]] + obj_insert(t, k, v)).len() as int,
        ) =~= obj_insert(t, k, v));
    }
}

/// A write never deletes a key: afterwards the object holds exactly its
/// old keys and the one written.
pub proof fn lemma_obj_insert_keys(
    m: Seq<(Seq<char>, SpecJson)>,
    k: Seq<char>,
    v: SpecJson,
    k2: Seq<char>,
)
    ensures
        obj_has_key(obj_insert(m, k, v), k2) <==> (k2 == k || obj_has_key(m, k2)),
{
    if k2 == k {
        lemma_obj_insert_lookup(m, k, v);
    } else {
        lemma_obj_insert_frame(m, k, v, k2);
    }
}

/// Relies on `str`'s `==` (its `PartialEq` impl): two string slices
/// compare equal exactly when they consist of the same characters.
#[verifier::external_body]
pub(crate) fn str_eq(a: &str, b: &str) -> (r: bool)
    ensures
        r == (a@ == b@),
{
    a == b
}

/// A lookup that stops at the first pair with a matching key finds
/// what `obj_lookup` names.
proof fn lemma_lookup_found(s: Seq<(String, JsonValue)>, i: int, k: Seq<char>)
    requires
        0 <= i < s.len(),
        forall|j: int| 0 <= j < i ==> s[j].0@ != k,
        s[i].0@ == k,
    ensures
        obj_lookup(model_entries(s), k) == Some(s[i].1.model()),
    decreases i,
{
    lemma_model_entries(s);
    let m = model_entries(s);
    if i > 0 {
        let t = s.subrange(1, s.len() as int);
        lemma_lookup_found(t, i - 1, k);
        lemma_model_entries(t);
        assert(m.subrange(1, m.len() as int) =~= model_entries(t));
    }
}

/// When no pair's key matches, `obj_lookup` finds nothing.
proof fn lemma_lookup_missing(s: Seq<(String, JsonValue)>, k: Seq<char>)
    requires
        forall|j: int| 0 <= j < s.len() ==> s[j].0@ != k,
    ensures
        obj_lookup(model_entries(s), k) is None,
    decreases s.len(),
{
    lemma_model_entries(s);
    let m = model_entries(s);
    if s.len() > 0 {
        let t = s.subrange(1, s.len() as int);
        lemma_lookup_missing(t, k);
        lemma_model_entries(t);
        assert(m.subrange(1, m.len() as int) =~= model_entries(t));
    }
}

/// Replacing the first pair whose key matches is what `obj_insert`
/// names.
proof fn lemma_insert_found(s: Seq<(String, JsonValue)>, i: int, p: (String, JsonValue), k: Seq<char>)
    requires
        0 <= i < s.len(),
        forall|j: int| 0 <= j < i ==> s[j].0@ != k,
        s[i].0@ == k,
        p.0@ == k,
    ensures
        model_entries(s.update(i, p)) == obj_insert(model_entries(s), k, p.1.model()),
    decreases i,
{
    lemma_model_entries(s);
    lemma_model_entries(s.update(i, p));
    let m = model_entries(s);
    let mu = model_entries(s.update(i, p));
    if i == 0 {
        let t = s.subrange(1, s.len() as int);
        lemma_model_entries(t);
        assert(mu.subrange(1, mu.len() as int) =~= model_entries(t)) by {
            assert(s.update(0, p).subrange(1, s.len() as int) =~= t);
            lemma_model_entries(s.update(0, p));
        }
        assert(m.subrange(1, m.len() as int) =~= model_entries(t));
        assert(mu =~= obj_insert(m, k, p.1.model()));
    } else {
        let t = s.subrange(1, s.len() as int);
        lemma_insert_found(t, i - 1, p, k);
        lemma_model_entries(t);
        lemma_model_entries(t.update(i - 1, p));
        assert(s.update(i, p).subrange(1, s.len() as int) =~= t.update(i - 1, p));
        assert(mu.subrange(1, mu.len() as int) =~= model_entries(t.update(i - 1, p)));
        assert(m.subrange(1, m.len() as int) =~= model_entries(t));
        assert(mu =~= obj_insert(m, k, p.1.model()));
    }
}

/// Appending a pair with a key no other pair has is what `obj_insert`
/// names.
proof fn lemma_insert_absent(s: Seq<(String, JsonValue)>, p: (String, JsonValue), k: Seq<char>)
    requires
        forall|j: int| 0 <= j < s.len() ==> s[j].0@ != k,
        p.0@ == k,
    ensures
        model_entries(s.push(p)) == obj_insert(model_entries(s), k, p.1.model()),
    decreases s.len(),
{
    lemma_model_entries(s);
    lemma_model_entries(s.push(p));
    let m = model_entries(s);
    let mp = model_entries(s.push(p));
    if s.len() == 0 {
        assert(s.push(p).subrange(1, 1) =~= Seq::<(String, JsonValue)>::empty());
        assert(mp =~= seq![(k, p.1.model())]);
        assert(mp =~= obj_insert(m, k, p.1.model()));
    } else {
        let t = s.subrange(1, s.len() as int);
        lemma_insert_absent(t, p, k);
        lemma_model_entries(t);
        lemma_model_entries(t.push(p));
        assert(s.push(p).subrange(1, s.push(p).len() as int) =~= t.push(p));
        assert(mp.subrange(1, mp.len() as int) =~= model_entries(t.push(p)));
        assert(m.subrange(1, m.len() as int) =~= model_entries(t));
        assert(mp =~= obj_insert(m, k, p.1.model()));
    }
}

/// Finds the value stored under `key`, if the object holds one.
pub fn entries_get<'a>(entries: &'a Vec<(String, JsonValue)>, key: &str) -> (r: Option<
    &'a JsonValue,
>)
    ensures
        match r {
            Some(v) => obj_lookup(model_entries(entries@), key@) == Some(v.model()),
            None => obj_lookup(model_entries(entries@), key@) is None,
        },
{
    let n = entries.len();
    let mut i: usize = 0;
    while i < n
        invariant
            n == entries.len(),
            i <= n,
            forall|j: int| 0 <= j < i ==> entries@[j].0@ != key@,
        decreases n - i,
    {
        if str_eq(entries[i].0.as_str(), key) {
            proof {
                lemma_lookup_found(entries@, i as int, key@);
            }
            return Some(&entries[i].1);
        }
        i += 1;
    }
    proof {
        lemma_lookup_missing(entries@, key@);
    }
    None
}

/// Writes `value` under `key`: overwrites the first pair with that key,
/// or appends a new pair when the key is absent.
pub fn entries_insert(entries: &mut Vec<(String, JsonValue)>, key: &str, value: JsonValue)
    ensures
        model_entries(final(entries)@) == obj_insert(
            model_entries(old(entries)@),
            key@,
            value.model(),
        ),
{
    let n = entries.len();
    let mut i: usize = 0;
    while i < n
        invariant
            n == entries.len(),
            i <= n,
            entries@ == old(entries)@,
            forall|j: int| 0 <= j < i ==> entries@[j].0@ != key@,
        decreases n - i,
    {
        if str_eq(entries[i].0.as_str(), key) {
            let p = (key.to_owned(), value);
            proof {
                lemma_insert_found(entries@, i as int, p, key@);
            }
            entries.set(i, p);
            return;
        }
        i += 1;
    }
    let p = (key.to_owned(), value);
    proof {
        lemma_insert_absent(entries@, p, key@);
    }
    entries.push(p);
}

/// Last writer wins: two writes at the same key come to the same thing
/// as the second write alone.
pub proof fn lemma_obj_insert_overwrite(
    m: Seq<(Seq<char>, SpecJson)>,
    k: Seq<char>,
    v1: SpecJson,
    v2: SpecJson,
)
    ensures
        obj_insert(obj_insert(m, k, v1), k, v2) == obj_insert(m, k, v2),
    decreases m,
{
    if m.len() == 0 {
        assert(obj_insert(obj_insert(m, k, v1), k, v2) =~= obj_insert(m, k, v2));
    } else {
        let t = m.subrange(1, m.len() as int);
        if m[0].0 == k {
            assert((seq![(k, v1)] + t).subrange(1, (seq![(k, v1)] + t).len() as int) =~= t);
            assert(obj_insert(obj_insert(m, k, v1), k, v2) =~= obj_insert(m, k, v2));
        } else {
            lemma_obj_insert_overwrite(t, k, v1, v2);
            let u = seq![m[0]] + obj_insert(t, k, v1);
            assert(u.subrange(1, u.len() as int) =~= obj_insert(t, k, v1));
            assert(obj_insert(obj_insert(m, k, v1), k, v2) =~= obj_insert(m, k, v2));
        }
    }
}

} // verus!

