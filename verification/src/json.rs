use vstd::prelude::*;

verus! {

broadcast use vstd::std_specs::vec::group_vec_axioms;

/// A JSON value as used by the nftables line protocol: null, booleans,
/// integers, strings, arrays, and objects whose properties keep their
/// order.  Fractional or exponent number forms are not part of the
/// protocol and have no place in the tree.
#[derive(Debug)]
pub enum Json {
    Null,
    Bool(bool),
    Num(i64),
    Str(String),
    Arr(Vec<Json>),
    Obj(Vec<(String, Json)>),
}

/// The mathematical mirror of `Json`: strings become character
/// sequences, vectors become sequences, numbers become unbounded
/// integers.
pub enum JsonM {
    Null,
    Bool(bool),
    Num(int),
    Str(Seq<char>),
    Arr(Seq<JsonM>),
    Obj(Seq<(Seq<char>, JsonM)>),
}

/// Abstraction of a `Json` tree as a `JsonM`.
pub open spec fn json_m(j: Json) -> JsonM
    decreases j,
{
    match j {
        Json::Null => JsonM::Null,
        Json::Bool(b) => JsonM::Bool(b),
        Json::Num(n) => JsonM::Num(n as int),
        Json::Str(s) => JsonM::Str(s@),
        Json::Arr(items) => JsonM::Arr(arr_m_at(items, 0)),
        Json::Obj(entries) => JsonM::Obj(obj_m_at(entries, 0)),
    }
}

/// Abstraction of the array elements from index `i` on.
pub open spec fn arr_m_at(items: Vec<Json>, i: int) -> Seq<JsonM>
    decreases items, items@.len() - i,
{
    if 0 <= i < items@.len() {
        seq![json_m(items[i])] + arr_m_at(items, i + 1)
    } else {
        Seq::empty()
    }
}

/// Abstraction of the object properties from index `i` on.
pub open spec fn obj_m_at(entries: Vec<(String, Json)>, i: int) -> Seq<(Seq<char>, JsonM)>
    decreases entries, entries@.len() - i,
{
    if 0 <= i < entries@.len() {
        seq![(entries[i].0@, json_m(entries[i].1))] + obj_m_at(entries, i + 1)
    } else {
        Seq::empty()
    }
}

/// `arr_m_at` is the pointwise abstraction of the element vector.
pub proof fn lemma_arr_m_at(items: Vec<Json>, i: int)
    requires
        0 <= i <= items@.len(),
    ensures
        arr_m_at(items, i).len() == items@.len() - i,
        forall|k: int|
            0 <= k < items@.len() - i ==> arr_m_at(items, i)[k] == json_m(items[i + k]),
    decreases items@.len() - i,
{
    if i < items@.len() {
        lemma_arr_m_at(items, i + 1);
    }
}

/// `obj_m_at` is the pointwise abstraction of the property vector.
pub proof fn lemma_obj_m_at(entries: Vec<(String, Json)>, i: int)
    requires
        0 <= i <= entries@.len(),
    ensures
        obj_m_at(entries, i).len() == entries@.len() - i,
        forall|k: int|
            0 <= k < entries@.len() - i ==> obj_m_at(entries, i)[k] == (
                entries[i + k].0@,
                json_m(entries[i + k].1),
            ),
    decreases entries@.len() - i,
{
    if i < entries@.len() {
        lemma_obj_m_at(entries, i + 1);
    }
}

impl View for Json {
    type V = JsonM;

    open spec fn view(&self) -> JsonM {
        json_m(*self)
    }
}

/// The value of the first property named `k` among `s`, if any.
pub open spec fn lookup_entries(s: Seq<(Seq<char>, JsonM)>, k: Seq<char>) -> Option<JsonM>
    decreases s.len(),
{
    if s.len() == 0 {
        None
    } else if s[0].0 == k {
        Some(s[0].1)
    } else {
        lookup_entries(s.drop_first(), k)
    }
}

/// Relies on `str`'s `PartialEq`: two string slices are equal exactly
/// when their character sequences are equal.
#[verifier::external_body]
pub(crate) fn str_eq(a: &str, b: &str) -> (r: bool)
    ensures
        r == (a@ == b@),
{
    a == b
}

impl Json {
    /// Looks a property up in an object value; `None` on other values
    /// or when the property is missing.
    pub fn get<'a>(&'a self, key: &str) -> (r: Option<&'a Json>)
        ensures
            match *self {
                Json::Obj(_) => {
                    match r {
                        Some(v) => lookup_entries(self@->Obj_0, key@) == Some(v@),
                        None => lookup_entries(self@->Obj_0, key@) is None,
                    }
                },
                _ => r is None,
            },
    {
        match self {
            Json::Obj(entries) => {
                proof {
                    lemma_obj_m_at(*entries, 0);
                    assert(self@->Obj_0 =~= entries_m(entries@));
                }
                obj_lookup(entries, key)
            },
            _ => None,
        }
    }
}

/// Abstraction of an object's property vector.
pub open spec fn entries_m(entries: Seq<(String, Json)>) -> Seq<(Seq<char>, JsonM)> {
    Seq::new(entries.len(), |i: int| (entries[i].0@, json_m(entries[i].1)))
}

/// The value of the first property named `key`, if any.
pub fn obj_lookup<'a>(entries: &'a Vec<(String, Json)>, key: &str) -> (r: Option<&'a Json>)
    ensures
        match r {
            Some(v) => lookup_entries(entries_m(entries@), key@) == Some(v@),
            None => lookup_entries(entries_m(entries@), key@) is None,
        },
{
    let ghost s = entries_m(entries@);
    proof {
        assert(s.skip(0) =~= s);
    }
    let mut i: usize = 0;
    while i < entries.len()
        invariant
            0 <= i <= entries.len(),
            s == entries_m(entries@),
            s.len() == entries@.len(),
            lookup_entries(s, key@) == lookup_entries(s.skip(i as int), key@),
        decreases entries.len() - i,
    {
        if str_eq(entries[i].0.as_str(), key) {
            assert(s.skip(i as int)[0] == s[i as int]);
            return Some(&entries[i].1);
        }
        proof {
            assert(s.skip(i as int)[0] == s[i as int]);
            assert(s.skip(i as int).drop_first() =~= s.skip(i + 1));
        }
        i += 1;
    }
    proof {
        assert(s.skip(i as int).len() == 0);
    }
    None
}

/// Looking a property up in a concatenation searches the left part
/// first, then the right part.
pub proof fn lemma_lookup_prepend_all(s1: Seq<(Seq<char>, JsonM)>, s2: Seq<(Seq<char>, JsonM)>)
    ensures
        forall|k: Seq<char>|
            #[trigger] lookup_entries(s1 + s2, k) == match lookup_entries(s1, k) {
                Some(v) => Some(v),
                None => lookup_entries(s2, k),
            },
    decreases s1.len(),
{
    if s1.len() == 0 {
        assert(s1 + s2 =~= s2);
        assert forall|k: Seq<char>|
            #[trigger] lookup_entries(s1 + s2, k) == match lookup_entries(s1, k) {
                Some(v) => Some(v),
                None => lookup_entries(s2, k),
            } by {
            assert(lookup_entries(s1, k) is None);
        }
    } else {
        lemma_lookup_prepend_all(s1.drop_first(), s2);
        assert forall|k: Seq<char>|
            #[trigger] lookup_entries(s1 + s2, k) == match lookup_entries(s1, k) {
                Some(v) => Some(v),
                None => lookup_entries(s2, k),
            } by {
            assert((s1 + s2)[0] == s1[0]);
            assert((s1 + s2).drop_first() =~= s1.drop_first() + s2);
            assert(lookup_entries((s1 + s2).drop_first(), k) == lookup_entries(
                s1.drop_first() + s2,
                k,
            ));
        }
    }
}

/// Looking a property up among a single property.
pub proof fn lemma_lookup_single_all(k0: Seq<char>, v: JsonM)
    ensures
        forall|k: Seq<char>|
            #[trigger] lookup_entries(seq![(k0, v)], k) == if k0 == k {
                Some(v)
            } else {
                None
            },
{
    assert forall|k: Seq<char>|
        #[trigger] lookup_entries(seq![(k0, v)], k) == if k0 == k {
            Some(v)
        } else {
            None
        } by {
        let s = seq![(k0, v)];
        assert(s.len() == 1);
        assert(s[0] == (k0, v));
        assert(s.drop_first().len() == 0);
        assert(lookup_entries(s.drop_first(), k) is None);
    }
}

/// Height of a JSON value tree, used as a termination measure by the
/// decoders.
pub open spec fn json_height(j: JsonM) -> nat
    decreases j,
{
    match j {
        JsonM::Arr(s) => 1 + jsons_height_at(s, 0),
        JsonM::Obj(s) => 1 + jentries_height_at(s, 0),
        _ => 1,
    }
}

/// Largest height among the elements of `s` from index `i` on.
pub open spec fn jsons_height_at(s: Seq<JsonM>, i: int) -> nat
    decreases s, s.len() - i,
{
    if 0 <= i < s.len() {
        let h = json_height(s[i]);
        let r = jsons_height_at(s, i + 1);
        if h > r {
            h
        } else {
            r
        }
    } else {
        0
    }
}

/// Largest height among the property values of `s` from index `i` on.
pub open spec fn jentries_height_at(s: Seq<(Seq<char>, JsonM)>, i: int) -> nat
    decreases s, s.len() - i,
{
    if 0 <= i < s.len() {
        let h = json_height(s[i].1);
        let r = jentries_height_at(s, i + 1);
        if h > r {
            h
        } else {
            r
        }
    } else {
        0
    }
}

/// Every element of an array is lower than the array.
pub broadcast proof fn lemma_height_index(s: Seq<JsonM>, i: int)
    requires
        0 <= i < s.len(),
    ensures
        json_height(#[trigger] s[i]) < json_height(JsonM::Arr(s)),
{
    lemma_jsons_height_at_bound(s, 0, i);
}

proof fn lemma_jsons_height_at_bound(s: Seq<JsonM>, from: int, i: int)
    requires
        0 <= from <= i < s.len(),
    ensures
        json_height(s[i]) <= jsons_height_at(s, from),
    decreases i - from,
{
    if from < i {
        lemma_jsons_height_at_bound(s, from + 1, i);
    }
}

/// Every property value of an object is lower than the object.
pub broadcast proof fn lemma_height_entry(s: Seq<(Seq<char>, JsonM)>, i: int)
    requires
        0 <= i < s.len(),
    ensures
        json_height((#[trigger] s[i]).1) < json_height(JsonM::Obj(s)),
{
    lemma_jentries_height_at_bound(s, 0, i);
}

proof fn lemma_jentries_height_at_bound(s: Seq<(Seq<char>, JsonM)>, from: int, i: int)
    requires
        0 <= from <= i < s.len(),
    ensures
        json_height(s[i].1) <= jentries_height_at(s, from),
    decreases i - from,
{
    if from < i {
        lemma_jentries_height_at_bound(s, from + 1, i);
    }
}

/// A looked-up property value is lower than the object it came from.
pub broadcast proof fn lemma_height_lookup(s: Seq<(Seq<char>, JsonM)>, k: Seq<char>)
    ensures
        (#[trigger] lookup_entries(s, k)) matches Some(v) ==> json_height(v) < json_height(
            JsonM::Obj(s),
        ),
    decreases s.len(),
{
    if s.len() > 0 {
        if s[0].0 == k {
            lemma_height_entry(s, 0);
        } else {
            lemma_height_lookup(s.drop_first(), k);
            if let Some(v) = lookup_entries(s.drop_first(), k) {
                assert(json_height(v) < json_height(JsonM::Obj(s.drop_first())));
                lemma_obj_height_extend(s);
            }
        }
    }
}

/// Dropping the first property does not raise an object's height.
proof fn lemma_obj_height_extend(s: Seq<(Seq<char>, JsonM)>)
    requires
        s.len() > 0,
    ensures
        json_height(JsonM::Obj(s.drop_first())) <= json_height(JsonM::Obj(s)),
{
    lemma_jentries_height_at_shift(s, 0);
}

proof fn lemma_jentries_height_at_shift(s: Seq<(Seq<char>, JsonM)>, i: int)
    requires
        s.len() > 0,
        0 <= i,
    ensures
        jentries_height_at(s.drop_first(), i) == jentries_height_at(s, i + 1),
    decreases s.len() - i,
{
    if i < s.len() - 1 {
        assert(s.drop_first()[i] == s[i + 1]);
        lemma_jentries_height_at_shift(s, i + 1);
    }
}

} // verus!
