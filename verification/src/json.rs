//! A JSON document model: what request and response bodies hold once
//! parsed, with the operations the gateway applies to them.

use vstd::prelude::*;

verus! {

/// A JSON number: non-negative and negative integers exactly, other
/// numbers by their textual form.
#[derive(Debug, Clone, PartialEq, Eq)]
pub enum JsonNumber {
    PosInt(u64),
    NegInt(i64),
    Float(String),
}

/// A JSON value. Objects keep their members in order.
#[derive(Debug, PartialEq)]
pub enum Json {
    Null,
    Bool(bool),
    Number(JsonNumber),
    Str(String),
    Array(Vec<Json>),
    Object(Vec<(String, Json)>),
}

/// The plain view of a JSON number.
pub enum NumV {
    PosInt(u64),
    NegInt(i64),
    Float(Seq<char>),
}

/// The plain view of a JSON value.
pub enum JsonV {
    Null,
    Bool(bool),
    Number(NumV),
    Str(Seq<char>),
    Array(Seq<JsonV>),
    Object(Seq<(Seq<char>, JsonV)>),
}

pub open spec fn num_view(n: JsonNumber) -> NumV {
    match n {
        JsonNumber::PosInt(u) => NumV::PosInt(u),
        JsonNumber::NegInt(i) => NumV::NegInt(i),
        JsonNumber::Float(s) => NumV::Float(s@),
    }
}

/// The plain view of a JSON value.
pub open spec fn jv(j: Json) -> JsonV
    decreases j, 0nat,
{
    match j {
        Json::Null => JsonV::Null,
        Json::Bool(b) => JsonV::Bool(b),
        Json::Number(n) => JsonV::Number(num_view(n)),
        Json::Str(s) => JsonV::Str(s@),
        Json::Array(v) => JsonV::Array(jv_items(v@, v@.len())),
        Json::Object(f) => JsonV::Object(jv_fields(f@, f@.len())),
    }
}

/// Views of the first `n` items.
pub open spec fn jv_items(s: Seq<Json>, n: nat) -> Seq<JsonV>
    decreases s, n,
{
    if n == 0 || n > s.len() {
        Seq::empty()
    } else {
        jv_items(s, (n - 1) as nat).push(jv(s[n - 1]))
    }
}

/// Views of the first `n` members.
pub open spec fn jv_fields(s: Seq<(String, Json)>, n: nat) -> Seq<(Seq<char>, JsonV)>
    decreases s, n,
{
    if n == 0 || n > s.len() {
        Seq::empty()
    } else {
        jv_fields(s, (n - 1) as nat).push((s[n - 1].0@, jv(s[n - 1].1)))
    }
}


pub proof fn lemma_items(s: Seq<Json>, n: nat)
    requires
        n <= s.len(),
    ensures
        jv_items(s, n).len() == n,
        forall|k: int| 0 <= k < n ==> #[trigger] jv_items(s, n)[k] == jv(s[k]),
    decreases n,
{
    if n > 0 {
        lemma_items(s, (n - 1) as nat);
    }
}

pub proof fn lemma_fields(s: Seq<(String, Json)>, n: nat)
    requires
        n <= s.len(),
    ensures
        jv_fields(s, n).len() == n,
        forall|k: int| 0 <= k < n ==> #[trigger] jv_fields(s, n)[k] == (s[k].0@, jv(s[k].1)),
    decreases n,
{
    if n > 0 {
        lemma_fields(s, (n - 1) as nat);
    }
}

/// The views of all items of an array.
pub open spec fn items_view(s: Seq<Json>) -> Seq<JsonV> {
    jv_items(s, s.len())
}

/// The views of all members of an object.
pub open spec fn fields_view(s: Seq<(String, Json)>) -> Seq<(Seq<char>, JsonV)> {
    jv_fields(s, s.len())
}

/// Index of the first member named `key`.
pub open spec fn fields_index(f: Seq<(Seq<char>, JsonV)>, key: Seq<char>) -> Option<int>
    decreases f.len(),
{
    if f.len() == 0 {
        None
    } else {
        match fields_index(f.drop_last(), key) {
            Some(i) => Some(i),
            None => if f.last().0 == key {
                Some(f.len() - 1)
            } else {
                None
            },
        }
    }
}

pub proof fn lemma_fields_index(f: Seq<(Seq<char>, JsonV)>, key: Seq<char>)
    ensures
        fields_index(f, key) matches Some(i) ==> 0 <= i < f.len() && f[i].0 == key && forall|j: int|
            0 <= j < i ==> (#[trigger] f[j]).0 != key,
        fields_index(f, key) is None ==> forall|j: int| 0 <= j < f.len() ==> (#[trigger] f[j]).0 != key,
    decreases f.len(),
{
    if f.len() > 0 {
        lemma_fields_index(f.drop_last(), key);
        assert forall|j: int| 0 <= j < f.len() - 1 implies #[trigger] f[j] == f.drop_last()[j] by {}
    }
}

/// The member `key` of an object (`None` for non-objects).
pub open spec fn jv_get(v: JsonV, key: Seq<char>) -> Option<JsonV> {
    match v {
        JsonV::Object(f) => match fields_index(f, key) {
            Some(i) => Some(f[i].1),
            None => None,
        },
        _ => None,
    }
}

/// Assign member `key` as `value[key] = val` does: replace the first
/// member of that name, or append one; a `null` becomes an object first.
pub open spec fn jv_set(v: JsonV, key: Seq<char>, val: JsonV) -> JsonV {
    match v {
        JsonV::Object(f) => JsonV::Object(
            match fields_index(f, key) {
                Some(i) => f.update(i, (key, val)),
                None => f.push((key, val)),
            },
        ),
        JsonV::Null => JsonV::Object(seq![(key, val)]),
        _ => v,
    }
}

/// Remove member `key` from an object (other values are unchanged).
pub open spec fn jv_remove(v: JsonV, key: Seq<char>) -> JsonV {
    match v {
        JsonV::Object(f) => JsonV::Object(
            match fields_index(f, key) {
                Some(i) => f.remove(i),
                None => f,
            },
        ),
        _ => v,
    }
}

/// An object or `null`: what `value[key] = ...` accepts.
pub open spec fn settable(v: JsonV) -> bool {
    v is Object || v is Null
}

pub open spec fn jv_as_u64(v: JsonV) -> Option<u64> {
    match v {
        JsonV::Number(NumV::PosInt(u)) => Some(u),
        _ => None,
    }
}

pub open spec fn jv_as_i64(v: JsonV) -> Option<i64> {
    match v {
        JsonV::Number(NumV::PosInt(u)) => if u <= i64::MAX as u64 {
            Some(u as i64)
        } else {
            None
        },
        JsonV::Number(NumV::NegInt(i)) => Some(i),
        _ => None,
    }
}

pub open spec fn jv_as_bool(v: JsonV) -> Option<bool> {
    match v {
        JsonV::Bool(b) => Some(b),
        _ => None,
    }
}

pub open spec fn jv_as_array(v: JsonV) -> Option<Seq<JsonV>> {
    match v {
        JsonV::Array(a) => Some(a),
        _ => None,
    }
}

pub open spec fn jv_as_str(v: JsonV) -> Option<Seq<char>> {
    match v {
        JsonV::Str(s) => Some(s),
        _ => None,
    }
}

/// The JSON integer `n` (non-negative).
pub open spec fn jv_uint(n: u64) -> JsonV {
    JsonV::Number(NumV::PosInt(n))
}

/// A deep copy of a JSON value.
pub fn clone_json(j: &Json) -> (r: Json)
    ensures
        jv(r) == jv(*j),
    decreases j,
{
    match j {
        Json::Null => Json::Null,
        Json::Bool(b) => Json::Bool(*b),
        Json::Number(n) => Json::Number(
            match n {
                JsonNumber::PosInt(u) => JsonNumber::PosInt(*u),
                JsonNumber::NegInt(i) => JsonNumber::NegInt(*i),
                JsonNumber::Float(s) => JsonNumber::Float(s.clone()),
            },
        ),
        Json::Str(s) => Json::Str(s.clone()),
        Json::Array(v) => {
            let mut out: Vec<Json> = Vec::new();
            let mut i: usize = 0;
            while i < v.len()
                invariant
                    *j == Json::Array(*v),
                    i <= v@.len(),
                    out@.len() == i,
                    forall|k: int| 0 <= k < i ==> jv(#[trigger] out@[k]) == jv(v@[k]),
                decreases v@.len() - i,
            {
                proof {
                    assert(decreases_to!(*j => (*j)->Array_0));
                    assert(decreases_to!(*v => v[i as int]));
                }
                out.push(clone_json(&v[i]));
                i = i + 1;
            }
            proof {
                lemma_items(out@, out@.len());
                lemma_items(v@, v@.len());
                assert(items_view(out@) =~= items_view(v@));
            }
            Json::Array(out)
        },
        Json::Object(f) => {
            let mut out: Vec<(String, Json)> = Vec::new();
            let mut i: usize = 0;
            while i < f.len()
                invariant
                    *j == Json::Object(*f),
                    i <= f@.len(),
                    out@.len() == i,
                    forall|k: int| 0 <= k < i ==> (#[trigger] out@[k]).0@ == f@[k].0@ && jv(out@[k].1) == jv(f@[k].1),
                decreases f@.len() - i,
            {
                proof {
                    assert(decreases_to!(*j => (*j)->Object_0));
                    assert(decreases_to!(*f => f[i as int]));
                    assert(decreases_to!(f[i as int] => f[i as int].1));
                }
                let v = clone_json(&f[i].1);
                out.push((f[i].0.clone(), v));
                i = i + 1;
            }
            proof {
                lemma_fields(out@, out@.len());
                lemma_fields(f@, f@.len());
                assert(fields_view(out@) =~= fields_view(f@));
            }
            Json::Object(out)
        },
    }
}

/// Index of the first member named `key`.
pub fn find_key(f: &Vec<(String, Json)>, key: &str) -> (r: Option<usize>)
    ensures
        match r {
            Some(i) => i < f@.len() && fields_index(fields_view(f@), key@) == Some(i as int),
            None => fields_index(fields_view(f@), key@) is None,
        },
{
    let ghost fv = fields_view(f@);
    proof {
        lemma_fields(f@, f@.len());
        lemma_fields_index(fv, key@);
    }
    let mut i: usize = 0;
    while i < f.len()
        invariant
            i <= f@.len(),
            fv == fields_view(f@),
            fv.len() == f@.len(),
            forall|k: int| 0 <= k < f@.len() ==> #[trigger] fv[k] == (f@[k].0@, jv(f@[k].1)),
            forall|k: int| 0 <= k < i ==> (#[trigger] fv[k]).0 != key@,
            fields_index(fv, key@) matches Some(x) ==> 0 <= x < fv.len() && fv[x].0 == key@
                && forall|j: int| 0 <= j < x ==> (#[trigger] fv[j]).0 != key@,
            fields_index(fv, key@) is None ==> forall|j: int| 0 <= j < fv.len() ==> (#[trigger] fv[j]).0 != key@,
        decreases f@.len() - i,
    {
        if crate::text::str_eq(f[i].0.as_str(), key) {
            proof {
                assert(fv[i as int].0 == key@);
            }
            return Some(i);
        }
        i = i + 1;
    }
    None
}

/// The member `key` of an object (`None` for non-objects), like
/// `Value::get`.
pub fn get<'a>(j: &'a Json, key: &str) -> (r: Option<&'a Json>)
    ensures
        match r {
            Some(x) => jv_get(jv(*j), key@) == Some(jv(*x)),
            None => jv_get(jv(*j), key@) is None,
        },
{
    match j {
        Json::Object(f) => {
            proof {
                lemma_fields(f@, f@.len());
            }
            match find_key(f, key) {
                Some(i) => Some(&f[i].1),
                None => None,
            }
        },
        _ => None,
    }
}

/// `value[key] = val` on an object or `null`.
pub fn insert(j: Json, key: &str, val: Json) -> (r: Json)
    requires
        settable(jv(j)),
    ensures
        jv(r) == jv_set(jv(j), key@, jv(val)),
{
    match j {
        Json::Object(f) => {
            let mut f = f;
            let ghost f0 = f@;
            proof {
                lemma_fields(f0, f0.len());
            }
            match find_key(&f, key) {
                Some(i) => {
                    let ghost vv = jv(val);
                    f.set(i, (key.to_owned(), val));
                    proof {
                        lemma_fields(f@, f@.len());
                        assert(fields_view(f@) =~= fields_view(f0).update(i as int, (key@, vv)));
                    }
                },
                None => {
                    let ghost vv = jv(val);
                    f.push((key.to_owned(), val));
                    proof {
                        lemma_fields(f@, f@.len());
                        assert(fields_view(f@) =~= fields_view(f0).push((key@, vv)));
                    }
                },
            }
            Json::Object(f)
        },
        Json::Null => {
            let ghost vv = jv(val);
            let mut f: Vec<(String, Json)> = Vec::new();
            f.push((key.to_owned(), val));
            proof {
                lemma_fields(f@, f@.len());
                assert(fields_view(f@) =~= seq![(key@, vv)]);
            }
            Json::Object(f)
        },
        _ => j,
    }
}

/// Remove member `key` from an object (other values are returned as is).
pub fn remove(j: Json, key: &str) -> (r: Json)
    ensures
        jv(r) == jv_remove(jv(j), key@),
{
    match j {
        Json::Object(f) => {
            let mut f = f;
            let ghost f0 = f@;
            proof {
                lemma_fields(f0, f0.len());
            }
            match find_key(&f, key) {
                Some(i) => {
                    f.remove(i);
                    proof {
                        lemma_fields(f@, f@.len());
                        assert(fields_view(f@) =~= fields_view(f0).remove(i as int));
                    }
                },
                None => {},
            }
            Json::Object(f)
        },
        _ => j,
    }
}

pub fn as_u64(j: &Json) -> (r: Option<u64>)
    ensures
        r == jv_as_u64(jv(*j)),
{
    match j {
        Json::Number(JsonNumber::PosInt(u)) => Some(*u),
        _ => None,
    }
}

pub fn as_i64(j: &Json) -> (r: Option<i64>)
    ensures
        r == jv_as_i64(jv(*j)),
{
    match j {
        Json::Number(JsonNumber::PosInt(u)) => if *u <= i64::MAX as u64 {
            Some(*u as i64)
        } else {
            None
        },
        Json::Number(JsonNumber::NegInt(i)) => Some(*i),
        _ => None,
    }
}

pub fn as_bool(j: &Json) -> (r: Option<bool>)
    ensures
        r == jv_as_bool(jv(*j)),
{
    match j {
        Json::Bool(b) => Some(*b),
        _ => None,
    }
}

pub fn as_array(j: &Json) -> (r: Option<&Vec<Json>>)
    ensures
        match r {
            Some(a) => jv_as_array(jv(*j)) == Some(items_view(a@)),
            None => jv_as_array(jv(*j)) is None,
        },
{
    match j {
        Json::Array(a) => Some(a),
        _ => None,
    }
}

pub fn as_str(j: &Json) -> (r: Option<&String>)
    ensures
        match r {
            Some(s) => jv_as_str(jv(*j)) == Some(s@),
            None => jv_as_str(jv(*j)) is None,
        },
{
    match j {
        Json::Str(s) => Some(s),
        _ => None,
    }
}

/// The JSON integer `n`.
pub fn uint(n: u64) -> (r: Json)
    ensures
        jv(r) == jv_uint(n),
{
    Json::Number(JsonNumber::PosInt(n))
}

/// The JSON integer `i`, as `serde_json` stores it: non-negative values
/// as unsigned, negative ones as signed.
pub open spec fn jv_int(i: i64) -> JsonV {
    if i >= 0 {
        JsonV::Number(NumV::PosInt(i as u64))
    } else {
        JsonV::Number(NumV::NegInt(i))
    }
}

/// The JSON integer `i`.
pub fn signed(i: i64) -> (r: Json)
    ensures
        jv(r) == jv_int(i),
{
    if i >= 0 {
        Json::Number(JsonNumber::PosInt(i as u64))
    } else {
        Json::Number(JsonNumber::NegInt(i))
    }
}

/// Whether a value is an object.
pub fn is_object(j: &Json) -> (r: bool)
    ensures
        r == (jv(*j) is Object),
{
    match j {
        Json::Object(_) => true,
        _ => false,
    }
}

/// The array held by member `key`, where there is one.
pub open spec fn arr_of(v: JsonV, key: Seq<char>) -> Option<Seq<JsonV>> {
    match jv_get(v, key) {
        Some(x) => jv_as_array(x),
        None => None,
    }
}

/// The array held by member `key`, where there is one.
pub fn get_array<'a>(j: &'a Json, key: &str) -> (r: Option<&'a Vec<Json>>)
    ensures
        match r {
            Some(a) => arr_of(jv(*j), key@) == Some(items_view(a@)),
            None => arr_of(jv(*j), key@) is None,
        },
{
    match get(j, key) {
        Some(x) => as_array(x),
        None => None,
    }
}

/// A copy of the items of an array.
pub fn clone_items(a: &Vec<Json>) -> (r: Vec<Json>)
    ensures
        items_view(r@) == items_view(a@),
{
    let mut out: Vec<Json> = Vec::new();
    let mut i: usize = 0;
    while i < a.len()
        invariant
            i <= a@.len(),
            out@.len() == i,
            forall|k: int| 0 <= k < i ==> jv(#[trigger] out@[k]) == jv(a@[k]),
        decreases a@.len() - i,
    {
        out.push(clone_json(&a[i]));
        i = i + 1;
    }
    proof {
        lemma_items(out@, out@.len());
        lemma_items(a@, a@.len());
        assert(items_view(out@) =~= items_view(a@));
    }
    out
}

/// No two members of an object share a name (as `serde_json` objects
/// hold them); other values trivially.
pub open spec fn keys_distinct(v: JsonV) -> bool {
    match v {
        JsonV::Object(f) => forall|i: int, j: int|
            0 <= i < j < f.len() ==> (#[trigger] f[i]).0 != (#[trigger] f[j]).0,
        _ => true,
    }
}

/// After `v[key] = x`, `v[key]` is `x`.
pub proof fn lemma_get_set_same(v: JsonV, key: Seq<char>, x: JsonV)
    requires
        settable(v),
    ensures
        jv_get(jv_set(v, key, x), key) == Some(x),
{
    match v {
        JsonV::Object(f) => {
            lemma_fields_index(f, key);
            match fields_index(f, key) {
                Some(i) => {
                    let g = f.update(i, (key, x));
                    lemma_fields_index(g, key);
                    assert(g[i].0 == key);
                    assert forall|j: int| 0 <= j < i implies (#[trigger] g[j]).0 != key by {
                        assert(g[j] == f[j]);
                    }
                    lemma_first_index(g, key, i);
                },
                None => {
                    let g = f.push((key, x));
                    lemma_fields_index(g, key);
                    assert forall|j: int| 0 <= j < f.len() implies (#[trigger] g[j]).0 != key by {
                        assert(g[j] == f[j]);
                    }
                    lemma_first_index(g, key, f.len() as int);
                },
            }
        },
        JsonV::Null => {
            let g = seq![(key, x)];
            lemma_first_index(g, key, 0);
        },
        _ => {},
    }
}

/// The first member named `key` is at `i` when `f[i]` has that name and
/// no member before it does.
pub proof fn lemma_first_index(f: Seq<(Seq<char>, JsonV)>, key: Seq<char>, i: int)
    requires
        0 <= i < f.len(),
        f[i].0 == key,
        forall|j: int| 0 <= j < i ==> (#[trigger] f[j]).0 != key,
    ensures
        fields_index(f, key) == Some(i),
{
    lemma_fields_index(f, key);
    match fields_index(f, key) {
        Some(k) => {
            if k < i {
                assert(f[k].0 != key);
            }
            if k > i {
                assert(f[i].0 != key);
            }
        },
        None => {
            assert(f[i].0 != key);
        },
    }
}

/// `v[key] = x` leaves the other members as they were.
pub proof fn lemma_get_set_other(v: JsonV, key: Seq<char>, x: JsonV, other: Seq<char>)
    requires
        settable(v),
        other != key,
    ensures
        jv_get(jv_set(v, key, x), other) == jv_get(v, other),
{
    match v {
        JsonV::Object(f) => {
            lemma_fields_index(f, key);
            lemma_fields_index(f, other);
            match fields_index(f, key) {
                Some(i) => {
                    let g = f.update(i, (key, x));
                    lemma_same_names_elsewhere(f, g, other);
                },
                None => {
                    let g = f.push((key, x));
                    lemma_fields_index(g, other);
                    match fields_index(f, other) {
                        Some(k) => {
                            assert forall|j: int| 0 <= j < k implies (#[trigger] g[j]).0 != other by {
                                assert(g[j] == f[j]);
                            }
                            assert(g[k] == f[k]);
                            lemma_first_index(g, other, k);
                        },
                        None => {
                            match fields_index(g, other) {
                                Some(k) => {
                                    if k < f.len() {
                                        assert(g[k] == f[k]);
                                    }
                                },
                                None => {},
                            }
                        },
                    }
                },
            }
        },
        JsonV::Null => {
            let g = seq![(key, x)];
            lemma_fields_index(g, other);
            assert(g[0].0 != other);
            assert(fields_index(g.drop_last(), other) is None);
        },
        _ => {},
    }
}

/// Two member lists of the same length that agree wherever a member is
/// named `other` (by name and value) find the same member `other`.
pub proof fn lemma_same_names_elsewhere(f: Seq<(Seq<char>, JsonV)>, g: Seq<(Seq<char>, JsonV)>, other: Seq<char>)
    requires
        f.len() == g.len(),
        forall|j: int| 0 <= j < f.len() ==> ((#[trigger] f[j]).0 == other || g[j].0 == other) ==> f[j] == g[j],
    ensures
        match fields_index(f, other) {
            Some(k) => fields_index(g, other) == Some(k) && g[k] == f[k],
            None => fields_index(g, other) is None,
        },
{
    lemma_fields_index(f, other);
    lemma_fields_index(g, other);
    match fields_index(f, other) {
        Some(k) => {
            assert(f[k] == g[k]);
            assert forall|j: int| 0 <= j < k implies (#[trigger] g[j]).0 != other by {
                if g[j].0 == other {
                    assert(f[j] == g[j]);
                }
            }
            lemma_first_index(g, other, k);
        },
        None => {
            match fields_index(g, other) {
                Some(k) => {
                    assert(f[k] == g[k]);
                },
                None => {},
            }
        },
    }
}

/// `v[key] = x` keeps the member names distinct.
pub proof fn lemma_set_keeps_distinct(v: JsonV, key: Seq<char>, x: JsonV)
    requires
        settable(v),
        keys_distinct(v),
    ensures
        keys_distinct(jv_set(v, key, x)),
{
    match v {
        JsonV::Object(f) => {
            lemma_fields_index(f, key);
            match fields_index(f, key) {
                Some(i) => {
                    let g = f.update(i, (key, x));
                    assert forall|a: int, b: int| 0 <= a < b < g.len() implies (#[trigger] g[a]).0 != (
                    #[trigger] g[b]).0 by {
                        assert(f[a].0 != f[b].0);
                    }
                },
                None => {
                    let g = f.push((key, x));
                    assert forall|a: int, b: int| 0 <= a < b < g.len() implies (#[trigger] g[a]).0 != (
                    #[trigger] g[b]).0 by {
                        if b == f.len() {
                            assert(g[a] == f[a]);
                        } else {
                            assert(f[a].0 != f[b].0);
                        }
                    }
                },
            }
        },
        _ => {},
    }
}

/// Removing member `key` from an object with distinct names leaves no
/// member of that name.
pub proof fn lemma_get_remove_same(v: JsonV, key: Seq<char>)
    requires
        keys_distinct(v),
        v is Object,
    ensures
        jv_get(jv_remove(v, key), key) is None,
{
    let f = v->Object_0;
    lemma_fields_index(f, key);
    let g = match fields_index(f, key) {
        Some(i) => f.remove(i),
        None => f,
    };
    lemma_fields_index(g, key);
    match fields_index(f, key) {
        Some(i) => {
            assert forall|j: int| 0 <= j < g.len() implies (#[trigger] g[j]).0 != key by {
                if j < i {
                    assert(g[j] == f[j]);
                } else {
                    assert(g[j] == f[j + 1]);
                    assert(f[i].0 != f[j + 1].0);
                }
            }
        },
        None => {},
    }
}

/// Removing member `key` leaves the other members as they were.
pub proof fn lemma_get_remove_other(v: JsonV, key: Seq<char>, other: Seq<char>)
    requires
        other != key,
    ensures
        jv_get(jv_remove(v, key), other) == jv_get(v, other),
{
    match v {
        JsonV::Object(f) => {
            lemma_fields_index(f, key);
            lemma_fields_index(f, other);
            match fields_index(f, key) {
                Some(i) => {
                    let g = f.remove(i);
                    lemma_fields_index(g, other);
                    assert(f[i].0 != other);
                    match fields_index(f, other) {
                        Some(k) => {
                            if k < i {
                                assert forall|j: int| 0 <= j < k implies (#[trigger] g[j]).0 != other by {
                                    assert(g[j] == f[j]);
                                }
                                assert(g[k] == f[k]);
                                lemma_first_index(g, other, k);
                            } else {
                                assert forall|j: int| 0 <= j < k - 1 implies (#[trigger] g[j]).0 != other by {
                                    if j < i {
                                        assert(g[j] == f[j]);
                                    } else {
                                        assert(g[j] == f[j + 1]);
                                    }
                                }
                                assert(g[k - 1] == f[k]);
                                lemma_first_index(g, other, k - 1);
                            }
                        },
                        None => {
                            match fields_index(g, other) {
                                Some(k) => {
                                    if k < i {
                                        assert(g[k] == f[k]);
                                    } else {
                                        assert(g[k] == f[k + 1]);
                                    }
                                },
                                None => {},
                            }
                        },
                    }
                },
                None => {},
            }
        },
        _ => {},
    }
}

} // verus!
