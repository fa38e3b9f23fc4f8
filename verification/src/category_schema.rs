//! How a category's schema grows from the data saved into it. A category's
//! shape is not declared ahead of time: each saved data object is merged
//! into a representative example (`shape`), and every dotted path present in
//! it bumps a counter (`field_freq`).
//!
//! JSON values reach this module as [`Json`], a plain tree of the library's
//! own; integers that fit an `i64` are held as such, other numbers as their
//! JSON text. Object fields are a list of (key, value) pairs whose keys are
//! distinct; their order carries no meaning, and new fields are appended.
use vstd::prelude::*;
use crate::text::{char_seqs, chars_of, string_from_chars};

verus! {

/// A JSON value.
#[derive(Debug)]
pub enum Json {
    Null,
    Bool(bool),
    /// A number that fits an `i64`.
    Int(i64),
    /// Any other number, as its JSON text.
    Number(String),
    Text(String),
    Array(Vec<Json>),
    Object(Vec<(String, Json)>),
}

/// A JSON value as plain mathematical values.
pub enum JsonV {
    Null,
    Bool(bool),
    Int(i64),
    Number(Seq<char>),
    Text(Seq<char>),
    Array(Seq<JsonV>),
    Object(Seq<(Seq<char>, JsonV)>),
}

/// The plain value of a JSON value.
pub open spec fn jv(j: Json) -> JsonV
    decreases j, 1nat,
{
    match j {
        Json::Null => JsonV::Null,
        Json::Bool(b) => JsonV::Bool(b),
        Json::Int(n) => JsonV::Int(n),
        Json::Number(t) => JsonV::Number(t@),
        Json::Text(t) => JsonV::Text(t@),
        Json::Array(a) => JsonV::Array(jvs(a@)),
        Json::Object(fs) => JsonV::Object(fvs(fs@)),
    }
}

/// The plain values of a sequence of JSON values.
pub open spec fn jvs(s: Seq<Json>) -> Seq<JsonV>
    decreases s, 0nat,
{
    if s.len() == 0 {
        seq![]
    } else {
        jvs(s.subrange(0, s.len() - 1)).push(jv(s[s.len() - 1]))
    }
}

/// The plain values of a sequence of object fields.
pub open spec fn fvs(s: Seq<(String, Json)>) -> Seq<(Seq<char>, JsonV)>
    decreases s, 0nat,
{
    if s.len() == 0 {
        seq![]
    } else {
        fvs(s.subrange(0, s.len() - 1)).push((s[s.len() - 1].0@, jv(s[s.len() - 1].1)))
    }
}

proof fn lemma_jvs_index(s: Seq<Json>)
    ensures
        jvs(s).len() == s.len(),
        forall|k: int| 0 <= k < s.len() ==> #[trigger] jvs(s)[k] == jv(s[k]),
    decreases s.len(),
{
    if s.len() > 0 {
        let p = s.subrange(0, s.len() - 1);
        lemma_jvs_index(p);
        assert forall|k: int| 0 <= k < s.len() implies #[trigger] jvs(s)[k] == jv(s[k]) by {
            if k < s.len() - 1 {
                assert(p[k] == s[k]);
            }
        }
    }
}

proof fn lemma_fvs_index(s: Seq<(String, Json)>)
    ensures
        fvs(s).len() == s.len(),
        forall|k: int| 0 <= k < s.len() ==> #[trigger] fvs(s)[k] == (s[k].0@, jv(s[k].1)),
    decreases s.len(),
{
    if s.len() > 0 {
        let p = s.subrange(0, s.len() - 1);
        lemma_fvs_index(p);
        assert forall|k: int| 0 <= k < s.len() implies #[trigger] fvs(s)[k] == (s[k].0@, jv(s[k].1)) by {
            if k < s.len() - 1 {
                assert(p[k] == s[k]);
            }
        }
    }
}

// ---------------------------------------------------------------------------
// The representative shape
// ---------------------------------------------------------------------------

/// The position of the first field named `k`.
pub open spec fn field_index(fs: Seq<(Seq<char>, JsonV)>, k: Seq<char>) -> Option<int>
    decreases fs.len(),
{
    if fs.len() == 0 {
        None
    } else {
        match field_index(fs.subrange(0, fs.len() - 1), k) {
            Some(i) => Some(i),
            None => if fs[fs.len() - 1].0 == k {
                Some(fs.len() - 1)
            } else {
                None
            },
        }
    }
}

/// `incoming` merged into `target`: objects take the union of their fields,
/// merging the values of shared ones; arrays merge every incoming element
/// into their first element; a null takes the incoming value; any other
/// value already present is kept as the sample.
pub open spec fn merge(target: JsonV, incoming: JsonV) -> JsonV
    decreases incoming, 1nat,
{
    match (target, incoming) {
        (JsonV::Object(tf), JsonV::Object(inc)) => JsonV::Object(merge_fields(tf, inc)),
        (JsonV::Array(ta), JsonV::Array(ia)) => {
            let first = if ta.len() == 0 {
                JsonV::Null
            } else {
                ta[0]
            };
            let rest = if ta.len() == 0 {
                seq![]
            } else {
                ta.subrange(1, ta.len() as int)
            };
            JsonV::Array(seq![merge_items(first, ia)] + rest)
        },
        (JsonV::Null, _) => incoming,
        _ => target,
    }
}

/// Every item merged in turn into `acc`.
pub open spec fn merge_items(acc: JsonV, items: Seq<JsonV>) -> JsonV
    decreases items, 0nat,
{
    if items.len() == 0 {
        acc
    } else {
        merge(merge_items(acc, items.subrange(0, items.len() - 1)), items[items.len() - 1])
    }
}

/// Every incoming field merged in turn into the fields `fs`.
pub open spec fn merge_fields(fs: Seq<(Seq<char>, JsonV)>, inc: Seq<(Seq<char>, JsonV)>) -> Seq<
    (Seq<char>, JsonV),
>
    decreases inc, 0nat,
{
    if inc.len() == 0 {
        fs
    } else {
        let before = merge_fields(fs, inc.subrange(0, inc.len() - 1));
        let k = inc[inc.len() - 1].0;
        let v = inc[inc.len() - 1].1;
        match field_index(before, k) {
            Some(i) => before.update(i, (k, merge(before[i].1, v))),
            None => before.push((k, merge(JsonV::Null, v))),
        }
    }
}

// ---------------------------------------------------------------------------
// The field paths
// ---------------------------------------------------------------------------

/// The dotted path of field `k` under `prefix`.
pub open spec fn child_path(prefix: Seq<char>, k: Seq<char>) -> Seq<char> {
    if prefix.len() == 0 {
        k
    } else {
        prefix + seq!['.'] + k
    }
}

/// The dotted paths of every leaf of `v` under `prefix`, array positions
/// collapsed (so every element's `name` counts as `exercises.name`).
pub open spec fn paths(v: JsonV, prefix: Seq<char>) -> Seq<Seq<char>>
    decreases v, 1nat,
{
    match v {
        JsonV::Object(fs) => field_paths(fs, prefix),
        JsonV::Array(a) => item_paths(a, prefix),
        _ => if prefix.len() == 0 {
            seq![]
        } else {
            seq![prefix]
        },
    }
}

pub open spec fn field_paths(fs: Seq<(Seq<char>, JsonV)>, prefix: Seq<char>) -> Seq<Seq<char>>
    decreases fs, 0nat,
{
    if fs.len() == 0 {
        seq![]
    } else {
        field_paths(fs.subrange(0, fs.len() - 1), prefix) + paths(
            fs[fs.len() - 1].1,
            child_path(prefix, fs[fs.len() - 1].0),
        )
    }
}

pub open spec fn item_paths(a: Seq<JsonV>, prefix: Seq<char>) -> Seq<Seq<char>>
    decreases a, 0nat,
{
    if a.len() == 0 {
        seq![]
    } else {
        item_paths(a.subrange(0, a.len() - 1), prefix) + paths(a[a.len() - 1], prefix)
    }
}

// ---------------------------------------------------------------------------
// Executable merging
// ---------------------------------------------------------------------------

proof fn lemma_jvs_ext(a: Seq<Json>, b: Seq<Json>)
    requires
        a.len() == b.len(),
        forall|k: int| 0 <= k < a.len() ==> jv(#[trigger] a[k]) == jv(b[k]),
    ensures
        jvs(a) == jvs(b),
{
    lemma_jvs_index(a);
    lemma_jvs_index(b);
    assert(jvs(a) =~= jvs(b));
}

proof fn lemma_fvs_ext(a: Seq<(String, Json)>, b: Seq<(String, Json)>)
    requires
        a.len() == b.len(),
        forall|k: int| 0 <= k < a.len() ==> (#[trigger] a[k]).0@ == b[k].0@ && jv(a[k].1) == jv(b[k].1),
    ensures
        fvs(a) == fvs(b),
{
    lemma_fvs_index(a);
    lemma_fvs_index(b);
    assert(fvs(a) =~= fvs(b));
}

/// A copy of a JSON value.
pub fn json_clone(j: &Json) -> (r: Json)
    ensures
        jv(r) == jv(*j),
    decreases j,
{
    match j {
        Json::Null => Json::Null,
        Json::Bool(b) => Json::Bool(*b),
        Json::Int(n) => Json::Int(*n),
        Json::Number(t) => Json::Number(t.clone()),
        Json::Text(t) => Json::Text(t.clone()),
        Json::Array(a) => {
            let mut out: Vec<Json> = Vec::new();
            let mut k: usize = 0;
            while k < a.len()
                invariant
                    *j == Json::Array(*a),
                    k <= a@.len(),
                    out@.len() == k,
                    forall|q: int| 0 <= q < k ==> jv(#[trigger] out@[q]) == jv(a@[q]),
                decreases a@.len() - k,
            {
                proof {
                    assert(decreases_to!(*j => (*j)->Array_0));
                    assert(decreases_to!(*a => a@));
                    assert(decreases_to!(a@ => a@[k as int]));
                }
                let c = json_clone(&a[k]);
                out.push(c);
                k = k + 1;
            }
            proof {
                lemma_jvs_ext(out@, a@);
            }
            Json::Array(out)
        },
        Json::Object(fs) => {
            let mut out: Vec<(String, Json)> = Vec::new();
            let mut k: usize = 0;
            while k < fs.len()
                invariant
                    *j == Json::Object(*fs),
                    k <= fs@.len(),
                    out@.len() == k,
                    forall|q: int|
                        0 <= q < k ==> (#[trigger] out@[q]).0@ == fs@[q].0@ && jv(out@[q].1) == jv(
                            fs@[q].1,
                        ),
                decreases fs@.len() - k,
            {
                proof {
                    assert(decreases_to!(*j => (*j)->Object_0));
                    assert(decreases_to!(*fs => fs@));
                    assert(decreases_to!(fs@ => fs@[k as int]));
                    assert(decreases_to!(fs@[k as int] => fs@[k as int].1));
                }
                let c = json_clone(&fs[k].1);
                out.push((fs[k].0.clone(), c));
                k = k + 1;
            }
            proof {
                lemma_fvs_ext(out@, fs@);
            }
            Json::Object(out)
        },
    }
}

proof fn lemma_field_index_prefix(fs: Seq<(Seq<char>, JsonV)>, k: Seq<char>, n: int)
    requires
        0 <= n <= fs.len(),
        field_index(fs.subrange(0, n), k) is Some,
    ensures
        field_index(fs, k) == field_index(fs.subrange(0, n), k),
    decreases fs.len() - n,
{
    if n < fs.len() {
        assert(fs.subrange(0, n + 1).subrange(0, n) =~= fs.subrange(0, n));
        lemma_field_index_prefix(fs, k, n + 1);
    } else {
        assert(fs.subrange(0, n) =~= fs);
    }
}

proof fn lemma_field_index_bound(fs: Seq<(Seq<char>, JsonV)>, k: Seq<char>)
    ensures
        field_index(fs, k) matches Some(i) ==> 0 <= i < fs.len() && fs[i].0 == k,
    decreases fs.len(),
{
    if fs.len() > 0 {
        let p = fs.subrange(0, fs.len() - 1);
        lemma_field_index_bound(p, k);
        if field_index(p, k) is Some {
            assert(fs[field_index(p, k)->0] == p[field_index(p, k)->0]);
        }
    }
}

/// The position of the first field named `key`.
fn find_field(fs: &Vec<(String, Json)>, key: &String) -> (r: Option<usize>)
    ensures
        match field_index(fvs(fs@), key@) {
            Some(i) => r == Some(i as usize),
            None => r is None,
        },
{
    let ghost views = fvs(fs@);
    proof {
        lemma_fvs_index(fs@);
    }
    let mut p: usize = 0;
    while p < fs.len()
        invariant
            p <= fs@.len(),
            views == fvs(fs@),
            views.len() == fs@.len(),
            forall|q: int| 0 <= q < fs@.len() ==> #[trigger] views[q] == (fs@[q].0@, jv(fs@[q].1)),
            field_index(views.subrange(0, p as int), key@) is None,
        decreases fs@.len() - p,
    {
        assert(views.subrange(0, p + 1).subrange(0, p as int) =~= views.subrange(0, p as int));
        if fs[p].0 == *key {
            assert(views.subrange(0, p + 1)[p as int] == views[p as int]);
            proof {
                lemma_field_index_prefix(views, key@, p + 1);
            }
            return Some(p);
        }
        p = p + 1;
    }
    assert(views.subrange(0, fs@.len() as int) =~= views);
    None
}

/// `incoming` merged into `target`, as [`merge`] states.
pub fn merge_shape(target: Json, incoming: &Json) -> (r: Json)
    ensures
        jv(r) == merge(jv(target), jv(*incoming)),
    decreases incoming,
{
    match incoming {
        Json::Object(inc) => match target {
            Json::Object(fields) => {
                let mut fs = fields;
                let ghost start = fvs(fs@);
                let ghost iv = fvs(inc@);
                proof {
                    lemma_fvs_index(inc@);
                    assert(iv.subrange(0, 0) =~= Seq::<(Seq<char>, JsonV)>::empty());
                }
                let mut q: usize = 0;
                while q < inc.len()
                    invariant
                        *incoming == Json::Object(*inc),
                        q <= inc@.len(),
                        iv == fvs(inc@),
                        iv.len() == inc@.len(),
                        forall|x: int| 0 <= x < inc@.len() ==> #[trigger] iv[x] == (inc@[x].0@, jv(inc@[x].1)),
                        fvs(fs@) == merge_fields(start, iv.subrange(0, q as int)),
                    decreases inc@.len() - q,
                {
                    let ghost before = fvs(fs@);
                    assert(iv.subrange(0, q + 1).subrange(0, q as int) =~= iv.subrange(0, q as int));
                    assert(iv.subrange(0, q + 1)[q as int] == iv[q as int]);
                    let key = &inc[q].0;
                    let value = &inc[q].1;
                    proof {
                        assert(decreases_to!(*incoming => (*incoming)->Object_0));
                        assert(decreases_to!(*inc => inc@));
                        assert(decreases_to!(inc@ => inc@[q as int]));
                        assert(decreases_to!(inc@[q as int] => inc@[q as int].1));
                    }
                    proof {
                        lemma_fvs_index(fs@);
                        lemma_field_index_bound(before, key@);
                    }
                    let fs_len = fs.len();
                    match find_field(&fs, key) {
                        Some(p) => {
                            let ghost fs_old = fs@;
                            proof {
                                assert(before == fvs(fs_old));
                                assert(field_index(before, key@) is Some);
                                let i = field_index(before, key@)->0;
                                assert(0 <= i < before.len());
                                assert(before.len() == fs_old.len());
                                assert(fs_old.len() == fs_len);
                                assert(p == i as usize);
                                assert(i == p as int);
                                assert(field_index(before, key@) == Some(p as int));
                            }
                            let (k0, old) = fs.remove(p);
                            let m = merge_shape(old, value);
                            let ghost m_v = jv(m);
                            let ghost k0v = k0@;
                            fs.insert(p, (k0, m));
                            proof {
                                assert(k0v == fs_old[p as int].0@);
                                assert(field_index(before, key@) == Some(p as int));
                                assert(before[p as int].0 == key@);
                                assert(fs@[p as int].0@ == k0v);
                                lemma_fvs_index(fs@);
                                assert(before[p as int] == (fs_old[p as int].0@, jv(fs_old[p as int].1)));
                                assert(fs@.len() == fs_old.len());
                                assert forall|x: int| 0 <= x < fs@.len() implies #[trigger] fvs(fs@)[x]
                                    == before.update(p as int, (key@, m_v))[x] by {
                                    if x < p {
                                        assert(fs@[x] == fs_old[x]);
                                    } else if x > p {
                                        assert(fs@[x] == fs_old[x]);
                                    }
                                }
                                assert(fvs(fs@) =~= before.update(p as int, (key@, m_v)));
                            }
                        },
                        None => {
                            let m = merge_shape(Json::Null, value);
                            let ghost fs_before = fs@;
                            fs.push((key.clone(), m));
                            proof {
                                assert(fs@.subrange(0, fs@.len() - 1) =~= fs_before);
                            }
                        },
                    }
                    q = q + 1;
                }
                assert(iv.subrange(0, inc@.len() as int) =~= iv);
                Json::Object(fs)
            },
            Json::Null => json_clone(incoming),
            other => other,
        },
        Json::Array(ia) => match target {
            Json::Array(items) => {
                let mut ta = items;
                let ghost tv = jvs(ta@);
                proof {
                    lemma_jvs_index(ta@);
                    lemma_jvs_index(ia@);
                }
                let first = if ta.len() == 0 {
                    Json::Null
                } else {
                    ta.remove(0)
                };
                let ghost rest = ta@;
                let ghost first_v = jv(first);
                let ghost sv = jvs(ia@);
                assert(sv.subrange(0, 0) =~= Seq::<JsonV>::empty());
                let mut acc = first;
                let mut k: usize = 0;
                while k < ia.len()
                    invariant
                        *incoming == Json::Array(*ia),
                        k <= ia@.len(),
                        sv == jvs(ia@),
                        sv.len() == ia@.len(),
                        forall|x: int| 0 <= x < ia@.len() ==> #[trigger] sv[x] == jv(ia@[x]),
                        jv(acc) == merge_items(first_v, sv.subrange(0, k as int)),
                    decreases ia@.len() - k,
                {
                    assert(sv.subrange(0, k + 1).subrange(0, k as int) =~= sv.subrange(0, k as int));
                    assert(sv.subrange(0, k + 1)[k as int] == sv[k as int]);
                    proof {
                        assert(decreases_to!(*incoming => (*incoming)->Array_0));
                        assert(decreases_to!(*ia => ia@));
                        assert(decreases_to!(ia@ => ia@[k as int]));
                    }
                    acc = merge_shape(acc, &ia[k]);
                    k = k + 1;
                }
                assert(sv.subrange(0, ia@.len() as int) =~= sv);
                let ghost acc_v = jv(acc);
                ta.insert(0, acc);
                proof {
                    lemma_jvs_index(ta@);
                    lemma_jvs_index(rest);
                    if tv.len() == 0 {
                        assert(jvs(ta@) =~= seq![acc_v]);
                    } else {
                        assert(jvs(ta@) =~= seq![acc_v] + tv.subrange(1, tv.len() as int));
                    }
                }
                Json::Array(ta)
            },
            Json::Null => json_clone(incoming),
            other => other,
        },
        _ => match target {
            Json::Null => json_clone(incoming),
            other => other,
        },
    }
}

// ---------------------------------------------------------------------------
// Executable path collection
// ---------------------------------------------------------------------------

fn child_path_exec(prefix: &Vec<char>, key: &String) -> (r: Vec<char>)
    ensures
        r@ == child_path(prefix@, key@),
{
    let k = chars_of(key.as_str());
    if prefix.len() == 0 {
        k
    } else {
        let mut out = crate::text::copy_chars(prefix.as_slice());
        out.push('.');
        let mut tail = k;
        out.append(&mut tail);
        assert(out@ =~= prefix@ + seq!['.'] + key@);
        out
    }
}

/// Appends the dotted paths of every leaf of `v` under `prefix` to `out`.
fn collect_paths(v: &Json, prefix: &Vec<char>, out: &mut Vec<Vec<char>>)
    ensures
        char_seqs(final(out)@) == char_seqs(old(out)@) + paths(jv(*v), prefix@),
    decreases v,
{
    match v {
        Json::Object(fs) => {
            let ghost start = char_seqs(out@);
            let ghost fv = fvs(fs@);
            proof {
                lemma_fvs_index(fs@);
                assert(fv.subrange(0, 0) =~= Seq::<(Seq<char>, JsonV)>::empty());
                assert(start + field_paths(fv.subrange(0, 0), prefix@) =~= start);
            }
            let mut q: usize = 0;
            while q < fs.len()
                invariant
                    *v == Json::Object(*fs),
                    q <= fs@.len(),
                    fv == fvs(fs@),
                    fv.len() == fs@.len(),
                    forall|x: int| 0 <= x < fs@.len() ==> #[trigger] fv[x] == (fs@[x].0@, jv(fs@[x].1)),
                    char_seqs(out@) == start + field_paths(fv.subrange(0, q as int), prefix@),
                decreases fs@.len() - q,
            {
                assert(fv.subrange(0, q + 1).subrange(0, q as int) =~= fv.subrange(0, q as int));
                assert(fv.subrange(0, q + 1)[q as int] == fv[q as int]);
                let p = child_path_exec(prefix, &fs[q].0);
                proof {
                    assert(decreases_to!(*v => (*v)->Object_0));
                    assert(decreases_to!(*fs => fs@));
                    assert(decreases_to!(fs@ => fs@[q as int]));
                    assert(decreases_to!(fs@[q as int] => fs@[q as int].1));
                }
                collect_paths(&fs[q].1, &p, out);
                q = q + 1;
            }
            assert(fv.subrange(0, fs@.len() as int) =~= fv);
        },
        Json::Array(a) => {
            let ghost start = char_seqs(out@);
            let ghost av = jvs(a@);
            proof {
                lemma_jvs_index(a@);
                assert(av.subrange(0, 0) =~= Seq::<JsonV>::empty());
                assert(start + item_paths(av.subrange(0, 0), prefix@) =~= start);
            }
            let mut k: usize = 0;
            while k < a.len()
                invariant
                    *v == Json::Array(*a),
                    k <= a@.len(),
                    av == jvs(a@),
                    av.len() == a@.len(),
                    forall|x: int| 0 <= x < a@.len() ==> #[trigger] av[x] == jv(a@[x]),
                    char_seqs(out@) == start + item_paths(av.subrange(0, k as int), prefix@),
                decreases a@.len() - k,
            {
                assert(av.subrange(0, k + 1).subrange(0, k as int) =~= av.subrange(0, k as int));
                assert(av.subrange(0, k + 1)[k as int] == av[k as int]);
                proof {
                    assert(decreases_to!(*v => (*v)->Array_0));
                    assert(decreases_to!(*a => a@));
                    assert(decreases_to!(a@ => a@[k as int]));
                }
                collect_paths(&a[k], prefix, out);
                k = k + 1;
            }
            assert(av.subrange(0, a@.len() as int) =~= av);
        },
        _ => {
            if prefix.len() > 0 {
                let ghost before = char_seqs(out@);
                out.push(crate::text::copy_chars(prefix.as_slice()));
                assert(char_seqs(out@) =~= before + seq![prefix@]);
            } else {
                assert(char_seqs(out@) =~= char_seqs(out@) + Seq::<Seq<char>>::empty());
            }
        },
    }
}

// ---------------------------------------------------------------------------
// The schema
// ---------------------------------------------------------------------------

/// The fields `fs` with field `k` set to `v`: in place where `k` is present,
/// appended otherwise.
pub open spec fn put(fs: Seq<(Seq<char>, JsonV)>, k: Seq<char>, v: JsonV) -> Seq<(Seq<char>, JsonV)> {
    match field_index(fs, k) {
        Some(i) => fs.update(i, (k, v)),
        None => fs.push((k, v)),
    }
}

/// A counter after one more occurrence: a missing or non-integer count
/// starts over at 1, and the largest count wraps as `i64` addition does.
pub open spec fn bumped(count: JsonV) -> i64 {
    match count {
        JsonV::Int(c) => if c == i64::MAX {
            i64::MIN
        } else {
            (c + 1) as i64
        },
        _ => 1,
    }
}

/// The counters `freq` after one more occurrence of each path, in turn.
pub open spec fn bump_all(freq: Seq<(Seq<char>, JsonV)>, ps: Seq<Seq<char>>) -> Seq<
    (Seq<char>, JsonV),
>
    decreases ps.len(),
{
    if ps.len() == 0 {
        freq
    } else {
        let before = bump_all(freq, ps.drop_last());
        let p = ps.last();
        match field_index(before, p) {
            Some(i) => before.update(i, (p, JsonV::Int(bumped(before[i].1)))),
            None => before.push((p, JsonV::Int(1))),
        }
    }
}

/// The schema a category starts with.
pub open spec fn initial_schema() -> Seq<(Seq<char>, JsonV)> {
    seq![("shape"@, JsonV::Object(seq![])), ("field_freq"@, JsonV::Object(seq![]))]
}

/// The schema fields `fs` grown by one saved data object: its shape merged
/// into `shape` (an empty object where there is none), and each of its leaf
/// paths counted once more in `field_freq` (which starts empty where it is
/// missing or not an object).
pub open spec fn evolve(fs: Seq<(Seq<char>, JsonV)>, data: JsonV) -> Seq<(Seq<char>, JsonV)> {
    let shape0 = match field_index(fs, "shape"@) {
        Some(i) => fs[i].1,
        None => JsonV::Object(seq![]),
    };
    let fs1 = put(fs, "shape"@, merge(shape0, data));
    let freq0 = match field_index(fs1, "field_freq"@) {
        Some(i) => match fs1[i].1 {
            JsonV::Object(f) => f,
            _ => seq![],
        },
        None => seq![],
    };
    put(fs1, "field_freq"@, JsonV::Object(bump_all(freq0, paths(data, seq![]))))
}

/// Replaces field `i` of `fs`.
fn replace_field(fs: &mut Vec<(String, Json)>, i: usize, key: String, value: Json)
    requires
        i < old(fs)@.len(),
    ensures
        fvs(final(fs)@) == fvs(old(fs)@).update(i as int, (key@, jv(value))),
{
    let ghost before = fs@;
    let ghost kv = key@;
    let ghost vv = jv(value);
    fs.set(i, (key, value));
    proof {
        lemma_fvs_index(fs@);
        lemma_fvs_index(before);
        assert forall|x: int| 0 <= x < fs@.len() implies #[trigger] fvs(fs@)[x] == fvs(before).update(
            i as int,
            (kv, vv),
        )[x] by {
            if x != i {
                assert(fs@[x] == before[x]);
            }
        }
        assert(fvs(fs@) =~= fvs(before).update(i as int, (kv, vv)));
    }
}

/// Appends a field to `fs`.
fn push_field(fs: &mut Vec<(String, Json)>, key: String, value: Json)
    ensures
        fvs(final(fs)@) == fvs(old(fs)@).push((key@, jv(value))),
{
    let ghost before = fs@;
    let ghost kv = key@;
    let ghost vv = jv(value);
    fs.push((key, value));
    assert(fs@.subrange(0, fs@.len() - 1) =~= before);
}

/// The position of the first field named `key`.
fn find_field_in(fs: &Vec<(String, Json)>, key: &String) -> (r: Option<usize>)
    ensures
        r is None <==> field_index(fvs(fs@), key@) is None,
        r matches Some(j) ==> j < fs@.len() && field_index(fvs(fs@), key@) == Some(j as int)
            && fvs(fs@)[j as int].0 == key@,
{
    proof {
        lemma_field_index_bound(fvs(fs@), key@);
        lemma_fvs_index(fs@);
    }
    let n = fs.len();
    let r = find_field(fs, key);
    proof {
        if field_index(fvs(fs@), key@) is Some {
            let i = field_index(fvs(fs@), key@)->0;
            assert(i < n);
            assert(r == Some(i as usize));
        }
    }
    r
}

/// Counts each path once more in `freq`.
fn bump_paths(freq: &mut Vec<(String, Json)>, ps: &Vec<Vec<char>>)
    ensures
        fvs(final(freq)@) == bump_all(fvs(old(freq)@), char_seqs(ps@)),
{
    let ghost start = fvs(freq@);
    let ghost pv = char_seqs(ps@);
    assert(pv.take(0) =~= Seq::<Seq<char>>::empty());
    let mut q: usize = 0;
    while q < ps.len()
        invariant
            q <= ps@.len(),
            pv == char_seqs(ps@),
            fvs(freq@) == bump_all(start, pv.take(q as int)),
        decreases ps@.len() - q,
    {
        assert(pv.take(q + 1).drop_last() =~= pv.take(q as int));
        assert(pv.take(q + 1).last() == ps@[q as int]@);
        let key = string_from_chars(ps[q].as_slice());
        let ghost before = fvs(freq@);
        proof {
            lemma_fvs_index(freq@);
        }
        let n = freq.len();
        match find_field_in(freq, &key) {
            Some(i) => {
                let count: i64 = match &freq[i].1 {
                    Json::Int(c) => if *c == i64::MAX {
                        i64::MIN
                    } else {
                        *c + 1
                    },
                    _ => 1,
                };
                assert(before[i as int].1 == jv(freq@[i as int].1));
                assert(count == bumped(before[i as int].1));
                let ghost kv = key@;
                replace_field(freq, i, key, Json::Int(count));
                assert(field_index(before, kv) == Some(i as int));
            },
            None => {
                push_field(freq, key, Json::Int(1));
            },
        }
        q = q + 1;
    }
    assert(pv.take(ps@.len() as int) =~= pv);
}

/// The schema a category starts with: an empty shape and no counts.
pub fn default_schema() -> (r: Json)
    ensures
        r matches Json::Object(fs) && fvs(fs@) == initial_schema(),
{
    let mut fs: Vec<(String, Json)> = Vec::new();
    assert(fvs(fs@) =~= Seq::<(Seq<char>, JsonV)>::empty());
    let empty_shape: Vec<(String, Json)> = Vec::new();
    let empty_freq: Vec<(String, Json)> = Vec::new();
    assert(fvs(empty_shape@) == Seq::<(Seq<char>, JsonV)>::empty());
    assert(fvs(empty_freq@) == Seq::<(Seq<char>, JsonV)>::empty());
    push_field(&mut fs, owned("shape"), Json::Object(empty_shape));
    push_field(&mut fs, owned("field_freq"), Json::Object(empty_freq));
    assert(fvs(fs@) =~= initial_schema());
    Json::Object(fs)
}

/// Grows a category's schema by one saved data object, as [`evolve`]
/// states. The schema is a JSON object.
pub fn evolve_schema(schema: Json, data: &Json) -> (r: Json)
    requires
        schema is Object,
    ensures
        r matches Json::Object(fs) && fvs(fs@) == evolve(fvs(schema->Object_0@), jv(*data)),
{
    let mut fs = match schema {
        Json::Object(fs) => fs,
        _ => Vec::new(),
    };
    let ghost f0 = fvs(fs@);
    proof {
        lemma_fvs_index(fs@);
    }
    let shape_key = owned("shape");
    match find_field_in(&fs, &shape_key) {
        Some(i) => {
            let shape0 = json_clone(&fs[i].1);
            let merged = merge_shape(shape0, data);
            replace_field(&mut fs, i, shape_key, merged);
        },
        None => {
            let empty: Vec<(String, Json)> = Vec::new();
            assert(fvs(empty@) =~= Seq::<(Seq<char>, JsonV)>::empty());
            let merged = merge_shape(Json::Object(empty), data);
            push_field(&mut fs, shape_key, merged);
        },
    }
    let ghost f1 = fvs(fs@);
    assert(f1 == put(f0, "shape"@, merge(
        match field_index(f0, "shape"@) {
            Some(i) => f0[i].1,
            None => JsonV::Object(seq![]),
        },
        jv(*data),
    )));
    let mut paths_found: Vec<Vec<char>> = Vec::new();
    assert(char_seqs(paths_found@) =~= Seq::<Seq<char>>::empty());
    let root: Vec<char> = Vec::new();
    assert(root@ =~= Seq::<char>::empty());
    collect_paths(data, &root, &mut paths_found);
    assert(char_seqs(paths_found@) =~= paths(jv(*data), seq![]));
    proof {
        lemma_fvs_index(fs@);
    }
    let freq_key = owned("field_freq");
    match find_field_in(&fs, &freq_key) {
        Some(i) => {
            let old = json_clone(&fs[i].1);
            let mut freq = match old {
                Json::Object(f) => f,
                _ => Vec::new(),
            };
            assert(fvs(freq@) == match f1[i as int].1 {
                JsonV::Object(f) => f,
                _ => seq![],
            });
            bump_paths(&mut freq, &paths_found);
            replace_field(&mut fs, i, freq_key, Json::Object(freq));
        },
        None => {
            let mut freq: Vec<(String, Json)> = Vec::new();
            assert(fvs(freq@) =~= Seq::<(Seq<char>, JsonV)>::empty());
            bump_paths(&mut freq, &paths_found);
            push_field(&mut fs, freq_key, Json::Object(freq));
        },
    }
    Json::Object(fs)
}

// ---------------------------------------------------------------------------
// What the schema promises
// ---------------------------------------------------------------------------

/// Whether some field of `fs` is named `k`.
pub open spec fn has_field(fs: Seq<(Seq<char>, JsonV)>, k: Seq<char>) -> bool {
    exists|i: int| 0 <= i < fs.len() && (#[trigger] fs[i]).0 == k
}

/// The number of times `p` occurs in `ps`.
pub open spec fn occurrences(ps: Seq<Seq<char>>, p: Seq<char>) -> nat
    decreases ps.len(),
{
    if ps.len() == 0 {
        0
    } else {
        occurrences(ps.drop_last(), p) + if ps.last() == p {
            1nat
        } else {
            0nat
        }
    }
}

proof fn lemma_field_index_first(fs: Seq<(Seq<char>, JsonV)>, k: Seq<char>)
    ensures
        match field_index(fs, k) {
            Some(i) => 0 <= i < fs.len() && fs[i].0 == k && forall|j: int|
                0 <= j < i ==> (#[trigger] fs[j]).0 != k,
            None => forall|j: int| 0 <= j < fs.len() ==> (#[trigger] fs[j]).0 != k,
        },
    decreases fs.len(),
{
    if fs.len() > 0 {
        let p = fs.subrange(0, fs.len() - 1);
        lemma_field_index_first(p, k);
        assert forall|j: int| 0 <= j < p.len() implies #[trigger] fs[j] == p[j] by {}
    }
}

/// Sequences with the same keys in the same places find each key at the
/// same place.
proof fn lemma_field_index_same_keys(a: Seq<(Seq<char>, JsonV)>, b: Seq<(Seq<char>, JsonV)>, k: Seq<char>)
    requires
        a.len() == b.len(),
        forall|j: int| 0 <= j < a.len() ==> (#[trigger] a[j]).0 == b[j].0,
    ensures
        field_index(a, k) == field_index(b, k),
{
    lemma_field_index_first(a, k);
    lemma_field_index_first(b, k);
    match field_index(a, k) {
        Some(i) => {
            assert(b[i].0 == k);
            match field_index(b, k) {
                Some(i2) => {
                    if i2 < i {
                        assert(a[i2].0 == k);
                    } else if i < i2 {
                        assert(b[i].0 != k);
                    }
                },
                None => {
                    assert(b[i].0 != k);
                },
            }
        },
        None => {
            if field_index(b, k) is Some {
                let i2 = field_index(b, k)->0;
                assert(a[i2].0 == k);
            }
        },
    }
}

proof fn lemma_has_field_index(fs: Seq<(Seq<char>, JsonV)>, k: Seq<char>)
    ensures
        has_field(fs, k) <==> field_index(fs, k) is Some,
{
    lemma_field_index_first(fs, k);
    if field_index(fs, k) is Some {
        let i = field_index(fs, k)->0;
        assert(fs[i].0 == k);
    }
}

/// Merging an object into an object keeps every field the target had and
/// gains every field the incoming object has: the shape is the union of
/// everything seen.
pub proof fn lemma_merge_unites_fields(
    target: Seq<(Seq<char>, JsonV)>,
    incoming: Seq<(Seq<char>, JsonV)>,
    k: Seq<char>,
)
    ensures
        (merge(JsonV::Object(target), JsonV::Object(incoming)) matches JsonV::Object(fs) && (
        has_field(fs, k) <==> has_field(target, k) || has_field(incoming, k))),
{
    lemma_merge_fields_keys(target, incoming, k);
}

proof fn lemma_merge_fields_keys(
    fs: Seq<(Seq<char>, JsonV)>,
    inc: Seq<(Seq<char>, JsonV)>,
    k: Seq<char>,
)
    ensures
        has_field(merge_fields(fs, inc), k) <==> has_field(fs, k) || has_field(inc, k),
    decreases inc.len(),
{
    if inc.len() > 0 {
        let prefix = inc.subrange(0, inc.len() - 1);
        lemma_merge_fields_keys(fs, prefix, k);
        let before = merge_fields(fs, prefix);
        let key = inc[inc.len() - 1].0;
        let after = merge_fields(fs, inc);
        lemma_field_index_first(before, key);
        assert(has_field(inc, k) <==> has_field(prefix, k) || key == k) by {
            if has_field(inc, k) {
                let i = choose|i: int| 0 <= i < inc.len() && (#[trigger] inc[i]).0 == k;
                if i < inc.len() - 1 {
                    assert(prefix[i] == inc[i]);
                }
            }
            if has_field(prefix, k) {
                let i = choose|i: int| 0 <= i < prefix.len() && (#[trigger] prefix[i]).0 == k;
                assert(inc[i] == prefix[i]);
            }
            if key == k {
                assert(inc[inc.len() - 1].0 == k);
            }
        }
        match field_index(before, key) {
            Some(i) => {
                assert forall|j: int| 0 <= j < after.len() implies (#[trigger] after[j]).0 == before[j].0 by {}
                if has_field(after, k) {
                    let j = choose|j: int| 0 <= j < after.len() && (#[trigger] after[j]).0 == k;
                    assert(before[j].0 == k);
                }
                if has_field(before, k) {
                    let j = choose|j: int| 0 <= j < before.len() && (#[trigger] before[j]).0 == k;
                    assert(after[j].0 == k);
                }
                if key == k {
                    assert(after[i].0 == k);
                }
            },
            None => {
                if has_field(after, k) {
                    let j = choose|j: int| 0 <= j < after.len() && (#[trigger] after[j]).0 == k;
                    if j < before.len() {
                        assert(before[j] == after[j]);
                    }
                }
                if has_field(before, k) {
                    let j = choose|j: int| 0 <= j < before.len() && (#[trigger] before[j]).0 == k;
                    assert(after[j] == before[j]);
                }
                if key == k {
                    assert(after[before.len() as int].0 == k);
                }
            },
        }
    }
}

/// Counted from no counts at all, every path's counter holds the number of
/// times the path occurs, and no other counter exists (short of a count
/// that an `i64` cannot hold).
pub proof fn lemma_counts_are_occurrences(ps: Seq<Seq<char>>, p: Seq<char>)
    requires
        ps.len() < i64::MAX,
    ensures
        field_index(bump_all(seq![], ps), p) is Some <==> occurrences(ps, p) > 0,
        field_index(bump_all(seq![], ps), p) matches Some(i) ==> bump_all(seq![], ps)[i].1
            == JsonV::Int(occurrences(ps, p) as i64),
    decreases ps.len(),
{
    if ps.len() > 0 {
        let prefix = ps.drop_last();
        lemma_counts_are_occurrences(prefix, p);
        lemma_occurrences_bound(prefix, p);
        let before = bump_all(seq![], prefix);
        let last = ps.last();
        let after = bump_all(seq![], ps);
        lemma_field_index_first(before, last);
        match field_index(before, last) {
            Some(i) => {
                assert(after == before.update(i, (last, JsonV::Int(bumped(before[i].1)))));
                lemma_field_index_same_keys(after, before, p);
                if last == p {
                    assert(field_index(before, p) == Some(i));
                    let c = occurrences(prefix, p);
                    assert(before[i].1 == JsonV::Int(c as i64));
                    assert(c < i64::MAX);
                    assert((c as i64) as int == c);
                    assert(bumped(before[i].1) == (c + 1) as i64);
                    assert(occurrences(ps, p) == c + 1);
                    assert(after[i].1 == JsonV::Int(occurrences(ps, p) as i64));
                } else {
                    assert(occurrences(ps, p) == occurrences(prefix, p));
                    if field_index(before, p) is Some {
                        let j = field_index(before, p)->0;
                        lemma_field_index_first(before, p);
                        assert(j != i);
                        assert(after[j] == before[j]);
                    }
                }
            },
            None => {
                assert(after == before.push((last, JsonV::Int(1))));
                assert(after.subrange(0, after.len() - 1) =~= before);
                if last == p {
                    assert(field_index(after, p) == Some(before.len() as int));
                    assert(occurrences(prefix, p) == 0);
                    assert(after[before.len() as int].1 == JsonV::Int(1));
                } else {
                    assert(occurrences(ps, p) == occurrences(prefix, p));
                    assert(field_index(after, p) == field_index(before, p));
                    if field_index(before, p) is Some {
                        let j = field_index(before, p)->0;
                        lemma_field_index_first(before, p);
                        assert(after[j] == before[j]);
                    }
                }
            },
        }
    }
}

proof fn lemma_occurrences_bound(ps: Seq<Seq<char>>, p: Seq<char>)
    ensures
        occurrences(ps, p) <= ps.len(),
    decreases ps.len(),
{
    if ps.len() > 0 {
        lemma_occurrences_bound(ps.drop_last(), p);
    }
}

fn owned(s: &str) -> (r: String)
    ensures
        r@ == s@,
{
    string_from_chars(&chars_of(s))
}

} // verus!
