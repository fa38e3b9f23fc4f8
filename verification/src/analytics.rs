//! Trend extraction over the free-form data that a category's entries hold.
//! A category's shape is not known ahead of time, so it is discovered: the
//! field that holds the repeated items (an array of objects, such as the
//! exercises of a workout), the field that names each item, and the numeric
//! metrics. The result is a long-format table that a chart can pivot.
//!
//! An entry's JSON data reaches this module already read into plain values:
//! each field of the data object with its value classed as text, a number
//! (kept as its JSON text, which is carried through unchanged) or anything
//! else, and each array-valued field with its elements' fields.
use vstd::prelude::*;
use crate::text::{char_seqs, chars_eq, chars_of, string_from_chars};

verus! {

// ---------------------------------------------------------------------------
// The order of text keys
// ---------------------------------------------------------------------------

/// Lexicographic order by code point, the order in which a `BTreeMap` keyed
/// by `String` walks its keys.
pub open spec fn text_lt(a: Seq<char>, b: Seq<char>) -> bool
    decreases a.len(),
{
    if a.len() == 0 {
        b.len() > 0
    } else if b.len() == 0 {
        false
    } else if a[0] != b[0] {
        a[0] < b[0]
    } else {
        text_lt(a.drop_first(), b.drop_first())
    }
}

pub proof fn lemma_text_lt_irreflexive(a: Seq<char>)
    ensures
        !text_lt(a, a),
    decreases a.len(),
{
    if a.len() > 0 {
        lemma_text_lt_irreflexive(a.drop_first());
    }
}

pub proof fn lemma_text_lt_transitive(a: Seq<char>, b: Seq<char>, c: Seq<char>)
    requires
        text_lt(a, b),
        text_lt(b, c),
    ensures
        text_lt(a, c),
    decreases a.len(),
{
    if a.len() > 0 && b.len() > 0 && c.len() > 0 && a[0] == b[0] && b[0] == c[0] {
        lemma_text_lt_transitive(a.drop_first(), b.drop_first(), c.drop_first());
    }
}

pub proof fn lemma_text_lt_total(a: Seq<char>, b: Seq<char>)
    requires
        a != b,
    ensures
        text_lt(a, b) || text_lt(b, a),
    decreases a.len(),
{
    if a.len() > 0 && b.len() > 0 && a[0] == b[0] {
        if a.drop_first() == b.drop_first() {
            assert(a =~= seq![a[0]] + a.drop_first());
            assert(b =~= seq![b[0]] + b.drop_first());
        }
        lemma_text_lt_total(a.drop_first(), b.drop_first());
    } else if a.len() == 0 && b.len() == 0 {
        assert(a =~= b);
    } else if a.len() > 0 && b.len() > 0 {
        assert(a[0] != b[0]);
    }
}

pub proof fn lemma_text_lt_asymmetric(a: Seq<char>, b: Seq<char>)
    requires
        text_lt(a, b),
    ensures
        !text_lt(b, a),
{
    if text_lt(b, a) {
        lemma_text_lt_transitive(a, b, a);
        lemma_text_lt_irreflexive(a);
    }
}

/// Whether `s` runs strictly upward in the order of text keys.
pub open spec fn strictly_sorted(s: Seq<Seq<char>>) -> bool {
    forall|i: int, j: int| 0 <= i < j < s.len() ==> text_lt(#[trigger] s[i], #[trigger] s[j])
}

proof fn lemma_text_lt_step(a: Seq<char>, b: Seq<char>, i: int)
    requires
        0 <= i < a.len(),
        i < b.len(),
        a[i] == b[i],
    ensures
        text_lt(a.skip(i), b.skip(i)) == text_lt(a.skip(i + 1), b.skip(i + 1)),
{
    assert(a.skip(i).drop_first() =~= a.skip(i + 1));
    assert(b.skip(i).drop_first() =~= b.skip(i + 1));
}

/// Whether `a` comes before `b` in the order of text keys.
pub fn text_less(a: &[char], b: &[char]) -> (r: bool)
    ensures
        r == text_lt(a@, b@),
{
    let mut i: usize = 0;
    assert(a@.skip(0) =~= a@);
    assert(b@.skip(0) =~= b@);
    while i < a.len() && i < b.len()
        invariant
            i <= a@.len(),
            i <= b@.len(),
            text_lt(a@, b@) == text_lt(a@.skip(i as int), b@.skip(i as int)),
        decreases a@.len() - i,
    {
        if a[i] != b[i] {
            return a[i] < b[i];
        }
        proof {
            lemma_text_lt_step(a@, b@, i as int);
        }
        i = i + 1;
    }
    i == a.len() && i < b.len()
}

// ---------------------------------------------------------------------------
// The data an entry holds
// ---------------------------------------------------------------------------

/// A field's value as trend extraction reads it.
#[derive(Debug)]
pub enum Leaf {
    /// A JSON string.
    Text(String),
    /// A JSON number, as its JSON text.
    Number(String),
    /// Anything else: null, a boolean, an array or an object.
    Other,
}

/// One field of a JSON object.
#[derive(Debug)]
pub struct ItemField {
    pub key: String,
    pub value: Leaf,
}

/// An array-valued field of an entry's data, with each element's fields
/// where the element is an object.
#[derive(Debug)]
pub struct ArrayField {
    pub key: String,
    pub elements: Vec<Option<Vec<ItemField>>>,
}

/// One entry of a category: its date, and its data read as plain values.
/// Where the data is a JSON object, `fields` holds every field of it and
/// `arrays` the elements of those that hold arrays; otherwise `fields` is
/// `None` and `arrays` is empty.
#[derive(Debug)]
pub struct TrendEntry {
    pub date: String,
    pub fields: Option<Vec<ItemField>>,
    pub arrays: Vec<ArrayField>,
}

/// The value of the first field named `key`.
pub open spec fn field_get(item: Seq<ItemField>, key: Seq<char>) -> Option<Leaf>
    decreases item.len(),
{
    if item.len() == 0 {
        None
    } else {
        match field_get(item.drop_last(), key) {
            Some(v) => Some(v),
            None => if item.last().key@ == key {
                Some(item.last().value)
            } else {
                None
            },
        }
    }
}

/// The first array-valued field named `key`.
pub open spec fn array_get(arrays: Seq<ArrayField>, key: Seq<char>) -> Option<ArrayField>
    decreases arrays.len(),
{
    if arrays.len() == 0 {
        None
    } else {
        match array_get(arrays.drop_last(), key) {
            Some(a) => Some(a),
            None => if arrays.last().key@ == key {
                Some(arrays.last())
            } else {
                None
            },
        }
    }
}

/// The elements of an array that are objects, in order.
pub open spec fn objects_of(elements: Seq<Option<Vec<ItemField>>>) -> Seq<Seq<ItemField>>
    decreases elements.len(),
{
    if elements.len() == 0 {
        seq![]
    } else {
        let rest = objects_of(elements.drop_last());
        match elements.last() {
            Some(o) => rest.push(o@),
            None => rest,
        }
    }
}

/// The items of one entry: the objects of its items field where that field
/// holds an array, else the data object itself as a single item (a flat
/// category such as a meal), else none.
pub open spec fn items_of(e: TrendEntry, items_field: Option<Seq<char>>) -> Seq<Seq<ItemField>> {
    match e.fields {
        None => seq![],
        Some(fs) => match items_field {
            Some(k) => match array_get(e.arrays@, k) {
                Some(a) => objects_of(a.elements@),
                None => seq![fs@],
            },
            None => seq![fs@],
        },
    }
}

/// The items of every entry, entry by entry.
pub open spec fn all_items(es: Seq<TrendEntry>, items_field: Option<Seq<char>>) -> Seq<
    Seq<ItemField>,
>
    decreases es.len(),
{
    if es.len() == 0 {
        seq![]
    } else {
        all_items(es.drop_last(), items_field) + items_of(es.last(), items_field)
    }
}

/// The views of a sequence of item references.
pub open spec fn item_views(r: Seq<&Vec<ItemField>>) -> Seq<Seq<ItemField>> {
    Seq::new(r.len(), |i: int| r[i]@)
}

fn field_get_exec<'a>(item: &'a [ItemField], key: &[char]) -> (r: Option<&'a Leaf>)
    ensures
        match field_get(item@, key@) {
            Some(v) => r matches Some(l) && *l == v,
            None => r is None,
        },
{
    let mut i: usize = 0;
    while i < item.len()
        invariant
            i <= item@.len(),
            field_get(item@.take(i as int), key@) is None,
        decreases item@.len() - i,
    {
        assert(item@.take(i + 1).drop_last() =~= item@.take(i as int));
        let k = chars_of(item[i].key.as_str());
        if crate::text::chars_eq(&k, key) {
            proof {
                lemma_field_get_prefix(item@, key@, i + 1);
            }
            return Some(&item[i].value);
        }
        i = i + 1;
    }
    assert(item@.take(item@.len() as int) =~= item@);
    None
}

/// A match in a prefix is the match of the whole.
proof fn lemma_field_get_prefix(item: Seq<ItemField>, key: Seq<char>, n: int)
    requires
        0 <= n <= item.len(),
        field_get(item.take(n), key) is Some,
    ensures
        field_get(item, key) == field_get(item.take(n), key),
    decreases item.len() - n,
{
    if n < item.len() {
        assert(item.take(n + 1).drop_last() =~= item.take(n));
        lemma_field_get_prefix(item, key, n + 1);
    } else {
        assert(item.take(n) =~= item);
    }
}

fn array_get_exec<'a>(arrays: &'a [ArrayField], key: &[char]) -> (r: Option<&'a ArrayField>)
    ensures
        match array_get(arrays@, key@) {
            Some(v) => r matches Some(a) && *a == v,
            None => r is None,
        },
{
    let mut i: usize = 0;
    while i < arrays.len()
        invariant
            i <= arrays@.len(),
            array_get(arrays@.take(i as int), key@) is None,
        decreases arrays@.len() - i,
    {
        assert(arrays@.take(i + 1).drop_last() =~= arrays@.take(i as int));
        let k = chars_of(arrays[i].key.as_str());
        if crate::text::chars_eq(&k, key) {
            proof {
                lemma_array_get_prefix(arrays@, key@, i + 1);
            }
            return Some(&arrays[i]);
        }
        i = i + 1;
    }
    assert(arrays@.take(arrays@.len() as int) =~= arrays@);
    None
}

proof fn lemma_array_get_prefix(arrays: Seq<ArrayField>, key: Seq<char>, n: int)
    requires
        0 <= n <= arrays.len(),
        array_get(arrays.take(n), key) is Some,
    ensures
        array_get(arrays, key) == array_get(arrays.take(n), key),
    decreases arrays.len() - n,
{
    if n < arrays.len() {
        assert(arrays.take(n + 1).drop_last() =~= arrays.take(n));
        lemma_array_get_prefix(arrays, key, n + 1);
    } else {
        assert(arrays.take(n) =~= arrays);
    }
}

fn objects_exec<'a>(elements: &'a [Option<Vec<ItemField>>]) -> (r: Vec<&'a Vec<ItemField>>)
    ensures
        item_views(r@) == objects_of(elements@),
{
    let mut r: Vec<&'a Vec<ItemField>> = Vec::new();
    let mut i: usize = 0;
    while i < elements.len()
        invariant
            i <= elements@.len(),
            item_views(r@) == objects_of(elements@.take(i as int)),
        decreases elements@.len() - i,
    {
        assert(elements@.take(i + 1).drop_last() =~= elements@.take(i as int));
        match &elements[i] {
            Some(o) => {
                let ghost before = r@;
                r.push(o);
                assert(item_views(r@) =~= item_views(before).push(o@));
            },
            None => {},
        }
        i = i + 1;
    }
    assert(elements@.take(elements@.len() as int) =~= elements@);
    r
}

fn items_exec<'a>(e: &'a TrendEntry, items_field: &Option<Vec<char>>) -> (r: Vec<&'a Vec<ItemField>>)
    ensures
        item_views(r@) == items_of(*e, opt_view(*items_field)),
{
    match &e.fields {
        None => {
            let r: Vec<&'a Vec<ItemField>> = Vec::new();
            assert(item_views(r@) =~= seq![]);
            r
        },
        Some(fs) => {
            let mut whole: Vec<&'a Vec<ItemField>> = Vec::new();
            whole.push(fs);
            assert(item_views(whole@) =~= seq![fs@]);
            match items_field {
                Some(k) => match array_get_exec(e.arrays.as_slice(), k.as_slice()) {
                    Some(a) => objects_exec(a.elements.as_slice()),
                    None => whole,
                },
                None => whole,
            }
        },
    }
}

/// The view of an optional character vector.
pub open spec fn opt_view(o: Option<Vec<char>>) -> Option<Seq<char>> {
    match o {
        Some(v) => Some(v@),
        None => None,
    }
}

// ---------------------------------------------------------------------------
// The items field
// ---------------------------------------------------------------------------

/// Whether an entry's data holds, under `key`, an array with at least one
/// object among its elements.
pub open spec fn holds_objects(e: TrendEntry, key: Seq<char>) -> bool {
    &&& e.fields is Some
    &&& array_get(e.arrays@, key) matches Some(a) && exists|i: int|
        0 <= i < a.elements@.len() && (#[trigger] a.elements@[i]) is Some
}

/// The number of entries whose data holds objects under `key`.
pub open spec fn items_count(es: Seq<TrendEntry>, key: Seq<char>) -> nat
    decreases es.len(),
{
    if es.len() == 0 {
        0
    } else {
        items_count(es.drop_last(), key) + if holds_objects(es.last(), key) {
            1nat
        } else {
            0nat
        }
    }
}

proof fn lemma_array_get_found(arrays: Seq<ArrayField>, key: Seq<char>)
    requires
        array_get(arrays, key) is Some,
    ensures
        exists|i: int| 0 <= i < arrays.len() && (#[trigger] arrays[i]).key@ == key && arrays[i]
            == array_get(arrays, key)->0,
    decreases arrays.len(),
{
    if array_get(arrays.drop_last(), key) is Some {
        lemma_array_get_found(arrays.drop_last(), key);
        let i = choose|i: int|
            0 <= i < arrays.drop_last().len() && (#[trigger] arrays.drop_last()[i]).key@ == key
                && arrays.drop_last()[i] == array_get(arrays.drop_last(), key)->0;
        assert(arrays[i] == arrays.drop_last()[i]);
    } else {
        assert(arrays[arrays.len() - 1] == arrays.last());
    }
}

proof fn lemma_items_count_found(es: Seq<TrendEntry>, key: Seq<char>)
    requires
        items_count(es, key) > 0,
    ensures
        exists|j: int| 0 <= j < es.len() && holds_objects(#[trigger] es[j], key),
    decreases es.len(),
{
    if !holds_objects(es.last(), key) {
        lemma_items_count_found(es.drop_last(), key);
        let j = choose|j: int|
            0 <= j < es.drop_last().len() && holds_objects(#[trigger] es.drop_last()[j], key);
        assert(es[j] == es.drop_last()[j]);
    } else {
        assert(es[es.len() - 1] == es.last());
    }
}

proof fn lemma_items_count_bound(es: Seq<TrendEntry>, key: Seq<char>)
    ensures
        items_count(es, key) <= es.len(),
    decreases es.len(),
{
    if es.len() > 0 {
        lemma_items_count_bound(es.drop_last(), key);
    }
}

fn holds_objects_exec(e: &TrendEntry, key: &[char]) -> (r: bool)
    ensures
        r == holds_objects(*e, key@),
{
    if e.fields.is_none() {
        return false;
    }
    match array_get_exec(e.arrays.as_slice(), key) {
        None => false,
        Some(a) => {
            let mut i: usize = 0;
            while i < a.elements.len()
                invariant
                    i <= a.elements@.len(),
                    e.fields is Some,
                    array_get(e.arrays@, key@) == Some(*a),
                    forall|k: int| 0 <= k < i ==> (#[trigger] a.elements@[k]) is None,
                decreases a.elements@.len() - i,
            {
                if a.elements[i].is_some() {
                    assert(array_get(e.arrays@, key@)->0.elements@[i as int] is Some);
                    return true;
                }
                i = i + 1;
            }
            false
        },
    }
}

fn items_count_exec(es: &[TrendEntry], key: &[char]) -> (r: usize)
    ensures
        r == items_count(es@, key@),
{
    let mut n: usize = 0;
    let mut j: usize = 0;
    while j < es.len()
        invariant
            j <= es@.len(),
            n == items_count(es@.take(j as int), key@),
            n <= j,
        decreases es@.len() - j,
    {
        assert(es@.take(j + 1).drop_last() =~= es@.take(j as int));
        if holds_objects_exec(&es[j], key) {
            n = n + 1;
        }
        j = j + 1;
    }
    assert(es@.take(es@.len() as int) =~= es@);
    n
}

/// Whether `f` may be the items field of the entries: none where no entry
/// holds an array of objects under any key, else a key under which the most
/// entries do.
pub open spec fn items_field_ok(es: Seq<TrendEntry>, f: Option<Seq<char>>) -> bool {
    &&& (f is None <==> forall|k: Seq<char>| #[trigger] items_count(es, k) == 0)
    &&& (f matches Some(k) ==> items_count(es, k) > 0 && forall|k2: Seq<char>|
        #[trigger] items_count(es, k2) <= items_count(es, k))
}

/// The items field: the key under which the most entries hold an array of
/// objects (among equals, the first met), or none where no entry does.
pub fn detect_items_field(es: &[TrendEntry]) -> (r: Option<Vec<char>>)
    ensures
        items_field_ok(es@, opt_view(r)),
{
    let mut best: Option<(Vec<char>, usize)> = None;
    let mut j: usize = 0;
    while j < es.len()
        invariant
            j <= es@.len(),
            best matches Some((bk, bc)) ==> bc == items_count(es@, bk@) && bc > 0,
            forall|jj: int, ii: int|
                0 <= jj < j && 0 <= ii < es@[jj].arrays@.len() && holds_objects(
                    es@[jj],
                    #[trigger] es@[jj].arrays@[ii].key@,
                ) ==> (best matches Some((bk, bc)) && items_count(
                    es@,
                    es@[jj].arrays@[ii].key@,
                ) <= bc),
        decreases es@.len() - j,
    {
        let e = &es[j];
        let mut i: usize = 0;
        while i < e.arrays.len()
            invariant
                j < es@.len(),
                *e == es@[j as int],
                i <= e.arrays@.len(),
                best matches Some((bk, bc)) ==> bc == items_count(es@, bk@) && bc > 0,
                forall|jj: int, ii: int|
                    0 <= jj < j && 0 <= ii < es@[jj].arrays@.len() && holds_objects(
                        es@[jj],
                        #[trigger] es@[jj].arrays@[ii].key@,
                    ) ==> (best matches Some((bk, bc)) && items_count(
                        es@,
                        es@[jj].arrays@[ii].key@,
                    ) <= bc),
                forall|ii: int|
                    0 <= ii < i && holds_objects(*e, #[trigger] e.arrays@[ii].key@) ==> (
                    best matches Some((bk, bc)) && items_count(es@, e.arrays@[ii].key@) <= bc),
            decreases e.arrays@.len() - i,
        {
            let k = chars_of(e.arrays[i].key.as_str());
            if holds_objects_exec(e, &k) {
                let c = items_count_exec(es, &k);
                proof {
                    assert(es@[j as int] == *e);
                    if items_count(es@, k@) == 0 {
                        assert(items_count(es@.take(j + 1), k@) > 0) by {
                            lemma_items_count_prefix(es@, k@, j as int);
                        }
                        lemma_items_count_prefix_le(es@, k@, (j + 1) as int);
                    }
                }
                let replace = match &best {
                    None => true,
                    Some((_, bc)) => c > *bc,
                };
                if replace {
                    best = Some((k, c));
                }
            }
            i = i + 1;
        }
        assert forall|jj: int, ii: int|
            0 <= jj < j + 1 && 0 <= ii < es@[jj].arrays@.len() && holds_objects(
                es@[jj],
                #[trigger] es@[jj].arrays@[ii].key@,
            ) implies (best matches Some((bk, bc)) && items_count(es@, es@[jj].arrays@[ii].key@)
            <= bc) by {
            if jj == j {
                assert(es@[jj] == *e);
                assert(holds_objects(*e, e.arrays@[ii].key@));
            }
        }
        j = j + 1;
    }
    proof {
        assert forall|k2: Seq<char>| items_count(es@, k2) > 0 implies (best matches Some((bk, bc))
            && items_count(es@, k2) <= bc) by {
            lemma_items_count_found(es@, k2);
            let jj = choose|jj: int| 0 <= jj < es@.len() && holds_objects(#[trigger] es@[jj], k2);
            lemma_array_get_found(es@[jj].arrays@, k2);
            let ii = choose|ii: int|
                0 <= ii < es@[jj].arrays@.len() && (#[trigger] es@[jj].arrays@[ii]).key@ == k2
                    && es@[jj].arrays@[ii] == array_get(es@[jj].arrays@, k2)->0;
            assert(holds_objects(es@[jj], es@[jj].arrays@[ii].key@));
        }
    }
    match best {
        None => None,
        Some((k, _)) => Some(k),
    }
}

/// An entry `j` that holds objects under `key` makes the count of the first
/// `j + 1` entries positive.
proof fn lemma_items_count_prefix(es: Seq<TrendEntry>, key: Seq<char>, j: int)
    requires
        0 <= j < es.len(),
        holds_objects(es[j], key),
    ensures
        items_count(es.take(j + 1), key) > 0,
{
    assert(es.take(j + 1).last() == es[j]);
}

/// The count over a prefix is at most the count over the whole.
proof fn lemma_items_count_prefix_le(es: Seq<TrendEntry>, key: Seq<char>, n: int)
    requires
        0 <= n <= es.len(),
    ensures
        items_count(es.take(n), key) <= items_count(es, key),
    decreases es.len() - n,
{
    if n < es.len() {
        assert(es.take(n + 1).drop_last() =~= es.take(n));
        lemma_items_count_prefix_le(es, key, n + 1);
    } else {
        assert(es.take(n) =~= es);
    }
}

// ---------------------------------------------------------------------------
// Gathering the items
// ---------------------------------------------------------------------------

fn all_items_exec<'a>(es: &'a [TrendEntry], items_field: &Option<Vec<char>>) -> (r: Vec<
    &'a Vec<ItemField>,
>)
    ensures
        item_views(r@) == all_items(es@, opt_view(*items_field)),
{
    let mut r: Vec<&'a Vec<ItemField>> = Vec::new();
    let mut j: usize = 0;
    while j < es.len()
        invariant
            j <= es@.len(),
            item_views(r@) == all_items(es@.take(j as int), opt_view(*items_field)),
        decreases es@.len() - j,
    {
        assert(es@.take(j + 1).drop_last() =~= es@.take(j as int));
        let mut more = items_exec(&es[j], items_field);
        let ghost before = r@;
        r.append(&mut more);
        assert(item_views(r@) =~= item_views(before) + items_of(es@[j as int], opt_view(*items_field)));
        j = j + 1;
    }
    assert(es@.take(es@.len() as int) =~= es@);
    r
}

// ---------------------------------------------------------------------------
// The label field
// ---------------------------------------------------------------------------

/// The field names that name an item, most preferred first.
pub open spec fn label_preferences() -> Seq<Seq<char>> {
    seq![
        "name"@,
        "task"@,
        "title"@,
        "label"@,
        "exercise"@,
        "activity"@,
        "item"@,
        "food"@,
        "meal"@,
        "type"@,
    ]
}

/// Whether some item's field `key` holds text.
pub open spec fn some_item_texts(items: Seq<Seq<ItemField>>, key: Seq<char>) -> bool {
    exists|i: int| 0 <= i < items.len() && (field_get(#[trigger] items[i], key) matches Some(
        Leaf::Text(_),
    ))
}

/// The number of text-valued fields named `key` in one item.
pub open spec fn text_fields_in(item: Seq<ItemField>, key: Seq<char>) -> nat
    decreases item.len(),
{
    if item.len() == 0 {
        0
    } else {
        text_fields_in(item.drop_last(), key) + if item.last().key@ == key
            && item.last().value is Text {
            1nat
        } else {
            0nat
        }
    }
}

/// The number of text-valued fields named `key` across the items.
pub open spec fn text_count(items: Seq<Seq<ItemField>>, key: Seq<char>) -> nat
    decreases items.len(),
{
    if items.len() == 0 {
        0
    } else {
        text_count(items.drop_last(), key) + text_fields_in(items.last(), key)
    }
}

/// Whether no preferred label name holds text in any item.
pub open spec fn no_preferred_label(items: Seq<Seq<ItemField>>) -> bool {
    forall|p: int| 0 <= p < 10 ==> !some_item_texts(items, #[trigger] label_preferences()[p])
}

proof fn lemma_text_fields_found(item: Seq<ItemField>, key: Seq<char>)
    requires
        text_fields_in(item, key) > 0,
    ensures
        exists|f: int| 0 <= f < item.len() && (#[trigger] item[f]).key@ == key && item[f].value is Text,
    decreases item.len(),
{
    if !(item.last().key@ == key && item.last().value is Text) {
        lemma_text_fields_found(item.drop_last(), key);
        let f = choose|f: int|
            0 <= f < item.drop_last().len() && (#[trigger] item.drop_last()[f]).key@ == key
                && item.drop_last()[f].value is Text;
        assert(item[f] == item.drop_last()[f]);
    } else {
        assert(item[item.len() - 1] == item.last());
    }
}

proof fn lemma_text_count_found(items: Seq<Seq<ItemField>>, key: Seq<char>)
    requires
        text_count(items, key) > 0,
    ensures
        exists|i: int, f: int|
            0 <= i < items.len() && 0 <= f < items[i].len() && (#[trigger] items[i][f]).key@ == key
                && items[i][f].value is Text,
    decreases items.len(),
{
    if text_fields_in(items.last(), key) > 0 {
        lemma_text_fields_found(items.last(), key);
        let f = choose|f: int|
            0 <= f < items.last().len() && (#[trigger] items.last()[f]).key@ == key
                && items.last()[f].value is Text;
        assert(items[items.len() - 1][f] == items.last()[f]);
    } else {
        lemma_text_count_found(items.drop_last(), key);
        let (i, f) = choose|i: int, f: int|
            0 <= i < items.drop_last().len() && 0 <= f < items.drop_last()[i].len()
                && (#[trigger] items.drop_last()[i][f]).key@ == key
                && items.drop_last()[i][f].value is Text;
        assert(items[i][f] == items.drop_last()[i][f]);
    }
}

proof fn lemma_text_count_prefix_le(items: Seq<Seq<ItemField>>, key: Seq<char>, n: int)
    requires
        0 <= n <= items.len(),
    ensures
        text_count(items.take(n), key) <= text_count(items, key),
    decreases items.len() - n,
{
    if n < items.len() {
        assert(items.take(n + 1).drop_last() =~= items.take(n));
        lemma_text_count_prefix_le(items, key, n + 1);
    } else {
        assert(items.take(n) =~= items);
    }
}

proof fn lemma_text_fields_prefix_le(item: Seq<ItemField>, key: Seq<char>, n: int)
    requires
        0 <= n <= item.len(),
    ensures
        text_fields_in(item.take(n), key) <= text_fields_in(item, key),
    decreases item.len() - n,
{
    if n < item.len() {
        assert(item.take(n + 1).drop_last() =~= item.take(n));
        lemma_text_fields_prefix_le(item, key, n + 1);
    } else {
        assert(item.take(n) =~= item);
    }
}

fn text_fields_exec(item: &[ItemField], key: &[char]) -> (r: usize)
    ensures
        r == text_fields_in(item@, key@),
{
    let mut n: usize = 0;
    let mut f: usize = 0;
    while f < item.len()
        invariant
            f <= item@.len(),
            n == text_fields_in(item@.take(f as int), key@),
            n <= f,
        decreases item@.len() - f,
    {
        assert(item@.take(f + 1).drop_last() =~= item@.take(f as int));
        let k = chars_of(item[f].key.as_str());
        let is_text = match &item[f].value {
            Leaf::Text(_) => true,
            _ => false,
        };
        if is_text && crate::text::chars_eq(&k, key) {
            n = n + 1;
        }
        f = f + 1;
    }
    assert(item@.take(item@.len() as int) =~= item@);
    n
}

fn text_count_exec(items: &[&Vec<ItemField>], key: &[char]) -> (r: u128)
    ensures
        r == text_count(item_views(items@), key@),
{
    let ghost views = item_views(items@);
    let mut n: u128 = 0;
    let mut i: usize = 0;
    while i < items.len()
        invariant
            i <= items@.len(),
            views == item_views(items@),
            n == text_count(views.take(i as int), key@),
            n <= i * usize::MAX,
        decreases items@.len() - i,
    {
        assert(views.take(i + 1).drop_last() =~= views.take(i as int));
        assert(views.take(i + 1).last() == views[i as int]);
        let c = text_fields_exec(items[i].as_slice(), key);
        assert(c <= usize::MAX);
        assert((i + 1) * usize::MAX == i * usize::MAX + usize::MAX) by (nonlinear_arith);
        assert((i + 1) * usize::MAX <= usize::MAX * usize::MAX) by (nonlinear_arith)
            requires
                i < usize::MAX,
        ;
        assert(usize::MAX * usize::MAX < u128::MAX) by (nonlinear_arith)
            requires
                usize::MAX <= u64::MAX,
        ;
        n = n + c as u128;
        i = i + 1;
    }
    assert(views.take(views.len() as int) =~= views);
    n
}

/// Whether `preference` names the first preferred label that some item
/// holds as text.
pub open spec fn first_preferred(items: Seq<Seq<ItemField>>, p: int) -> bool {
    &&& 0 <= p < 10
    &&& some_item_texts(items, label_preferences()[p])
    &&& forall|q: int| 0 <= q < p ==> !some_item_texts(items, #[trigger] label_preferences()[q])
}

fn some_item_texts_exec(items: &[&Vec<ItemField>], key: &str) -> (r: bool)
    ensures
        r == some_item_texts(item_views(items@), key@),
{
    let k = chars_of(key);
    let mut i: usize = 0;
    while i < items.len()
        invariant
            i <= items@.len(),
            k@ == key@,
            forall|ii: int|
                0 <= ii < i ==> !(field_get(#[trigger] item_views(items@)[ii], key@) matches Some(
                    Leaf::Text(_),
                )),
        decreases items@.len() - i,
    {
        let hit = match field_get_exec(items[i].as_slice(), &k) {
            Some(Leaf::Text(_)) => true,
            _ => false,
        };
        assert(item_views(items@)[i as int] == items@[i as int]@);
        if hit {
            return true;
        }
        i = i + 1;
    }
    false
}

/// Whether `l` may be the label field of the items: the first preferred
/// name that some item holds as text; where none does, none where no item
/// holds any text, else a name that holds text most often.
pub open spec fn label_field_ok(items: Seq<Seq<ItemField>>, l: Option<Seq<char>>) -> bool {
    &&& forall|p: int| #[trigger] first_preferred(items, p) ==> l == Some(label_preferences()[p])
    &&& no_preferred_label(items) ==> (l is None <==> forall|k: Seq<char>|
        #[trigger] text_count(items, k) == 0)
    &&& no_preferred_label(items) ==> (l matches Some(k) ==> text_count(items, k) > 0 && forall|
        k2: Seq<char>,
    | #[trigger] text_count(items, k2) <= text_count(items, k))
}

/// The label field: the first preferred name that some item holds as text;
/// else the field name most often holding text (among equals, the first
/// met); else none.
pub fn detect_label_field(items: &[&Vec<ItemField>]) -> (r: Option<Vec<char>>)
    ensures
        label_field_ok(item_views(items@), opt_view(r)),
{
    let ghost views = item_views(items@);
    let prefs = [
        "name",
        "task",
        "title",
        "label",
        "exercise",
        "activity",
        "item",
        "food",
        "meal",
        "type",
    ];
    proof {
        reveal_strlit("name");
        reveal_strlit("task");
        reveal_strlit("title");
        reveal_strlit("label");
        reveal_strlit("exercise");
        reveal_strlit("activity");
        reveal_strlit("item");
        reveal_strlit("food");
        reveal_strlit("meal");
        reveal_strlit("type");
    }
    assert(forall|p: int| 0 <= p < 10 ==> (#[trigger] prefs@[p])@ == label_preferences()[p]);
    let mut p: usize = 0;
    while p < 10
        invariant
            p <= 10,
            views == item_views(items@),
            forall|q: int| 0 <= q < 10 ==> (#[trigger] prefs@[q])@ == label_preferences()[q],
            forall|q: int| 0 <= q < p ==> !some_item_texts(views, #[trigger] label_preferences()[q]),
        decreases 10 - p,
    {
        if some_item_texts_exec(items, prefs[p]) {
            assert(first_preferred(views, p as int));
            assert forall|p2: int| #[trigger] first_preferred(views, p2) implies p2 == p by {
                if p2 < p {
                } else if p2 > p {
                    assert(!some_item_texts(views, label_preferences()[p as int]));
                }
            }
            return Some(chars_of(prefs[p]));
        }
        p = p + 1;
    }
    assert(no_preferred_label(views));
    assert(forall|p2: int| !#[trigger] first_preferred(views, p2));
    let mut best: Option<(Vec<char>, u128)> = None;
    let mut i: usize = 0;
    while i < items.len()
        invariant
            i <= items@.len(),
            views == item_views(items@),
            best matches Some((bk, bc)) ==> bc == text_count(views, bk@) && bc > 0,
            forall|ii: int, f: int|
                0 <= ii < i && 0 <= f < views[ii].len() && (#[trigger] views[ii][f]).value is Text
                    ==> (best matches Some((bk, bc)) && text_count(views, views[ii][f].key@) <= bc),
        decreases items@.len() - i,
    {
        let item = items[i];
        assert(views[i as int] == item@);
        let mut f: usize = 0;
        while f < item.len()
            invariant
                i < items@.len(),
                views == item_views(items@),
                views[i as int] == item@,
                f <= item@.len(),
                best matches Some((bk, bc)) ==> bc == text_count(views, bk@) && bc > 0,
                forall|ii: int, ff: int|
                    0 <= ii < i && 0 <= ff < views[ii].len() && (#[trigger] views[ii][ff]).value is Text
                        ==> (best matches Some((bk, bc)) && text_count(views, views[ii][ff].key@)
                        <= bc),
                forall|ff: int|
                    0 <= ff < f && (#[trigger] item@[ff]).value is Text ==> (best matches Some((bk, bc))
                        && text_count(views, item@[ff].key@) <= bc),
            decreases item@.len() - f,
        {
            let is_text = match &item[f].value {
                Leaf::Text(_) => true,
                _ => false,
            };
            if is_text {
                let k = chars_of(item[f].key.as_str());
                let c = text_count_exec(items, &k);
                proof {
                    assert(text_fields_in(item@.take(f + 1), k@) > 0) by {
                        assert(item@.take(f + 1).drop_last() =~= item@.take(f as int));
                        assert(item@.take(f + 1).last() == item@[f as int]);
                    }
                    lemma_text_fields_prefix_le(item@, k@, (f + 1) as int);
                    assert(text_count(views.take(i + 1), k@) > 0) by {
                        assert(views.take(i + 1).drop_last() =~= views.take(i as int));
                        assert(views.take(i + 1).last() == views[i as int]);
                    }
                    lemma_text_count_prefix_le(views, k@, (i + 1) as int);
                }
                let replace = match &best {
                    None => true,
                    Some((_, bc)) => c > *bc,
                };
                if replace {
                    best = Some((k, c));
                }
            }
            f = f + 1;
        }
        assert forall|ii: int, ff: int|
            0 <= ii < i + 1 && 0 <= ff < views[ii].len() && (#[trigger] views[ii][ff]).value is Text
                implies (best matches Some((bk, bc)) && text_count(views, views[ii][ff].key@) <= bc) by {
            if ii == i {
                assert(views[ii][ff] == item@[ff]);
            }
        }
        i = i + 1;
    }
    proof {
        assert forall|k2: Seq<char>| text_count(views, k2) > 0 implies (best matches Some((bk, bc))
            && text_count(views, k2) <= bc) by {
            lemma_text_count_found(views, k2);
            let (ii, ff) = choose|ii: int, ff: int|
                0 <= ii < views.len() && 0 <= ff < views[ii].len() && (#[trigger] views[ii][ff]).key@
                    == k2 && views[ii][ff].value is Text;
        }
    }
    match best {
        None => None,
        Some((k, _)) => Some(k),
    }
}

// ---------------------------------------------------------------------------
// Sorted key sets
// ---------------------------------------------------------------------------

/// Adds `k` to a strictly sorted set of keys, where it is not there yet.
fn insert_sorted(set: &mut Vec<Vec<char>>, k: Vec<char>)
    requires
        strictly_sorted(char_seqs(old(set)@)),
    ensures
        strictly_sorted(char_seqs(final(set)@)),
        forall|x: Seq<char>|
            #[trigger] char_seqs(final(set)@).contains(x) <==> char_seqs(old(set)@).contains(x)
                || x == k@,
{
    let ghost old_views = char_seqs(set@);
    let mut p: usize = 0;
    while p < set.len() && text_less(set[p].as_slice(), k.as_slice())
        invariant
            p <= set@.len(),
            old_views == char_seqs(set@),
            strictly_sorted(old_views),
            forall|q: int| 0 <= q < p ==> text_lt(#[trigger] old_views[q], k@),
        decreases set@.len() - p,
    {
        p = p + 1;
    }
    if p < set.len() && chars_eq(set[p].as_slice(), k.as_slice()) {
        assert(old_views[p as int] == k@);
        return;
    }
    proof {
        if p < old_views.len() {
            assert(!text_lt(old_views[p as int], k@));
            assert(old_views[p as int] != k@);
            lemma_text_lt_total(old_views[p as int], k@);
        }
    }
    let ghost kv = k@;
    set.insert(p, k);
    let ghost new_views = char_seqs(set@);
    assert(new_views =~= old_views.insert(p as int, kv));
    assert forall|i: int, j: int| 0 <= i < j < new_views.len() implies text_lt(
        #[trigger] new_views[i],
        #[trigger] new_views[j],
    ) by {
        if j < p {
        } else if j == p {
            assert(new_views[i] == old_views[i]);
        } else if i < p {
            assert(new_views[i] == old_views[i]);
            assert(new_views[j] == old_views[j - 1]);
            assert(text_lt(old_views[i], old_views[j - 1]));
        } else if i == p {
            assert(new_views[j] == old_views[j - 1]);
            if j - 1 > p {
                assert(text_lt(old_views[p as int], old_views[j - 1]));
                lemma_text_lt_transitive(kv, old_views[p as int], old_views[j - 1]);
            }
        } else {
            assert(new_views[i] == old_views[i - 1]);
            assert(new_views[j] == old_views[j - 1]);
        }
    }
    assert forall|x: Seq<char>| #[trigger] new_views.contains(x) <==> old_views.contains(x) || x == kv by {
        if new_views.contains(x) {
            let i = choose|i: int| 0 <= i < new_views.len() && new_views[i] == x;
            if i < p {
                assert(old_views[i] == x);
            } else if i > p {
                assert(old_views[i - 1] == x);
            }
        }
        if old_views.contains(x) {
            let i = choose|i: int| 0 <= i < old_views.len() && old_views[i] == x;
            if i < p {
                assert(new_views[i] == x);
            } else {
                assert(new_views[i + 1] == x);
            }
        }
        if x == kv {
            assert(new_views[p as int] == x);
        }
    }
}

// ---------------------------------------------------------------------------
// The metrics
// ---------------------------------------------------------------------------

/// Whether some item holds a number in a field named `k`, the label field
/// left out.
pub open spec fn is_metric(items: Seq<Seq<ItemField>>, label: Option<Seq<char>>, k: Seq<char>) -> bool {
    &&& label != Some(k)
    &&& exists|i: int, f: int|
        0 <= i < items.len() && 0 <= f < items[i].len() && (#[trigger] items[i][f]).key@ == k
            && items[i][f].value is Number
}

/// Whether field `f` of item `i` comes before position (`i2`, `f2`).
pub open spec fn before_position(i: int, f: int, i2: int, f2: int) -> bool {
    i < i2 || (i == i2 && f < f2)
}

/// Whether a number field named `k` occurs before position (`i2`, `f2`).
pub open spec fn metric_seen(
    items: Seq<Seq<ItemField>>,
    label: Option<Seq<char>>,
    k: Seq<char>,
    i2: int,
    f2: int,
) -> bool {
    &&& label != Some(k)
    &&& exists|i: int, f: int|
        0 <= i < items.len() && 0 <= f < items[i].len() && before_position(i, f, i2, f2) && (
        #[trigger] items[i][f]).key@ == k && items[i][f].value is Number
}

/// Whether `ms` lists, each once and in the order of text keys, the names
/// that hold a number in some item, the label field left out.
pub open spec fn metrics_ok(items: Seq<Seq<ItemField>>, label: Option<Seq<char>>, ms: Seq<Seq<char>>) -> bool {
    &&& strictly_sorted(ms)
    &&& forall|k: Seq<char>| #[trigger] ms.contains(k) <==> is_metric(items, label, k)
}

/// The metrics: every field name that holds a number in some item, the
/// label field left out, each once, in the order of text keys.
pub fn collect_metrics(items: &[&Vec<ItemField>], label: &Option<Vec<char>>) -> (r: Vec<Vec<char>>)
    ensures
        metrics_ok(item_views(items@), opt_view(*label), char_seqs(r@)),
{
    let ghost views = item_views(items@);
    let ghost lv = opt_view(*label);
    let mut set: Vec<Vec<char>> = Vec::new();
    assert(char_seqs(set@) =~= Seq::<Seq<char>>::empty());
    let mut i: usize = 0;
    while i < items.len()
        invariant
            i <= items@.len(),
            views == item_views(items@),
            lv == opt_view(*label),
            strictly_sorted(char_seqs(set@)),
            forall|k: Seq<char>|
                #[trigger] char_seqs(set@).contains(k) <==> metric_seen(views, lv, k, i as int, 0),
        decreases items@.len() - i,
    {
        let item = items[i];
        assert(views[i as int] == item@);
        let mut f: usize = 0;
        while f < item.len()
            invariant
                i < items@.len(),
                views == item_views(items@),
                lv == opt_view(*label),
                views[i as int] == item@,
                f <= item@.len(),
                strictly_sorted(char_seqs(set@)),
                forall|k: Seq<char>|
                    #[trigger] char_seqs(set@).contains(k) <==> metric_seen(
                        views,
                        lv,
                        k,
                        i as int,
                        f as int,
                    ),
            decreases item@.len() - f,
        {
            let is_number = match &item[f].value {
                Leaf::Number(_) => true,
                _ => false,
            };
            let k = chars_of(item[f].key.as_str());
            let is_label = match label {
                Some(l) => chars_eq(l.as_slice(), k.as_slice()),
                None => false,
            };
            let ghost kv = k@;
            let ghost before = char_seqs(set@);
            if is_number && !is_label {
                insert_sorted(&mut set, k);
            }
            assert forall|x: Seq<char>| #[trigger] char_seqs(set@).contains(x) <==> metric_seen(
                views,
                lv,
                x,
                i as int,
                (f + 1) as int,
            ) by {
                if metric_seen(views, lv, x, i as int, (f + 1) as int) {
                    let (ii, ff) = choose|ii: int, ff: int|
                        0 <= ii < views.len() && 0 <= ff < views[ii].len() && before_position(
                            ii,
                            ff,
                            i as int,
                            (f + 1) as int,
                        ) && (#[trigger] views[ii][ff]).key@ == x && views[ii][ff].value is Number;
                    if !(ii == i && ff == f) {
                        assert(metric_seen(views, lv, x, i as int, f as int));
                    } else {
                        assert(views[ii][ff] == item@[f as int]);
                    }
                }
                if before.contains(x) {
                    let (ii, ff) = choose|ii: int, ff: int|
                        0 <= ii < views.len() && 0 <= ff < views[ii].len() && before_position(
                            ii,
                            ff,
                            i as int,
                            f as int,
                        ) && (#[trigger] views[ii][ff]).key@ == x && views[ii][ff].value is Number;
                    assert(before_position(ii, ff, i as int, (f + 1) as int));
                }
                if is_number && !is_label && x == kv {
                    assert(views[i as int][f as int] == item@[f as int]);
                    assert(before_position(i as int, f as int, i as int, (f + 1) as int));
                }
            }
            f = f + 1;
        }
        assert forall|x: Seq<char>| #[trigger] char_seqs(set@).contains(x) <==> metric_seen(
            views,
            lv,
            x,
            (i + 1) as int,
            0,
        ) by {
            if metric_seen(views, lv, x, (i + 1) as int, 0) {
                let (ii, ff) = choose|ii: int, ff: int|
                    0 <= ii < views.len() && 0 <= ff < views[ii].len() && before_position(
                        ii,
                        ff,
                        (i + 1) as int,
                        0,
                    ) && (#[trigger] views[ii][ff]).key@ == x && views[ii][ff].value is Number;
                assert(before_position(ii, ff, i as int, item@.len() as int));
            }
            if metric_seen(views, lv, x, i as int, item@.len() as int) {
                let (ii, ff) = choose|ii: int, ff: int|
                    0 <= ii < views.len() && 0 <= ff < views[ii].len() && before_position(
                        ii,
                        ff,
                        i as int,
                        item@.len() as int,
                    ) && (#[trigger] views[ii][ff]).key@ == x && views[ii][ff].value is Number;
                assert(before_position(ii, ff, (i + 1) as int, 0));
            }
        }
        i = i + 1;
    }
    assert forall|k: Seq<char>| #[trigger] char_seqs(set@).contains(k) <==> is_metric(views, lv, k) by {
        if is_metric(views, lv, k) {
            let (ii, ff) = choose|ii: int, ff: int|
                0 <= ii < views.len() && 0 <= ff < views[ii].len() && (#[trigger] views[ii][ff]).key@
                    == k && views[ii][ff].value is Number;
            assert(before_position(ii, ff, i as int, 0));
        }
    }
    set
}

// ---------------------------------------------------------------------------
// The rows
// ---------------------------------------------------------------------------

/// One row of the long-format table: an item of an entry, with its date,
/// its label and the metric values it holds.
#[derive(Debug)]
pub struct TrendRow {
    pub date: String,
    pub label: String,
    /// Each metric the item holds a number for, in the metrics' order, with
    /// that number's JSON text.
    pub values: Vec<(String, String)>,
}

/// The label given to an item that has none.
pub open spec fn unlabelled() -> Seq<char> {
    seq!['\u{2014}']
}

/// The label of an item: the text its label field holds, else a dash.
pub open spec fn item_label(item: Seq<ItemField>, label: Option<Seq<char>>) -> Seq<char> {
    match label {
        Some(l) => match field_get(item, l) {
            Some(Leaf::Text(t)) => t@,
            _ => unlabelled(),
        },
        None => unlabelled(),
    }
}

/// The metric values an item holds: each metric, in order, with the number
/// the item holds under it, where it holds one.
pub open spec fn item_values(item: Seq<ItemField>, metrics: Seq<Seq<char>>) -> Seq<
    (Seq<char>, Seq<char>),
>
    decreases metrics.len(),
{
    if metrics.len() == 0 {
        seq![]
    } else {
        let rest = item_values(item, metrics.drop_last());
        match field_get(item, metrics.last()) {
            Some(Leaf::Number(n)) => rest.push((metrics.last(), n@)),
            _ => rest,
        }
    }
}

/// The views of a sequence of string pairs.
pub open spec fn pairs_view(v: Seq<(String, String)>) -> Seq<(Seq<char>, Seq<char>)> {
    Seq::new(v.len(), |i: int| (v[i].0@, v[i].1@))
}

/// A row as plain values: date, label and values.
pub open spec fn row_view(r: TrendRow) -> (Seq<char>, Seq<char>, Seq<(Seq<char>, Seq<char>)>) {
    (r.date@, r.label@, pairs_view(r.values@))
}

pub open spec fn rows_view(rs: Seq<TrendRow>) -> Seq<
    (Seq<char>, Seq<char>, Seq<(Seq<char>, Seq<char>)>),
> {
    Seq::new(rs.len(), |i: int| row_view(rs[i]))
}

/// The rows of one entry: one per item, in order.
pub open spec fn entry_rows(
    e: TrendEntry,
    items_field: Option<Seq<char>>,
    label: Option<Seq<char>>,
    metrics: Seq<Seq<char>>,
) -> Seq<(Seq<char>, Seq<char>, Seq<(Seq<char>, Seq<char>)>)> {
    let items = items_of(e, items_field);
    Seq::new(
        items.len(),
        |t: int| (e.date@, item_label(items[t], label), item_values(items[t], metrics)),
    )
}

/// The rows of every entry, entry by entry.
pub open spec fn trend_rows(
    es: Seq<TrendEntry>,
    items_field: Option<Seq<char>>,
    label: Option<Seq<char>>,
    metrics: Seq<Seq<char>>,
) -> Seq<(Seq<char>, Seq<char>, Seq<(Seq<char>, Seq<char>)>)>
    decreases es.len(),
{
    if es.len() == 0 {
        seq![]
    } else {
        trend_rows(es.drop_last(), items_field, label, metrics) + entry_rows(
            es.last(),
            items_field,
            label,
            metrics,
        )
    }
}

/// The labels of some rows, in order.
pub open spec fn row_labels(rs: Seq<(Seq<char>, Seq<char>, Seq<(Seq<char>, Seq<char>)>)>) -> Seq<
    Seq<char>,
> {
    Seq::new(rs.len(), |i: int| rs[i].1)
}

/// Each value once, in the order of first appearance.
pub open spec fn distinct_in_order(s: Seq<Seq<char>>) -> Seq<Seq<char>>
    decreases s.len(),
{
    if s.len() == 0 {
        seq![]
    } else {
        let d = distinct_in_order(s.drop_last());
        if d.contains(s.last()) {
            d
        } else {
            d.push(s.last())
        }
    }
}

/// The labels of the trends hold each row's label, and each only once.
pub proof fn lemma_distinct_in_order(s: Seq<Seq<char>>)
    ensures
        forall|x: Seq<char>| #[trigger] distinct_in_order(s).contains(x) <==> s.contains(x),
        forall|i: int, j: int|
            0 <= i < j < distinct_in_order(s).len() ==> #[trigger] distinct_in_order(s)[i]
                != #[trigger] distinct_in_order(s)[j],
    decreases s.len(),
{
    if s.len() > 0 {
        let rest = s.drop_last();
        lemma_distinct_in_order(rest);
        let d = distinct_in_order(rest);
        assert forall|x: Seq<char>| #[trigger] distinct_in_order(s).contains(x) <==> s.contains(x) by {
            if s.contains(x) {
                let k = choose|k: int| 0 <= k < s.len() && s[k] == x;
                if k < s.len() - 1 {
                    assert(rest[k] == x);
                    assert(rest.contains(x));
                }
            }
            if rest.contains(x) {
                let k = choose|k: int| 0 <= k < rest.len() && rest[k] == x;
                assert(s[k] == x);
            }
            if !d.contains(s.last()) {
                if d.push(s.last()).contains(x) {
                    let k = choose|k: int| 0 <= k < d.push(s.last()).len() && d.push(s.last())[k] == x;
                    if k < d.len() {
                        assert(d[k] == x);
                    }
                }
                if x == s.last() {
                    assert(d.push(s.last())[d.len() as int] == x);
                }
                if d.contains(x) {
                    let k = choose|k: int| 0 <= k < d.len() && d[k] == x;
                    assert(d.push(s.last())[k] == x);
                }
            }
            assert(s[s.len() - 1] == s.last());
        }
    }
}

fn copy_string(s: &String) -> (r: String)
    ensures
        r@ == s@,
{
    owned(s.as_str())
}

fn item_label_exec(item: &[ItemField], label: &Option<Vec<char>>) -> (r: String)
    ensures
        r@ == item_label(item@, opt_view(*label)),
{
    let dash = vec!['\u{2014}'];
    assert(dash@ =~= unlabelled());
    match label {
        Some(l) => match field_get_exec(item, l.as_slice()) {
            Some(Leaf::Text(t)) => copy_string(t),
            _ => string_from_chars(&dash),
        },
        None => string_from_chars(&dash),
    }
}

fn item_values_exec(item: &[ItemField], metrics: &[Vec<char>]) -> (r: Vec<(String, String)>)
    ensures
        pairs_view(r@) == item_values(item@, char_seqs(metrics@)),
{
    let ghost ms = char_seqs(metrics@);
    let mut r: Vec<(String, String)> = Vec::new();
    let mut m: usize = 0;
    while m < metrics.len()
        invariant
            m <= metrics@.len(),
            ms == char_seqs(metrics@),
            pairs_view(r@) == item_values(item@, ms.take(m as int)),
        decreases metrics@.len() - m,
    {
        assert(ms.take(m + 1).drop_last() =~= ms.take(m as int));
        assert(ms.take(m + 1).last() == metrics@[m as int]@);
        match field_get_exec(item, metrics[m].as_slice()) {
            Some(Leaf::Number(n)) => {
                let ghost before = r@;
                r.push((string_from_chars(metrics[m].as_slice()), copy_string(n)));
                assert(pairs_view(r@) =~= pairs_view(before).push((metrics@[m as int]@, n@)));
            },
            _ => {},
        }
        m = m + 1;
    }
    assert(ms.take(ms.len() as int) =~= ms);
    r
}

fn contains_text(v: &[String], t: &[char]) -> (r: bool)
    ensures
        r == crate::text::string_seqs(v@).contains(t@),
{
    let ghost views = crate::text::string_seqs(v@);
    let mut i: usize = 0;
    while i < v.len()
        invariant
            i <= v@.len(),
            views == crate::text::string_seqs(v@),
            forall|k: int| 0 <= k < i ==> views[k] != t@,
        decreases v@.len() - i,
    {
        let c = chars_of(v[i].as_str());
        if chars_eq(c.as_slice(), t) {
            assert(views[i as int] == t@);
            return true;
        }
        i = i + 1;
    }
    false
}

/// The rows of every entry and the labels in the order they first appear.
fn build_rows(
    es: &[TrendEntry],
    items_field: &Option<Vec<char>>,
    label: &Option<Vec<char>>,
    metrics: &[Vec<char>],
) -> (r: (Vec<TrendRow>, Vec<String>))
    ensures
        rows_view(r.0@) == trend_rows(es@, opt_view(*items_field), opt_view(*label), char_seqs(metrics@)),
        crate::text::string_seqs(r.1@) == distinct_in_order(row_labels(rows_view(r.0@))),
{
    let ghost f = opt_view(*items_field);
    let ghost l = opt_view(*label);
    let ghost ms = char_seqs(metrics@);
    let mut rows: Vec<TrendRow> = Vec::new();
    let mut labels: Vec<String> = Vec::new();
    assert(rows_view(rows@) =~= seq![]);
    assert(crate::text::string_seqs(labels@) =~= seq![]);
    assert(row_labels(rows_view(rows@)) =~= seq![]);
    let mut j: usize = 0;
    while j < es.len()
        invariant
            j <= es@.len(),
            f == opt_view(*items_field),
            l == opt_view(*label),
            ms == char_seqs(metrics@),
            rows_view(rows@) == trend_rows(es@.take(j as int), f, l, ms),
            crate::text::string_seqs(labels@) == distinct_in_order(row_labels(rows_view(rows@))),
        decreases es@.len() - j,
    {
        assert(es@.take(j + 1).drop_last() =~= es@.take(j as int));
        assert(es@.take(j + 1).last() == es@[j as int]);
        let e = &es[j];
        let items = items_exec(e, items_field);
        let ghost start = rows_view(rows@);
        let ghost er = entry_rows(*e, f, l, ms);
        let mut t: usize = 0;
        while t < items.len()
            invariant
                t <= items@.len(),
                j < es@.len(),
                *e == es@[j as int],
                f == opt_view(*items_field),
                l == opt_view(*label),
                ms == char_seqs(metrics@),
                item_views(items@) == items_of(*e, f),
                er == entry_rows(*e, f, l, ms),
                er.len() == items@.len(),
                rows_view(rows@) == start + er.take(t as int),
                crate::text::string_seqs(labels@) == distinct_in_order(row_labels(rows_view(rows@))),
            decreases items@.len() - t,
        {
            let item = items[t];
            assert(item@ == items_of(*e, f)[t as int]);
            let lab = item_label_exec(item.as_slice(), label);
            let values = item_values_exec(item.as_slice(), metrics);
            let lab_chars = chars_of(lab.as_str());
            let seen = contains_text(labels.as_slice(), lab_chars.as_slice());
            let ghost before_rows = rows_view(rows@);
            let ghost before_labels = crate::text::string_seqs(labels@);
            if !seen {
                labels.push(copy_string(&lab));
            }
            rows.push(TrendRow { date: copy_string(&e.date), label: lab, values });
            assert(rows_view(rows@) =~= before_rows.push(er[t as int]));
            assert(er.take(t + 1) =~= er.take(t as int).push(er[t as int]));
            assert(row_labels(rows_view(rows@)).drop_last() =~= row_labels(before_rows));
            assert(row_labels(rows_view(rows@)).last() == lab_chars@);
            assert(crate::text::string_seqs(labels@) =~= if seen {
                before_labels
            } else {
                before_labels.push(lab_chars@)
            });
            t = t + 1;
        }
        assert(er.take(er.len() as int) =~= er);
        j = j + 1;
    }
    assert(es@.take(es@.len() as int) =~= es@);
    (rows, labels)
}

// ---------------------------------------------------------------------------
// Entries per date
// ---------------------------------------------------------------------------

/// The number of entries dated `d`.
pub open spec fn date_count(es: Seq<TrendEntry>, d: Seq<char>) -> nat
    decreases es.len(),
{
    if es.len() == 0 {
        0
    } else {
        date_count(es.drop_last(), d) + if es.last().date@ == d {
            1nat
        } else {
            0nat
        }
    }
}

/// The views of a sequence of (text, count) pairs.
pub open spec fn counts_view(v: Seq<(String, i64)>) -> Seq<(Seq<char>, int)> {
    Seq::new(v.len(), |i: int| (v[i].0@, v[i].1 as int))
}

/// The dates of a sequence of (date, count) pairs.
pub open spec fn count_dates(v: Seq<(Seq<char>, int)>) -> Seq<Seq<char>> {
    Seq::new(v.len(), |i: int| v[i].0)
}

/// Whether `counts` lists each date of the entries once, in the order of
/// text keys, with the number of entries of that date.
pub open spec fn counts_ok(es: Seq<TrendEntry>, counts: Seq<(Seq<char>, int)>) -> bool {
    &&& strictly_sorted(count_dates(counts))
    &&& forall|i: int| 0 <= i < counts.len() ==> (#[trigger] counts[i]).1 == date_count(es, counts[i].0)
    &&& forall|d: Seq<char>| #[trigger] count_dates(counts).contains(d) <==> date_count(es, d) > 0
}

proof fn lemma_date_count_found(es: Seq<TrendEntry>, d: Seq<char>)
    requires
        date_count(es, d) > 0,
    ensures
        exists|j: int| 0 <= j < es.len() && (#[trigger] es[j]).date@ == d,
    decreases es.len(),
{
    if es.last().date@ != d {
        lemma_date_count_found(es.drop_last(), d);
        let j = choose|j: int| 0 <= j < es.drop_last().len() && (#[trigger] es.drop_last()[j]).date@ == d;
        assert(es[j] == es.drop_last()[j]);
    } else {
        assert(es[es.len() - 1] == es.last());
    }
}

proof fn lemma_date_count_prefix(es: Seq<TrendEntry>, d: Seq<char>, n: int)
    requires
        0 <= n <= es.len(),
    ensures
        date_count(es.take(n), d) <= date_count(es, d),
        date_count(es, d) <= es.len(),
    decreases es.len() - n,
{
    if n < es.len() {
        assert(es.take(n + 1).drop_last() =~= es.take(n));
        lemma_date_count_prefix(es, d, n + 1);
    } else {
        assert(es.take(n) =~= es);
        lemma_date_count_bound(es, d);
    }
}

proof fn lemma_date_count_bound(es: Seq<TrendEntry>, d: Seq<char>)
    ensures
        date_count(es, d) <= es.len(),
    decreases es.len(),
{
    if es.len() > 0 {
        lemma_date_count_bound(es.drop_last(), d);
    }
}

fn date_count_exec(es: &[TrendEntry], d: &[char]) -> (r: i64)
    requires
        es@.len() <= i64::MAX,
    ensures
        r == date_count(es@, d@),
{
    let mut n: i64 = 0;
    let mut j: usize = 0;
    while j < es.len()
        invariant
            j <= es@.len(),
            es@.len() <= i64::MAX,
            n == date_count(es@.take(j as int), d@),
            n <= j,
        decreases es@.len() - j,
    {
        assert(es@.take(j + 1).drop_last() =~= es@.take(j as int));
        let date = chars_of(es[j].date.as_str());
        if chars_eq(date.as_slice(), d) {
            n = n + 1;
        }
        j = j + 1;
    }
    assert(es@.take(es@.len() as int) =~= es@);
    n
}

/// Each date of the entries once, in the order of text keys, with the
/// number of entries of that date.
pub fn count_by_date(es: &[TrendEntry]) -> (r: Vec<(String, i64)>)
    requires
        es@.len() <= i64::MAX,
    ensures
        counts_ok(es@, counts_view(r@)),
{
    let mut dates: Vec<Vec<char>> = Vec::new();
    assert(char_seqs(dates@) =~= Seq::<Seq<char>>::empty());
    let mut j: usize = 0;
    while j < es.len()
        invariant
            j <= es@.len(),
            strictly_sorted(char_seqs(dates@)),
            forall|d: Seq<char>| #[trigger] char_seqs(dates@).contains(d) <==> exists|jj: int|
                0 <= jj < j && (#[trigger] es@[jj]).date@ == d,
        decreases es@.len() - j,
    {
        let d = chars_of(es[j].date.as_str());
        let ghost dv = d@;
        insert_sorted(&mut dates, d);
        assert forall|x: Seq<char>| #[trigger] char_seqs(dates@).contains(x) <==> exists|jj: int|
            0 <= jj < j + 1 && (#[trigger] es@[jj]).date@ == x by {
            if x == dv {
                assert(es@[j as int].date@ == x);
            }
            if exists|jj: int| 0 <= jj < j + 1 && (#[trigger] es@[jj]).date@ == x {
                let jj = choose|jj: int| 0 <= jj < j + 1 && (#[trigger] es@[jj]).date@ == x;
                if jj < j {
                    assert(exists|k: int| 0 <= k < j && (#[trigger] es@[k]).date@ == x);
                }
            }
        }
        j = j + 1;
    }
    let ghost dviews = char_seqs(dates@);
    let mut r: Vec<(String, i64)> = Vec::new();
    let mut i: usize = 0;
    while i < dates.len()
        invariant
            i <= dates@.len(),
            dviews == char_seqs(dates@),
            es@.len() <= i64::MAX,
            counts_view(r@).len() == i,
            forall|k: int| 0 <= k < i ==> (#[trigger] counts_view(r@)[k]) == (dviews[k], date_count(es@, dviews[k]) as int),
        decreases dates@.len() - i,
    {
        let c = date_count_exec(es, dates[i].as_slice());
        let ghost before = counts_view(r@);
        r.push((string_from_chars(dates[i].as_slice()), c));
        assert(counts_view(r@) =~= before.push((dviews[i as int], c as int)));
        i = i + 1;
    }
    let ghost cv = counts_view(r@);
    assert(count_dates(cv) =~= dviews);
    assert forall|d: Seq<char>| #[trigger] count_dates(cv).contains(d) <==> date_count(es@, d) > 0 by {
        if date_count(es@, d) > 0 {
            lemma_date_count_found(es@, d);
        }
        if count_dates(cv).contains(d) {
            let jj = choose|jj: int| 0 <= jj < es@.len() && (#[trigger] es@[jj]).date@ == d;
            assert(date_count(es@.take(jj + 1), d) > 0) by {
                assert(es@.take(jj + 1).last() == es@[jj]);
            }
            lemma_date_count_prefix(es@, d, jj + 1);
        }
    }
    r
}

// ---------------------------------------------------------------------------
// The table
// ---------------------------------------------------------------------------

/// The trends of a category: the fields discovered, the metrics, the item
/// labels in order of first appearance, one row per item, and the number of
/// entries per date.
#[derive(Debug)]
pub struct Trends {
    pub items_field: Option<String>,
    pub label_field: Option<String>,
    pub metrics: Vec<String>,
    pub labels: Vec<String>,
    pub rows: Vec<TrendRow>,
    pub count_by_date: Vec<(String, i64)>,
}

/// The view of an optional string.
pub open spec fn opt_string_view(o: Option<String>) -> Option<Seq<char>> {
    match o {
        Some(s) => Some(s@),
        None => None,
    }
}

fn opt_string(o: &Option<Vec<char>>) -> (r: Option<String>)
    ensures
        opt_string_view(r) == opt_view(*o),
{
    match o {
        Some(v) => Some(string_from_chars(v.as_slice())),
        None => None,
    }
}

fn strings_of(v: &[Vec<char>]) -> (r: Vec<String>)
    ensures
        crate::text::string_seqs(r@) == char_seqs(v@),
{
    let mut r: Vec<String> = Vec::new();
    let mut i: usize = 0;
    while i < v.len()
        invariant
            i <= v@.len(),
            r@.len() == i,
            crate::text::string_seqs(r@) == char_seqs(v@).take(i as int),
        decreases v@.len() - i,
    {
        let ghost before = r@;
        let t = string_from_chars(v[i].as_slice());
        r.push(t);
        assert(r@ == before.push(t));
        assert(crate::text::string_seqs(r@).len() == i + 1);
        assert forall|k: int| 0 <= k < i + 1 implies #[trigger] crate::text::string_seqs(r@)[k]
            == char_seqs(v@).take(i + 1)[k] by {
            if k < i {
                assert(crate::text::string_seqs(r@)[k] == r@[k]@);
                assert(r@[k] == before[k]);
                assert(crate::text::string_seqs(before)[k] == before[k]@);
            }
        }
        assert(crate::text::string_seqs(r@) =~= char_seqs(v@).take(i + 1));
        i = i + 1;
    }
    assert(char_seqs(v@).take(v@.len() as int) =~= char_seqs(v@));
    r
}

/// Builds the trends of a category from its entries, already in date
/// order: discovers the items field, then the label field and the metrics
/// over every item, then writes one row per item and counts the entries of
/// each date.
pub fn build_trends(entries: &[TrendEntry]) -> (r: Trends)
    requires
        entries@.len() <= i64::MAX,
    ensures
        items_field_ok(entries@, opt_string_view(r.items_field)),
        label_field_ok(
            all_items(entries@, opt_string_view(r.items_field)),
            opt_string_view(r.label_field),
        ),
        metrics_ok(
            all_items(entries@, opt_string_view(r.items_field)),
            opt_string_view(r.label_field),
            crate::text::string_seqs(r.metrics@),
        ),
        rows_view(r.rows@) == trend_rows(
            entries@,
            opt_string_view(r.items_field),
            opt_string_view(r.label_field),
            crate::text::string_seqs(r.metrics@),
        ),
        crate::text::string_seqs(r.labels@) == distinct_in_order(row_labels(rows_view(r.rows@))),
        counts_ok(entries@, counts_view(r.count_by_date@)),
{
    let items_field = detect_items_field(entries);
    let items = all_items_exec(entries, &items_field);
    let label_field = detect_label_field(items.as_slice());
    let metrics = collect_metrics(items.as_slice(), &label_field);
    let (rows, labels) = build_rows(entries, &items_field, &label_field, metrics.as_slice());
    let count_by_date = count_by_date(entries);
    Trends {
        items_field: opt_string(&items_field),
        label_field: opt_string(&label_field),
        metrics: strings_of(metrics.as_slice()),
        labels,
        rows,
        count_by_date,
    }
}

fn owned(s: &str) -> (r: String)
    ensures
        r@ == s@,
{
    string_from_chars(&chars_of(s))
}

} // verus!
