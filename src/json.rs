//! JSON documents and their canonical serialisation: object keys sorted at every
//! level, arrays kept in order, no insignificant whitespace.

use vstd::prelude::*;
use vstd::string::*;
use vstd::slice::slice_to_vec;
use crate::text::{chars_of, push_char};

verus! {

broadcast use vstd::std_specs::vec::group_vec_axioms;

/// A JSON number as a parser reads it: a non-negative integer, a negative
/// integer, or any other number held as the text of its shortest decimal form.
pub enum JsonNumber {
    PosInt(u64),
    NegInt(i64),
    Float(String),
}

/// A parsed JSON document.
pub enum Json {
    Null,
    Bool(bool),
    Number(JsonNumber),
    Str(String),
    Array(Vec<Json>),
    Object(Vec<(String, Json)>),
}

/// The mathematical model of a JSON document; a number is its written form.
pub enum JsonV {
    Null,
    Bool(bool),
    Number(Seq<char>),
    Str(Seq<char>),
    Array(Seq<JsonV>),
    Object(Seq<(Seq<char>, JsonV)>),
}

/// Hexadecimal digit `d` (lower case); for `d < 10` the decimal digit.
pub open spec fn digit_char(d: nat) -> char {
    "0123456789abcdef"@[d as int]
}

/// Decimal digits of `n`, without leading zeros.
pub open spec fn decimal(n: nat) -> Seq<char>
    decreases n,
{
    if n < 10 {
        seq![digit_char(n)]
    } else {
        decimal(n / 10).push(digit_char(n % 10))
    }
}

/// Decimal text of an integer, with a leading `-` when negative.
pub open spec fn int_text(i: int) -> Seq<char> {
    if i < 0 {
        seq!['-'] + decimal((-i) as nat)
    } else {
        decimal(i as nat)
    }
}

impl View for JsonNumber {
    type V = Seq<char>;

    open spec fn view(&self) -> Seq<char> {
        match self {
            JsonNumber::PosInt(u) => decimal(*u as nat),
            JsonNumber::NegInt(i) => int_text(*i as int),
            JsonNumber::Float(t) => t@,
        }
    }
}

/// The model of a document.
pub open spec fn json_view(j: &Json) -> JsonV
    decreases j,
{
    match j {
        Json::Null => JsonV::Null,
        Json::Bool(b) => JsonV::Bool(*b),
        Json::Number(n) => JsonV::Number(n@),
        Json::Str(s) => JsonV::Str(s@),
        Json::Array(items) => JsonV::Array(items_view(items@)),
        Json::Object(entries) => JsonV::Object(entries_view(entries@)),
    }
}

/// The models of array elements.
pub open spec fn items_view(s: Seq<Json>) -> Seq<JsonV>
    decreases s,
{
    if s.len() == 0 {
        Seq::empty()
    } else {
        items_view(s.drop_last()).push(json_view(&s.last()))
    }
}

/// The models of object members.
pub open spec fn entries_view(s: Seq<(String, Json)>) -> Seq<(Seq<char>, JsonV)>
    decreases s,
{
    if s.len() == 0 {
        Seq::empty()
    } else {
        entries_view(s.drop_last()).push((s.last().0@, json_view(&s.last().1)))
    }
}

impl View for Json {
    type V = JsonV;

    open spec fn view(&self) -> JsonV {
        json_view(self)
    }
}


/// How a JSON string literal writes one character: `"` and `\` and the
/// control characters are escaped, everything else stands as it is.
pub open spec fn json_escape_char(c: char) -> Seq<char> {
    if c == '"' {
        seq!['\\', '"']
    } else if c == '\\' {
        seq!['\\', '\\']
    } else if c == '\u{8}' {
        seq!['\\', 'b']
    } else if c == '\t' {
        seq!['\\', 't']
    } else if c == '\n' {
        seq!['\\', 'n']
    } else if c == '\u{c}' {
        seq!['\\', 'f']
    } else if c == '\r' {
        seq!['\\', 'r']
    } else if (c as u32) < 0x20 {
        seq!['\\', 'u', '0', '0', digit_char((c as u32 / 16) as nat), digit_char((c as u32 % 16) as nat)]
    } else {
        seq![c]
    }
}

/// The body of a JSON string literal holding `s`.
pub open spec fn json_escaped(s: Seq<char>) -> Seq<char>
    decreases s.len(),
{
    if s.len() == 0 {
        Seq::empty()
    } else {
        json_escaped(s.drop_last()) + json_escape_char(s.last())
    }
}

/// A JSON string literal holding `s`.
pub open spec fn quoted(s: Seq<char>) -> Seq<char> {
    seq!['"'] + json_escaped(s) + seq!['"']
}

/// Compact JSON text of `j`, with object members in the order they stand.
pub open spec fn json_text(j: JsonV) -> Seq<char>
    decreases j,
{
    match j {
        JsonV::Null => seq!['n', 'u', 'l', 'l'],
        JsonV::Bool(b) => if b {
            seq!['t', 'r', 'u', 'e']
        } else {
            seq!['f', 'a', 'l', 's', 'e']
        },
        JsonV::Number(t) => t,
        JsonV::Str(s) => quoted(s),
        JsonV::Array(items) => seq!['['] + items_text(items) + seq![']'],
        JsonV::Object(entries) => seq!['{'] + entries_text(entries) + seq!['}'],
    }
}

/// The elements of an array, separated by commas.
pub open spec fn items_text(s: Seq<JsonV>) -> Seq<char>
    decreases s,
{
    if s.len() == 0 {
        Seq::empty()
    } else if s.len() == 1 {
        json_text(s[0])
    } else {
        items_text(s.drop_last()) + seq![','] + json_text(s.last())
    }
}

/// The members of an object, as `"key":value`, separated by commas.
pub open spec fn entries_text(s: Seq<(Seq<char>, JsonV)>) -> Seq<char>
    decreases s,
{
    if s.len() == 0 {
        Seq::empty()
    } else if s.len() == 1 {
        quoted(s[0].0) + seq![':'] + json_text(s[0].1)
    } else {
        entries_text(s.drop_last()) + seq![','] + quoted(s.last().0) + seq![':'] + json_text(
            s.last().1,
        )
    }
}

/// Strict order on keys: lexicographic by code point, which is the byte order
/// of their UTF-8 encodings.
pub open spec fn key_lt(a: Seq<char>, b: Seq<char>) -> bool
    decreases a.len(),
{
    if b.len() == 0 {
        false
    } else if a.len() == 0 {
        true
    } else if a[0] != b[0] {
        (a[0] as int) < (b[0] as int)
    } else {
        key_lt(a.drop_first(), b.drop_first())
    }
}

/// Puts the member `(k, v)` into the key-sorted members `s`; a member with the
/// same key is replaced.
pub open spec fn insert_entry(s: Seq<(Seq<char>, JsonV)>, k: Seq<char>, v: JsonV) -> Seq<
    (Seq<char>, JsonV),
>
    decreases s.len(),
{
    if s.len() == 0 {
        seq![(k, v)]
    } else if s[0].0 == k {
        seq![(k, v)] + s.drop_first()
    } else if key_lt(k, s[0].0) {
        seq![(k, v)] + s
    } else {
        seq![s[0]] + insert_entry(s.drop_first(), k, v)
    }
}

/// `j` with the members of every object sorted by key (the last of equal keys
/// kept) and every value below normalised in the same way.
pub open spec fn normalize(j: JsonV) -> JsonV
    decreases j,
{
    match j {
        JsonV::Array(items) => JsonV::Array(normalize_items(items)),
        JsonV::Object(entries) => JsonV::Object(sorted_members(entries)),
        _ => j,
    }
}

/// Array elements, each normalised.
pub open spec fn normalize_items(s: Seq<JsonV>) -> Seq<JsonV>
    decreases s,
{
    if s.len() == 0 {
        Seq::empty()
    } else {
        normalize_items(s.drop_last()).push(normalize(s.last()))
    }
}

/// The members of an object, normalised, inserted one by one in their order.
pub open spec fn sorted_members(s: Seq<(Seq<char>, JsonV)>) -> Seq<(Seq<char>, JsonV)>
    decreases s,
{
    if s.len() == 0 {
        Seq::empty()
    } else {
        insert_entry(sorted_members(s.drop_last()), s.last().0, normalize(s.last().1))
    }
}


/// Object members with strictly increasing keys.
pub open spec fn members_sorted(s: Seq<(Seq<char>, JsonV)>) -> bool {
    forall|i: int, j: int| 0 <= i < j < s.len() ==> key_lt(#[trigger] s[i].0, #[trigger] s[j].0)
}

/// Every object, at every level, has its members in strictly increasing key order.
pub open spec fn is_normal(j: JsonV) -> bool
    decreases j,
{
    match j {
        JsonV::Array(items) => forall|i: int| 0 <= i < items.len() ==> is_normal(#[trigger] items[i]),
        JsonV::Object(es) => members_sorted(es) && forall|i: int|
            0 <= i < es.len() ==> is_normal(#[trigger] es[i].1),
        _ => true,
    }
}


/// No two members share a key.
pub open spec fn keys_distinct(s: Seq<(Seq<char>, JsonV)>) -> bool {
    forall|i: int, j: int| 0 <= i < j < s.len() ==> #[trigger] s[i].0 != #[trigger] s[j].0
}

/// `a` and `b` are the same document up to the order of the members of their
/// objects; arrays keep their order.
pub open spec fn same_up_to_key_order(a: JsonV, b: JsonV) -> bool
    decreases a,
{
    match a {
        JsonV::Array(x) => match b {
            JsonV::Array(y) => x.len() == y.len() && forall|i: int|
                0 <= i < x.len() ==> same_up_to_key_order(#[trigger] x[i], y[i]),
            _ => false,
        },
        JsonV::Object(x) => match b {
            JsonV::Object(y) => {
                &&& keys_distinct(x)
                &&& keys_distinct(y)
                &&& forall|i: int|
                    0 <= i < x.len() ==> exists|j: int|
                        0 <= j < y.len() && (#[trigger] x[i]).0 == (#[trigger] y[j]).0
                            && same_up_to_key_order(x[i].1, y[j].1)
                &&& forall|j: int| 0 <= j < y.len() ==> exists|i: int| 0 <= i < x.len() && (#[trigger] x[i]).0 == (#[trigger] y[j]).0
            },
            _ => false,
        },
        _ => a == b,
    }
}

/// The canonical text of a document.
pub open spec fn canonical_text(j: JsonV) -> Seq<char> {
    json_text(normalize(j))
}

/// The canonical bytes of a document: the UTF-8 encoding of its canonical text.
pub open spec fn canonical_bytes(j: JsonV) -> Seq<u8> {
    vstd::utf8::encode_utf8(canonical_text(j))
}

proof fn lemma_items_view(s: Seq<Json>)
    ensures
        items_view(s).len() == s.len(),
        forall|i: int| 0 <= i < s.len() ==> #[trigger] items_view(s)[i] == json_view(&s[i]),
    decreases s.len(),
{
    if s.len() > 0 {
        lemma_items_view(s.drop_last());
    }
}

proof fn lemma_entries_view(s: Seq<(String, Json)>)
    ensures
        entries_view(s).len() == s.len(),
        forall|i: int|
            0 <= i < s.len() ==> #[trigger] entries_view(s)[i] == (s[i].0@, json_view(&s[i].1)),
    decreases s.len(),
{
    if s.len() > 0 {
        lemma_entries_view(s.drop_last());
    }
}

proof fn lemma_normalize_items(s: Seq<JsonV>)
    ensures
        normalize_items(s).len() == s.len(),
        forall|i: int| 0 <= i < s.len() ==> #[trigger] normalize_items(s)[i] == normalize(s[i]),
    decreases s.len(),
{
    if s.len() > 0 {
        lemma_normalize_items(s.drop_last());
    }
}

proof fn lemma_key_lt_irreflexive(a: Seq<char>)
    ensures
        !key_lt(a, a),
    decreases a.len(),
{
    if a.len() > 0 {
        lemma_key_lt_irreflexive(a.drop_first());
    }
}

proof fn lemma_key_lt_transitive(a: Seq<char>, b: Seq<char>, c: Seq<char>)
    requires
        key_lt(a, b),
        key_lt(b, c),
    ensures
        key_lt(a, c),
    decreases a.len(),
{
    if a.len() > 0 && b.len() > 0 && c.len() > 0 && a[0] == b[0] && b[0] == c[0] {
        lemma_key_lt_transitive(a.drop_first(), b.drop_first(), c.drop_first());
    }
}

proof fn lemma_key_lt_total(a: Seq<char>, b: Seq<char>)
    requires
        a != b,
    ensures
        key_lt(a, b) || key_lt(b, a),
    decreases a.len(),
{
    if a.len() == 0 && b.len() == 0 {
        assert(a =~= b);
    } else if a.len() > 0 && b.len() > 0 && a[0] == b[0] {
        if a.drop_first() == b.drop_first() {
            assert(a =~= seq![a[0]] + a.drop_first());
            assert(b =~= seq![b[0]] + b.drop_first());
        }
        lemma_key_lt_total(a.drop_first(), b.drop_first());
    } else if a.len() > 0 && b.len() > 0 {
        assert((a[0] as int) != (b[0] as int));
    }
}

proof fn lemma_key_lt_asymmetric(a: Seq<char>, b: Seq<char>)
    requires
        key_lt(a, b),
    ensures
        !key_lt(b, a),
        a != b,
{
    lemma_key_lt_irreflexive(a);
    if key_lt(b, a) {
        lemma_key_lt_transitive(a, b, a);
    }
}

/// `b` sorts before every key of `s`.
spec fn below_all(b: Seq<char>, s: Seq<(Seq<char>, JsonV)>) -> bool {
    forall|i: int| 0 <= i < s.len() ==> key_lt(b, #[trigger] s[i].0)
}

proof fn lemma_insert_keeps_bound(s: Seq<(Seq<char>, JsonV)>, k: Seq<char>, v: JsonV, b: Seq<char>)
    requires
        below_all(b, s),
        key_lt(b, k),
    ensures
        below_all(b, insert_entry(s, k, v)),
    decreases s.len(),
{
    if s.len() > 0 && s[0].0 != k && !key_lt(k, s[0].0) {
        lemma_insert_keeps_bound(s.drop_first(), k, v, b);
    }
}

proof fn lemma_insert_keeps_normal(s: Seq<(Seq<char>, JsonV)>, k: Seq<char>, v: JsonV)
    requires
        members_sorted(s),
        forall|i: int| 0 <= i < s.len() ==> is_normal(#[trigger] s[i].1),
        is_normal(v),
    ensures
        members_sorted(insert_entry(s, k, v)),
        forall|i: int|
            0 <= i < insert_entry(s, k, v).len() ==> is_normal(#[trigger] insert_entry(s, k, v)[i].1),
    decreases s.len(),
{
    let r = insert_entry(s, k, v);
    if s.len() == 0 {
    } else if s[0].0 == k {
        assert forall|i: int, j: int| 0 <= i < j < r.len() implies key_lt(#[trigger] r[i].0, #[trigger] r[j].0) by {
            assert(r[i].0 == s[i].0);
            assert(r[j].0 == s[j].0);
        }
        assert forall|i: int| 0 <= i < r.len() implies is_normal(#[trigger] r[i].1) by {
            if i > 0 {
                assert(r[i] == s[i]);
            }
        }
    } else if key_lt(k, s[0].0) {
        assert forall|i: int, j: int| 0 <= i < j < r.len() implies key_lt(#[trigger] r[i].0, #[trigger] r[j].0) by {
            assert(r[j] == s[j - 1]);
            if i == 0 {
                if j > 1 {
                    lemma_key_lt_transitive(k, s[0].0, s[j - 1].0);
                }
            } else {
                assert(r[i] == s[i - 1]);
            }
        }
        assert forall|i: int| 0 <= i < r.len() implies is_normal(#[trigger] r[i].1) by {
            if i > 0 {
                assert(r[i] == s[i - 1]);
            }
        }
    } else {
        let t = s.drop_first();
        lemma_key_lt_total(s[0].0, k);
        lemma_insert_keeps_normal(t, k, v);
        assert(below_all(s[0].0, t));
        lemma_insert_keeps_bound(t, k, v, s[0].0);
        let rt = insert_entry(t, k, v);
        assert(r == seq![s[0]] + rt);
        assert forall|i: int, j: int| 0 <= i < j < r.len() implies key_lt(#[trigger] r[i].0, #[trigger] r[j].0) by {
            assert(r[j] == rt[j - 1]);
            if i > 0 {
                assert(r[i] == rt[i - 1]);
            }
        }
        assert forall|i: int| 0 <= i < r.len() implies is_normal(#[trigger] r[i].1) by {
            if i > 0 {
                assert(r[i] == rt[i - 1]);
            }
        }
    }
}

proof fn lemma_insert_at_end(s: Seq<(Seq<char>, JsonV)>, k: Seq<char>, v: JsonV)
    requires
        forall|i: int| 0 <= i < s.len() ==> key_lt(#[trigger] s[i].0, k),
    ensures
        insert_entry(s, k, v) == s.push((k, v)),
    decreases s.len(),
{
    if s.len() > 0 {
        lemma_key_lt_asymmetric(s[0].0, k);
        lemma_insert_at_end(s.drop_first(), k, v);
        assert(s.push((k, v)) =~= seq![s[0]] + s.drop_first().push((k, v)));
    }
}

proof fn lemma_normalize_gives_normal(j: JsonV)
    ensures
        is_normal(normalize(j)),
    decreases j,
{
    match j {
        JsonV::Array(items) => {
            lemma_normalize_items(items);
            assert forall|i: int| 0 <= i < items.len() implies is_normal(#[trigger] normalize_items(items)[i]) by {
                lemma_normalize_gives_normal(items[i]);
            }
        },
        JsonV::Object(es) => {
            lemma_sorted_members_normal(es);
        },
        _ => {},
    }
}

proof fn lemma_sorted_members_normal(es: Seq<(Seq<char>, JsonV)>)
    ensures
        members_sorted(sorted_members(es)),
        forall|i: int|
            0 <= i < sorted_members(es).len() ==> is_normal(#[trigger] sorted_members(es)[i].1),
    decreases es,
{
    if es.len() > 0 {
        lemma_sorted_members_normal(es.drop_last());
        lemma_normalize_gives_normal(es.last().1);
        lemma_insert_keeps_normal(sorted_members(es.drop_last()), es.last().0, normalize(es.last().1));
    }
}

proof fn lemma_normal_is_fixed(j: JsonV)
    requires
        is_normal(j),
    ensures
        normalize(j) == j,
    decreases j,
{
    match j {
        JsonV::Array(items) => {
            lemma_normalize_items(items);
            assert forall|i: int| 0 <= i < items.len() implies #[trigger] normalize_items(items)[i] == items[i] by {
                lemma_normal_is_fixed(items[i]);
            }
            assert(normalize_items(items) =~= items);
        },
        JsonV::Object(es) => {
            lemma_sorted_members_fixed(es);
        },
        _ => {},
    }
}

proof fn lemma_sorted_members_fixed(es: Seq<(Seq<char>, JsonV)>)
    requires
        members_sorted(es),
        forall|i: int| 0 <= i < es.len() ==> is_normal(#[trigger] es[i].1),
    ensures
        sorted_members(es) == es,
    decreases es,
{
    if es.len() > 0 {
        let init = es.drop_last();
        assert(members_sorted(init));
        assert forall|i: int| 0 <= i < init.len() implies is_normal(#[trigger] init[i].1) by {
            assert(init[i] == es[i]);
        }
        lemma_sorted_members_fixed(init);
        lemma_normal_is_fixed(es.last().1);
        assert forall|i: int| 0 <= i < init.len() implies key_lt(#[trigger] init[i].0, es.last().0) by {
            assert(init[i] == es[i]);
        }
        lemma_insert_at_end(init, es.last().0, es.last().1);
        assert(init.push(es.last()) =~= es);
    }
}

/// Canonicalisation is idempotent: the normal form of a document is its own
/// normal form, so the canonical text of the canonical form is the canonical
/// text of the document. A parser that reads canonical text back yields that
/// normal form, hence canonicalising the parsed value gives the same bytes.
pub proof fn lemma_canonicalize_idempotent(j: JsonV)
    ensures
        is_normal(normalize(j)),
        normalize(normalize(j)) == normalize(j),
        canonical_text(normalize(j)) == canonical_text(j),
        canonical_bytes(normalize(j)) == canonical_bytes(j),
{
    lemma_normalize_gives_normal(j);
    lemma_normal_is_fixed(normalize(j));
}

proof fn lemma_insert_members(s: Seq<(Seq<char>, JsonV)>, k: Seq<char>, v: JsonV, p: (Seq<char>, JsonV))
    requires
        members_sorted(s),
    ensures
        insert_entry(s, k, v).contains(p) <==> (p == (k, v) || (s.contains(p) && p.0 != k)),
    decreases s.len(),
{
    let r = insert_entry(s, k, v);
    if s.len() == 0 {
        assert(r[0] == (k, v));
    } else if s[0].0 == k {
        if r.contains(p) && p != (k, v) {
            let i = choose|i: int| 0 <= i < r.len() && r[i] == p;
            assert(s[i] == p);
            lemma_key_lt_asymmetric(s[0].0, s[i].0);
        }
        if p != (k, v) && s.contains(p) && p.0 != k {
            let i = choose|i: int| 0 <= i < s.len() && s[i] == p;
            assert(r[i] == p);
        }
        assert(r[0] == (k, v));
    } else if key_lt(k, s[0].0) {
        if s.contains(p) {
            let i = choose|i: int| 0 <= i < s.len() && s[i] == p;
            assert(r[i + 1] == p);
            if i > 0 {
                lemma_key_lt_transitive(k, s[0].0, s[i].0);
            }
            lemma_key_lt_asymmetric(k, s[i].0);
        }
        if r.contains(p) && p != (k, v) {
            let i = choose|i: int| 0 <= i < r.len() && r[i] == p;
            assert(s[i - 1] == p);
        }
        assert(r[0] == (k, v));
    } else {
        let t = s.drop_first();
        assert(members_sorted(t));
        lemma_insert_members(t, k, v, p);
        let rt = insert_entry(t, k, v);
        assert(r == seq![s[0]] + rt);
        if p == s[0] {
            assert(r[0] == p);
            assert(s[0] == p);
        }
        if r.contains(p) && p != s[0] {
            let i = choose|i: int| 0 <= i < r.len() && r[i] == p;
            assert(rt[i - 1] == p);
            if t.contains(p) {
                let m = choose|m: int| 0 <= m < t.len() && t[m] == p;
                assert(s[m + 1] == p);
            }
        }
        if s.contains(p) && p != s[0] {
            let i = choose|i: int| 0 <= i < s.len() && s[i] == p;
            assert(t[i - 1] == p);
        }
        if rt.contains(p) {
            let i = choose|i: int| 0 <= i < rt.len() && rt[i] == p;
            assert(r[i + 1] == p);
        }
        if p == (k, v) {
            lemma_key_lt_total(s[0].0, k);
        }
    }
}

/// The members of the sorted form of an object with distinct keys are its
/// members with normalised values.
proof fn lemma_sorted_members_contents(es: Seq<(Seq<char>, JsonV)>, p: (Seq<char>, JsonV))
    requires
        keys_distinct(es),
    ensures
        sorted_members(es).contains(p) <==> exists|i: int|
            0 <= i < es.len() && p == (#[trigger] es[i].0, normalize(es[i].1)),
    decreases es.len(),
{
    if es.len() > 0 {
        let init = es.drop_last();
        let n = es.len() - 1;
        assert(keys_distinct(init));
        lemma_sorted_members_normal(init);
        lemma_insert_members(sorted_members(init), es[n].0, normalize(es[n].1), p);
        lemma_sorted_members_contents(init, p);
        if exists|i: int| 0 <= i < es.len() && p == (#[trigger] es[i].0, normalize(es[i].1)) {
            let i = choose|i: int| 0 <= i < es.len() && p == (#[trigger] es[i].0, normalize(es[i].1));
            if i < n {
                assert(init[i] == es[i]);
                assert(es[i].0 != es[n].0);
            }
        }
        if sorted_members(init).contains(p) && p.0 != es[n].0 {
            let i = choose|i: int| 0 <= i < init.len() && p == (#[trigger] init[i].0, normalize(init[i].1));
            assert(init[i] == es[i]);
        }
    }
}

/// Two key-sorted member lists with the same members are equal.
proof fn lemma_sorted_unique(s: Seq<(Seq<char>, JsonV)>, t: Seq<(Seq<char>, JsonV)>)
    requires
        members_sorted(s),
        members_sorted(t),
        forall|p: (Seq<char>, JsonV)| s.contains(p) <==> t.contains(p),
    ensures
        s == t,
    decreases s.len(),
{
    if s.len() == 0 {
        if t.len() > 0 {
            assert(t.contains(t[0]));
        }
        assert(s =~= t);
    } else {
        assert(s.contains(s[0]));
        assert(t.len() > 0);
        assert(t.contains(t[0]));
        let j = choose|j: int| 0 <= j < t.len() && t[j] == s[0];
        let i = choose|i: int| 0 <= i < s.len() && s[i] == t[0];
        if j > 0 {
            if i > 0 {
                lemma_key_lt_asymmetric(s[0].0, s[i].0);
            } else {
                lemma_key_lt_irreflexive(s[0].0);
            }
        }
        assert(s[0] == t[0]);
        let s1 = s.drop_first();
        let t1 = t.drop_first();
        assert(members_sorted(s1));
        assert(members_sorted(t1));
        assert forall|p: (Seq<char>, JsonV)| s1.contains(p) <==> t1.contains(p) by {
            if s1.contains(p) {
                let a = choose|a: int| 0 <= a < s1.len() && s1[a] == p;
                assert(s[a + 1] == p);
                assert(s.contains(p));
                let b = choose|b: int| 0 <= b < t.len() && t[b] == p;
                lemma_key_lt_asymmetric(s[0].0, s[a + 1].0);
                assert(b != 0);
                assert(t1[b - 1] == p);
            }
            if t1.contains(p) {
                let a = choose|a: int| 0 <= a < t1.len() && t1[a] == p;
                assert(t[a + 1] == p);
                assert(t.contains(p));
                let b = choose|b: int| 0 <= b < s.len() && s[b] == p;
                lemma_key_lt_asymmetric(t[0].0, t[a + 1].0);
                assert(b != 0);
                assert(s1[b - 1] == p);
            }
        }
        lemma_sorted_unique(s1, t1);
        assert(s =~= seq![s[0]] + s1);
        assert(t =~= seq![t[0]] + t1);
    }
}

proof fn lemma_member_carries_over(x: Seq<(Seq<char>, JsonV)>, y: Seq<(Seq<char>, JsonV)>, p: (Seq<char>, JsonV))
    requires
        same_up_to_key_order(JsonV::Object(x), JsonV::Object(y)),
        exists|i: int| 0 <= i < x.len() && p == (#[trigger] x[i].0, normalize(x[i].1)),
    ensures
        exists|j: int| 0 <= j < y.len() && p == (#[trigger] y[j].0, normalize(y[j].1)),
    decreases x, 0nat,
{
    let i = choose|i: int| 0 <= i < x.len() && p == (#[trigger] x[i].0, normalize(x[i].1));
    let j = choose|j: int|
        0 <= j < y.len() && (#[trigger] x[i]).0 == (#[trigger] y[j]).0 && same_up_to_key_order(
            x[i].1,
            y[j].1,
        );
    lemma_key_order_invariant(x[i].1, y[j].1);
    assert(p == (y[j].0, normalize(y[j].1)));
}

proof fn lemma_member_carries_back(x: Seq<(Seq<char>, JsonV)>, y: Seq<(Seq<char>, JsonV)>, p: (Seq<char>, JsonV))
    requires
        same_up_to_key_order(JsonV::Object(x), JsonV::Object(y)),
        exists|j: int| 0 <= j < y.len() && p == (#[trigger] y[j].0, normalize(y[j].1)),
    ensures
        exists|i: int| 0 <= i < x.len() && p == (#[trigger] x[i].0, normalize(x[i].1)),
    decreases x, 0nat,
{
    let j = choose|j: int| 0 <= j < y.len() && p == (#[trigger] y[j].0, normalize(y[j].1));
    let i = choose|i: int| 0 <= i < x.len() && (#[trigger] x[i]).0 == (#[trigger] y[j]).0;
    let j2 = choose|j2: int|
        0 <= j2 < y.len() && (#[trigger] x[i]).0 == (#[trigger] y[j2]).0 && same_up_to_key_order(
            x[i].1,
            y[j2].1,
        );
    if j2 < j {
        assert(y[j2].0 != y[j].0);
    } else if j < j2 {
        assert(y[j].0 != y[j2].0);
    }
    lemma_key_order_invariant(x[i].1, y[j].1);
    assert(p == (x[i].0, normalize(x[i].1)));
}

proof fn lemma_objects_same_members(x: Seq<(Seq<char>, JsonV)>, y: Seq<(Seq<char>, JsonV)>)
    requires
        same_up_to_key_order(JsonV::Object(x), JsonV::Object(y)),
    ensures
        sorted_members(x) == sorted_members(y),
    decreases x, 1nat,
{
    lemma_sorted_members_normal(x);
    lemma_sorted_members_normal(y);
    assert forall|p: (Seq<char>, JsonV)| sorted_members(x).contains(p) <==> sorted_members(y).contains(p) by {
        lemma_sorted_members_contents(x, p);
        lemma_sorted_members_contents(y, p);
        if exists|i: int| 0 <= i < x.len() && p == (#[trigger] x[i].0, normalize(x[i].1)) {
            lemma_member_carries_over(x, y, p);
        }
        if exists|j: int| 0 <= j < y.len() && p == (#[trigger] y[j].0, normalize(y[j].1)) {
            lemma_member_carries_back(x, y, p);
        }
    }
    lemma_sorted_unique(sorted_members(x), sorted_members(y));
}

/// Key-order invariance: two documents that differ only in the order of object
/// members have the same normal form, hence the same canonical bytes.
pub proof fn lemma_key_order_invariant(a: JsonV, b: JsonV)
    requires
        same_up_to_key_order(a, b),
    ensures
        normalize(a) == normalize(b),
        canonical_bytes(a) == canonical_bytes(b),
    decreases a, 2nat,
{
    match a {
        JsonV::Array(x) => {
            let y = b->Array_0;
            lemma_normalize_items(x);
            lemma_normalize_items(y);
            assert forall|i: int| 0 <= i < x.len() implies #[trigger] normalize_items(x)[i]
                == normalize_items(y)[i] by {
                lemma_key_order_invariant(x[i], y[i]);
            }
            assert(normalize_items(x) =~= normalize_items(y));
        },
        JsonV::Object(x) => {
            lemma_objects_same_members(x, b->Object_0);
        },
        _ => {},
    }
}

/// Canonicalising what is read back from canonical bytes changes nothing: a
/// document `y` that is the canonical form of `x` up to the order of object
/// members, as a JSON parser returns it from `x`'s canonical text, has the
/// same canonical bytes as `x`.
pub proof fn lemma_reparse_stable(x: JsonV, y: JsonV)
    requires
        same_up_to_key_order(y, normalize(x)),
    ensures
        canonical_bytes(y) == canonical_bytes(x),
{
    lemma_key_order_invariant(y, normalize(x));
    lemma_canonicalize_idempotent(x);
}

fn digit(d: u32) -> (c: char)
    requires
        d < 16,
    ensures
        c == digit_char(d as nat),
{
    let ds = "0123456789abcdef";
    proof {
        reveal_strlit("0123456789abcdef");
    }
    ds.get_char(d as usize)
}

pub(crate) fn write_decimal(out: &mut String, n: u64)
    ensures
        final(out)@ == old(out)@ + decimal(n as nat),
    decreases n,
{
    if n >= 10 {
        write_decimal(out, n / 10);
    }
    push_char(out, digit((n % 10) as u32));
}

fn write_number(out: &mut String, n: &JsonNumber)
    ensures
        final(out)@ == old(out)@ + n@,
{
    match n {
        JsonNumber::PosInt(u) => write_decimal(out, *u),
        JsonNumber::NegInt(i) => {
            if *i < 0 {
                push_char(out, '-');
                let m: u64 = if *i == i64::MIN {
                    9223372036854775808u64
                } else {
                    (-*i) as u64
                };
                write_decimal(out, m);
                assert(out@ =~= old(out)@ + int_text(*i as int));
            } else {
                write_decimal(out, *i as u64);
            }
        },
        JsonNumber::Float(t) => out.append(t.as_str()),
    }
}

fn push_json_escaped_char(out: &mut String, c: char)
    ensures
        final(out)@ == old(out)@ + json_escape_char(c),
{
    let ghost start = out@;
    if c == '"' || c == '\\' {
        push_char(out, '\\');
        push_char(out, c);
    } else if c == '\u{8}' {
        push_char(out, '\\');
        push_char(out, 'b');
    } else if c == '\t' {
        push_char(out, '\\');
        push_char(out, 't');
    } else if c == '\n' {
        push_char(out, '\\');
        push_char(out, 'n');
    } else if c == '\u{c}' {
        push_char(out, '\\');
        push_char(out, 'f');
    } else if c == '\r' {
        push_char(out, '\\');
        push_char(out, 'r');
    } else if (c as u32) < 0x20 {
        push_char(out, '\\');
        push_char(out, 'u');
        push_char(out, '0');
        push_char(out, '0');
        push_char(out, digit(c as u32 / 16));
        push_char(out, digit(c as u32 % 16));
    } else {
        push_char(out, c);
    }
    assert(out@ =~= start + json_escape_char(c));
}

fn write_quoted(out: &mut String, s: &str)
    ensures
        final(out)@ == old(out)@ + quoted(s@),
{
    let cs = chars_of(s);
    let ghost start = out@;
    push_char(out, '"');
    let mut i: usize = 0;
    while i < cs.len()
        invariant
            i <= cs.len(),
            cs@ == s@,
            out@ == start + seq!['"'] + json_escaped(cs@.take(i as int)),
        decreases cs.len() - i,
    {
        push_json_escaped_char(out, cs[i]);
        assert(cs@.take(i + 1).drop_last() =~= cs@.take(i as int));
        i = i + 1;
    }
    assert(cs@.take(i as int) =~= s@);
    push_char(out, '"');
    assert(out@ =~= start + quoted(s@));
}

/// Appends the compact JSON text of `j`, members in the order they stand.
#[verifier::loop_isolation(false)]
#[verifier::rlimit(40)]
fn write_json(out: &mut String, j: &Json)
    ensures
        final(out)@ == old(out)@ + json_text(j@),
    decreases j,
{
    let ghost start = out@;
    match j {
        Json::Null => {
            push_char(out, 'n');
            push_char(out, 'u');
            push_char(out, 'l');
            push_char(out, 'l');
        },
        Json::Bool(b) => {
            if *b {
                push_char(out, 't');
                push_char(out, 'r');
                push_char(out, 'u');
                push_char(out, 'e');
            } else {
                push_char(out, 'f');
                push_char(out, 'a');
                push_char(out, 'l');
                push_char(out, 's');
                push_char(out, 'e');
            }
        },
        Json::Number(n) => write_number(out, n),
        Json::Str(s) => write_quoted(out, s.as_str()),
        Json::Array(items) => {
            let ghost v = items_view(items@);
            proof {
                lemma_items_view(items@);
            }
            push_char(out, '[');
            let mut i: usize = 0;
            while i < items.len()
                invariant
                    i <= items.len(),
                    v == items_view(items@),
                    v.len() == items.len(),
                    forall|k: int| 0 <= k < items.len() ==> #[trigger] v[k] == json_view(&items@[k]),
                    out@ == start + seq!['['] + items_text(v.take(i as int)),
                decreases items.len() - i,
            {
                if i > 0 {
                    push_char(out, ',');
                }
                proof {
                    vstd::std_specs::vec::axiom_vec_index_decreases(*items, i as int);
                }
                write_json(out, &items[i]);
                assert(v.take(i + 1).drop_last() =~= v.take(i as int));
                i = i + 1;
            }
            assert(v.take(i as int) =~= v);
            push_char(out, ']');
        },
        Json::Object(entries) => {
            let ghost v = entries_view(entries@);
            proof {
                lemma_entries_view(entries@);
            }
            push_char(out, '{');
            let mut i: usize = 0;
            while i < entries.len()
                invariant
                    i <= entries.len(),
                    v == entries_view(entries@),
                    v.len() == entries.len(),
                    forall|k: int|
                        0 <= k < entries.len() ==> #[trigger] v[k] == (
                            entries@[k].0@,
                            json_view(&entries@[k].1),
                        ),
                    out@ == start + seq!['{'] + entries_text(v.take(i as int)),
                decreases entries.len() - i,
            {
                if i > 0 {
                    push_char(out, ',');
                }
                write_quoted(out, entries[i].0.as_str());
                push_char(out, ':');
                proof {
                    vstd::std_specs::vec::axiom_vec_index_decreases(*entries, i as int);
                    assert(decreases_to!(entries@[i as int] => entries@[i as int].1));
                }
                write_json(out, &entries[i].1);
                assert(v.take(i + 1).drop_last() =~= v.take(i as int));
                i = i + 1;
            }
            assert(v.take(i as int) =~= v);
            push_char(out, '}');
        },
    }
    assert(out@ =~= start + json_text(j@));
}

/// Whether key `a` sorts strictly before key `b`.
fn key_less(a: &str, b: &str) -> (r: bool)
    ensures
        r == key_lt(a@, b@),
{
    let x = chars_of(a);
    let y = chars_of(b);
    assert(a@.skip(0) =~= a@);
    assert(b@.skip(0) =~= b@);
    let mut i: usize = 0;
    while i < x.len() && i < y.len() && x[i] == y[i]
        invariant
            i <= x.len(),
            i <= y.len(),
            x@ == a@,
            y@ == b@,
            key_lt(a@, b@) == key_lt(a@.skip(i as int), b@.skip(i as int)),
        decreases x.len() - i,
    {
        assert(a@.skip(i as int).drop_first() =~= a@.skip(i + 1));
        assert(b@.skip(i as int).drop_first() =~= b@.skip(i + 1));
        i = i + 1;
    }
    if i == y.len() {
        false
    } else if i == x.len() {
        true
    } else {
        x[i] < y[i]
    }
}

/// Puts the member `(k, v)` into the key-sorted members `out`.
fn insert_member(out: &mut Vec<(String, Json)>, k: String, v: Json)
    ensures
        entries_view(final(out)@) == insert_entry(entries_view(old(out)@), k@, v@),
{
    let ghost s = entries_view(out@);
    proof {
        lemma_entries_view(out@);
        assert(s.skip(0) =~= s);
    }
    let mut i: usize = 0;
    while i < out.len() && !(out[i].0 == k) && !key_less(k.as_str(), out[i].0.as_str())
        invariant
            i <= out.len(),
            s == entries_view(out@),
            s.len() == out.len(),
            forall|m: int| 0 <= m < out.len() ==> #[trigger] s[m] == (out@[m].0@, json_view(&out@[m].1)),
            insert_entry(s, k@, v@) == s.take(i as int) + insert_entry(s.skip(i as int), k@, v@),
        decreases out.len() - i,
    {
        assert(s.skip(i as int).drop_first() =~= s.skip(i + 1));
        assert(s.take(i + 1) =~= s.take(i as int) + seq![s[i as int]]);
        i = i + 1;
    }
    let ghost expected = insert_entry(s, k@, v@);
    if i < out.len() && out[i].0 == k {
        assert(s.skip(i as int).drop_first() =~= s.skip(i + 1));
        out.set(i, (k, v));
    } else {
        out.insert(i, (k, v));
    }
    proof {
        lemma_entries_view(out@);
        if i < old(out).len() && old(out)@[i as int].0@ == k@ {
            assert(s.skip(i as int).drop_first() =~= s.skip(i + 1));
            assert(entries_view(out@) =~= expected);
        } else if i < old(out).len() {
            assert(entries_view(out@) =~= expected);
        } else {
            assert(s.skip(i as int) =~= Seq::<(Seq<char>, JsonV)>::empty());
            assert(entries_view(out@) =~= expected);
        }
    }
}

fn copy_number(n: &JsonNumber) -> (r: JsonNumber)
    ensures
        r@ == n@,
{
    match n {
        JsonNumber::PosInt(u) => JsonNumber::PosInt(*u),
        JsonNumber::NegInt(i) => JsonNumber::NegInt(*i),
        JsonNumber::Float(t) => JsonNumber::Float(t.clone()),
    }
}

/// `j` with the members of every object sorted by key.
#[verifier::loop_isolation(false)]
pub fn normalized(j: &Json) -> (r: Json)
    ensures
        r@ == normalize(j@),
    decreases j,
{
    match j {
        Json::Null => Json::Null,
        Json::Bool(b) => Json::Bool(*b),
        Json::Number(n) => Json::Number(copy_number(n)),
        Json::Str(s) => Json::Str(s.clone()),
        Json::Array(items) => {
            let ghost v = items_view(items@);
            proof {
                lemma_items_view(items@);
                lemma_normalize_items(v);
            }
            let mut r: Vec<Json> = Vec::new();
            let mut i: usize = 0;
            while i < items.len()
                invariant
                    i <= items.len(),
                    r.len() == i,
                    forall|m: int| 0 <= m < i ==> #[trigger] json_view(&r@[m]) == normalize(v[m]),
                decreases items.len() - i,
            {
                proof {
                    vstd::std_specs::vec::axiom_vec_index_decreases(*items, i as int);
                }
                let x = normalized(&items[i]);
                r.push(x);
                i = i + 1;
            }
            proof {
                lemma_items_view(r@);
                assert(items_view(r@) =~= normalize_items(v));
            }
            Json::Array(r)
        },
        Json::Object(entries) => {
            let ghost v = entries_view(entries@);
            proof {
                lemma_entries_view(entries@);
            }
            let mut r: Vec<(String, Json)> = Vec::new();
            let mut i: usize = 0;
            while i < entries.len()
                invariant
                    i <= entries.len(),
                    entries_view(r@) == sorted_members(v.take(i as int)),
                decreases entries.len() - i,
            {
                proof {
                    vstd::std_specs::vec::axiom_vec_index_decreases(*entries, i as int);
                    assert(decreases_to!(entries@[i as int] => entries@[i as int].1));
                }
                let x = normalized(&entries[i].1);
                let k = entries[i].0.clone();
                insert_member(&mut r, k, x);
                assert(v.take(i + 1).drop_last() =~= v.take(i as int));
                i = i + 1;
            }
            assert(v.take(i as int) =~= v);
            Json::Object(r)
        },
    }
}

/// The canonical bytes of `doc`: object keys sorted at every level, arrays in
/// their order, compact JSON text encoded as UTF-8.
pub fn canonicalize(doc: &Json) -> (r: Vec<u8>)
    ensures
        r@ == canonical_bytes(doc@),
{
    let n = normalized(doc);
    let mut out = String::new();
    write_json(&mut out, &n);
    assert(out@ == canonical_text(doc@));
    slice_to_vec(out.as_str().as_bytes())
}

} // verus!
