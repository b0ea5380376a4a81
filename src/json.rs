use vstd::prelude::*;
use crate::text::{
    compare_text, lemma_text_lt_asymmetric, lemma_text_lt_irreflexive, same_text, lemma_text_lt_transitive, text_lt, TextOrder,
};

verus! {

broadcast use vstd::std_specs::vec::group_vec_axioms;

/// A JSON number, kept as its canonical decimal text together with its value
/// when it is a non-negative integer that fits in `u64`.
#[derive(Debug)]
pub struct JsonNumber {
    text: String,
    unsigned: Option<u64>,
}

/// A JSON value as the provider options carry it.
#[derive(Debug)]
pub enum JsonValue {
    Null,
    Bool(bool),
    Number(JsonNumber),
    Str(String),
    Array(Vec<JsonValue>),
    Object(JsonMap),
}

/// A JSON object: its entries, kept sorted by key with each key once.
#[derive(Debug)]
pub struct JsonMap {
    entries: Vec<(String, JsonValue)>,
}

/// Discriminant bytes that open the encoding of each kind of JSON value.
pub const TAG_NULL: u8 = 0;
pub const TAG_BOOL: u8 = 1;
pub const TAG_NUMBER: u8 = 2;
pub const TAG_STRING: u8 = 3;
pub const TAG_ARRAY: u8 = 4;
pub const TAG_OBJECT: u8 = 5;

/// A byte that never occurs in UTF-8; it closes the encoding of a text.
pub const TEXT_END: u8 = 0xff;

/// The eight little-endian bytes of `n`.
pub open spec fn le_bytes(n: u64) -> Seq<u8> {
    seq![
        (n & 0xff) as u8,
        ((n >> 8) & 0xff) as u8,
        ((n >> 16) & 0xff) as u8,
        ((n >> 24) & 0xff) as u8,
        ((n >> 32) & 0xff) as u8,
        ((n >> 40) & 0xff) as u8,
        ((n >> 48) & 0xff) as u8,
        ((n >> 56) & 0xff) as u8,
    ]
}

/// The encoding of a text: its UTF-8 bytes, then `TEXT_END`.
pub open spec fn text_bytes(s: Seq<char>) -> Seq<u8> {
    vstd::utf8::encode_utf8(s).push(TEXT_END)
}

impl JsonNumber {
    pub closed spec fn spec_text(&self) -> Seq<char> {
        self.text@
    }

    pub closed spec fn spec_unsigned(&self) -> Option<u64> {
        self.unsigned
    }
}

impl JsonMap {
    pub closed spec fn spec_entries(&self) -> Seq<(String, JsonValue)> {
        self.entries@
    }
}

/// The canonical byte encoding of a JSON value that the dedup key hashes: a
/// discriminant byte per kind, texts closed by `TEXT_END`, element counts of
/// arrays and objects as eight bytes, object entries in key order.
pub open spec fn encode(v: JsonValue) -> Seq<u8>
    decreases v,
{
    match v {
        JsonValue::Null => seq![TAG_NULL],
        JsonValue::Bool(b) => seq![TAG_BOOL, if b { 1u8 } else { 0u8 }],
        JsonValue::Number(n) => seq![TAG_NUMBER] + text_bytes(n.spec_text()),
        JsonValue::Str(s) => seq![TAG_STRING] + text_bytes(s@),
        JsonValue::Array(vs) => seq![TAG_ARRAY] + le_bytes(vs@.len() as u64) + encode_items(vs@),
        JsonValue::Object(m) => seq![TAG_OBJECT] + le_bytes(m.spec_entries().len() as u64)
            + encode_entries(m.spec_entries()),
    }
}

/// The encodings of a sequence of values, one after the other.
pub open spec fn encode_items(s: Seq<JsonValue>) -> Seq<u8>
    decreases s,
{
    if s.len() == 0 {
        seq![]
    } else {
        encode_items(s.drop_last()) + encode(s.last())
    }
}

/// The encodings of object entries, each its key's text then its value.
pub open spec fn encode_entries(s: Seq<(String, JsonValue)>) -> Seq<u8>
    decreases s,
{
    if s.len() == 0 {
        seq![]
    } else {
        encode_entries(s.drop_last()) + text_bytes(s.last().0@) + encode(s.last().1)
    }
}

fn push_bytes(out: &mut Vec<u8>, b: &[u8])
    ensures
        final(out)@ == old(out)@ + b@,
{
    let mut i: usize = 0;
    while i < b.len()
        invariant
            i <= b@.len(),
            out@ == old(out)@ + b@.subrange(0, i as int),
        decreases b@.len() - i,
    {
        out.push(b[i]);
        proof {
            assert(b@.subrange(0, i + 1) =~= b@.subrange(0, i as int).push(b@[i as int]));
        }
        i = i + 1;
    }
    proof {
        assert(b@.subrange(0, i as int) =~= b@);
    }
}

fn push_text(out: &mut Vec<u8>, s: &str)
    ensures
        final(out)@ == old(out)@ + text_bytes(s@),
{
    push_bytes(out, s.as_bytes());
    out.push(TEXT_END);
    proof {
        assert(old(out)@ + text_bytes(s@) =~= old(out)@ + vstd::utf8::encode_utf8(s@) + seq![TEXT_END]);
    }
}

fn push_le(out: &mut Vec<u8>, n: u64)
    ensures
        final(out)@ == old(out)@ + le_bytes(n),
{
    out.push((n & 0xff) as u8);
    out.push(((n >> 8) & 0xff) as u8);
    out.push(((n >> 16) & 0xff) as u8);
    out.push(((n >> 24) & 0xff) as u8);
    out.push(((n >> 32) & 0xff) as u8);
    out.push(((n >> 40) & 0xff) as u8);
    out.push(((n >> 48) & 0xff) as u8);
    out.push(((n >> 56) & 0xff) as u8);
    proof {
        assert(final(out)@ =~= old(out)@ + le_bytes(n));
    }
}

/// Appends the canonical encoding of `v` to `out`.
pub fn write_json(v: &JsonValue, out: &mut Vec<u8>)
    ensures
        final(out)@ == old(out)@ + encode(*v),
    decreases v,
{
    match v {
        JsonValue::Null => {
            out.push(TAG_NULL);
            proof { assert(final(out)@ =~= old(out)@ + encode(*v)); }
        }
        JsonValue::Bool(b) => {
            out.push(TAG_BOOL);
            out.push(if *b { 1u8 } else { 0u8 });
            proof { assert(final(out)@ =~= old(out)@ + encode(*v)); }
        }
        JsonValue::Number(n) => {
            out.push(TAG_NUMBER);
            push_text(out, n.text.as_str());
            proof { assert(final(out)@ =~= old(out)@ + encode(*v)); }
        }
        JsonValue::Str(s) => {
            out.push(TAG_STRING);
            push_text(out, s.as_str());
            proof { assert(final(out)@ =~= old(out)@ + encode(*v)); }
        }
        JsonValue::Array(vs) => {
            out.push(TAG_ARRAY);
            push_le(out, vs.len() as u64);
            let ghost start = out@;
            let mut i: usize = 0;
            while i < vs.len()
                invariant
                    *v == JsonValue::Array(*vs),
                    i <= vs@.len(),
                    out@ == start + encode_items(vs@.subrange(0, i as int)),
                decreases vs@.len() - i,
            {
                proof {
                    assert(decreases_to!(*v => v->Array_0));
                    assert(decreases_to!(*vs => vs[i as int]));
                }
                write_json(&vs[i], out);
                proof {
                    assert(vs@.subrange(0, i + 1).drop_last() =~= vs@.subrange(0, i as int));
                }
                i = i + 1;
            }
            proof {
                assert(vs@.subrange(0, i as int) =~= vs@);
                assert(final(out)@ =~= old(out)@ + encode(*v));
            }
        }
        JsonValue::Object(m) => {
            out.push(TAG_OBJECT);
            push_le(out, m.entries.len() as u64);
            let ghost start = out@;
            let mut i: usize = 0;
            while i < m.entries.len()
                invariant
                    *v == JsonValue::Object(*m),
                    i <= m.entries@.len(),
                    out@ == start + encode_entries(m.entries@.subrange(0, i as int)),
                decreases m.entries@.len() - i,
            {
                let e = &m.entries[i];
                proof {
                    assert(decreases_to!(*v => v->Object_0));
                    assert(decreases_to!(*m => m.entries));
                    assert(decreases_to!(m.entries => m.entries[i as int]));
                    assert(decreases_to!(*e => e.1));
                }
                push_text(out, e.0.as_str());
                write_json(&e.1, out);
                proof {
                    assert(m.entries@.subrange(0, i + 1).drop_last() =~= m.entries@.subrange(0, i as int));
                }
                i = i + 1;
            }
            proof {
                assert(m.entries@.subrange(0, i as int) =~= m.entries@);
                assert(final(out)@ =~= old(out)@ + encode(*v));
            }
        }
    }
}

/// Keys strictly increase along the entries, so each key occurs once.
pub open spec fn sorted_entries(s: Seq<(String, JsonValue)>) -> bool {
    forall|p: int, q: int| 0 <= p < q < s.len() ==> text_lt(#[trigger] s[p].0@, #[trigger] s[q].0@)
}

/// The entries hold key `k` with value `v`.
pub open spec fn holds_entry(s: Seq<(String, JsonValue)>, k: Seq<char>, v: JsonValue) -> bool {
    exists|i: int| 0 <= i < s.len() && (#[trigger] s[i]).0@ == k && s[i].1 == v
}

/// The value of the first entry with key `k`.
pub open spec fn lookup_in(s: Seq<(String, JsonValue)>, k: Seq<char>) -> Option<JsonValue>
    decreases s.len(),
{
    if s.len() == 0 {
        None
    } else if s[0].0@ == k {
        Some(s[0].1)
    } else {
        lookup_in(s.drop_first(), k)
    }
}

/// The entries hold key `k`.
pub open spec fn holds_key(s: Seq<(String, JsonValue)>, k: Seq<char>) -> bool {
    exists|i: int| 0 <= i < s.len() && (#[trigger] s[i]).0@ == k
}

impl JsonMap {
    /// Well formed: keys in increasing order, each once.
    pub open spec fn wf(&self) -> bool {
        sorted_entries(self.spec_entries())
    }

    /// Every value in the map is well formed.
    pub open spec fn values_wf(&self) -> bool {
        forall|i: int| 0 <= i < self.spec_entries().len() ==> json_wf(#[trigger] self.spec_entries()[i].1)
    }

    /// The map holds key `k` with value `v`.
    pub open spec fn has(&self, k: Seq<char>, v: JsonValue) -> bool {
        holds_entry(self.spec_entries(), k, v)
    }

    /// The map holds key `k`.
    pub open spec fn has_key(&self, k: Seq<char>) -> bool {
        holds_key(self.spec_entries(), k)
    }

    /// An empty object.
    pub fn new() -> (r: JsonMap)
        ensures
            r.wf(),
            r.spec_entries().len() == 0,
    {
        JsonMap { entries: Vec::new() }
    }

    /// The number of entries.
    pub fn len(&self) -> (r: usize)
        ensures
            r == self.spec_entries().len(),
    {
        self.entries.len()
    }

    /// The key of the `i`-th entry in key order.
    pub fn key_at(&self, i: usize) -> (r: &String)
        requires
            i < self.spec_entries().len(),
        ensures
            *r == self.spec_entries()[i as int].0,
    {
        &self.entries[i].0
    }

    /// The value of the `i`-th entry in key order.
    pub fn value_at(&self, i: usize) -> (r: &JsonValue)
        requires
            i < self.spec_entries().len(),
        ensures
            *r == self.spec_entries()[i as int].1,
    {
        &self.entries[i].1
    }

    /// Sets `key` to `value`, replacing the value that the key had.
    pub fn insert(&mut self, key: String, value: JsonValue)
        requires
            old(self).wf(),
        ensures
            final(self).wf(),
            old(self).values_wf() && json_wf(value) ==> final(self).values_wf(),
            forall|k: Seq<char>, v: JsonValue|
                final(self).has(k, v) <==> ((k == key@ && v == value) || (k != key@ && old(self).has(k, v))),
    {
        let ghost old_entries = self.entries@;
        let mut i: usize = 0;
        while i < self.entries.len()
            && compare_text(self.entries[i].0.as_str(), key.as_str()) == TextOrder::Less
            invariant
                self.entries@ == old_entries,
                i <= old_entries.len(),
                forall|p: int| 0 <= p < i ==> text_lt(#[trigger] old_entries[p].0@, key@),
            decreases old_entries.len() - i,
        {
            i = i + 1;
        }
        let found = i < self.entries.len() && same_text(self.entries[i].0.as_str(), key.as_str());
        if found {
            let ghost kv = key@;
            self.entries.set(i, (key, value));
            proof {
                let s = self.entries@;
                assert(s[i as int].0@ == old_entries[i as int].0@);
                assert forall|p: int| 0 <= p < s.len() && p != i implies #[trigger] s[p] == old_entries[p] by {}
                assert forall|p: int, q: int| 0 <= p < q < s.len() implies text_lt(#[trigger] s[p].0@, #[trigger] s[q].0@) by {
                    assert(old_entries[p].0@ == s[p].0@);
                    assert(old_entries[q].0@ == s[q].0@);
                }
                assert forall|k: Seq<char>, v: JsonValue|
                    holds_entry(s, k, v) <==> ((k == kv && v == value) || (k != kv && holds_entry(old_entries, k, v))) by {
                    if holds_entry(s, k, v) {
                        let j = choose|j: int| 0 <= j < s.len() && (#[trigger] s[j]).0@ == k && s[j].1 == v;
                        if j != i {
                            assert(old_entries[j] == s[j]);
                            if k == kv {
                                lemma_text_lt_irreflexive(kv);
                            }
                        }
                    }
                    if k != kv && holds_entry(old_entries, k, v) {
                        let j = choose|j: int| 0 <= j < old_entries.len() && (#[trigger] old_entries[j]).0@ == k && old_entries[j].1 == v;
                        assert(s[j] == old_entries[j]);
                    }
                    if k == kv && v == value {
                        assert(s[i as int].0@ == k && s[i as int].1 == v);
                    }
                }
            }
        } else {
            let ghost kv = key@;
            proof {
                if i < old_entries.len() {
                    assert(text_lt(kv, old_entries[i as int].0@));
                }
            }
            self.entries.insert(i, (key, value));
            proof {
                let s = self.entries@;
                assert(s == old_entries.insert(i as int, s[i as int]));
                assert(s[i as int].1 == value);
                assert(s[i as int].0@ == kv);
                assert forall|p: int| 0 <= p < s.len() && p != i implies (#[trigger] s[p]) == (if p < i { old_entries[p] } else { old_entries[p - 1] }) by {}
                assert forall|p: int, q: int| 0 <= p < q < s.len() implies text_lt(#[trigger] s[p].0@, #[trigger] s[q].0@) by {
                    if q == i {
                        assert(s[p] == old_entries[p]);
                        assert(text_lt(old_entries[p].0@, kv));
                    } else if p == i {
                        assert(s[q] == old_entries[q - 1]);
                        assert(text_lt(kv, old_entries[i as int].0@));
                        if q - 1 > i {
                            assert(text_lt(old_entries[i as int].0@, old_entries[q - 1].0@));
                            lemma_text_lt_transitive(kv, old_entries[i as int].0@, old_entries[q - 1].0@);
                        }
                    } else if p < i {
                        assert(s[p] == old_entries[p]);
                        if q < i {
                            assert(s[q] == old_entries[q]);
                            assert(text_lt(old_entries[p].0@, old_entries[q].0@));
                        } else {
                            assert(s[q] == old_entries[q - 1]);
                            assert(text_lt(old_entries[p].0@, old_entries[q - 1].0@));
                        }
                    } else {
                        assert(s[p] == old_entries[p - 1]);
                        assert(s[q] == old_entries[q - 1]);
                        assert(text_lt(old_entries[p - 1].0@, old_entries[q - 1].0@));
                    }
                }
                assert forall|k: Seq<char>, v: JsonValue|
                    holds_entry(s, k, v) <==> ((k == kv && v == value) || (k != kv && holds_entry(old_entries, k, v))) by {
                    if holds_entry(s, k, v) {
                        let j = choose|j: int| 0 <= j < s.len() && (#[trigger] s[j]).0@ == k && s[j].1 == v;
                        if j != i {
                            let oj = if j < i { j } else { j - 1 };
                            assert(old_entries[oj] == s[j]);
                            if k == kv {
                                if oj < i {
                                    lemma_text_lt_irreflexive(kv);
                                } else {
                                    if oj > i {
                                        lemma_text_lt_transitive(kv, old_entries[i as int].0@, old_entries[oj].0@);
                                    }
                                    lemma_text_lt_irreflexive(kv);
                                }
                            }
                        }
                    }
                    if k != kv && holds_entry(old_entries, k, v) {
                        let j = choose|j: int| 0 <= j < old_entries.len() && (#[trigger] old_entries[j]).0@ == k && old_entries[j].1 == v;
                        let sj = if j < i { j } else { j + 1 };
                        assert(s[sj] == old_entries[j]);
                    }
                    if k == kv && v == value {
                        assert(s[i as int].0@ == k && s[i as int].1 == v);
                    }
                }
            }
        }
    }
}

impl JsonMap {
    /// The value stored under `key`, if any.
    pub fn get(&self, key: &str) -> (r: Option<&JsonValue>)
        ensures
            r is None <==> !self.has_key(key@),
            r is Some ==> self.has(key@, *r->0),
            r is None <==> self.lookup(key@) is None,
            r is Some ==> *r->0 == self.lookup(key@)->0,
    {
        let mut i: usize = 0;
        proof {
            assert(self.entries@.skip(0) =~= self.entries@);
        }
        while i < self.entries.len()
            invariant
                i <= self.entries@.len(),
                forall|p: int| 0 <= p < i ==> (#[trigger] self.entries@[p]).0@ != key@,
                lookup_in(self.entries@, key@) == lookup_in(self.entries@.skip(i as int), key@),
            decreases self.entries@.len() - i,
        {
            if same_text(self.entries[i].0.as_str(), key) {
                proof {
                    assert(self.entries@[i as int].0@ == key@);
                    assert(self.entries@.skip(i as int)[0] == self.entries@[i as int]);
                }
                return Some(&self.entries[i].1);
            }
            proof {
                assert(self.entries@.skip(i as int).drop_first() =~= self.entries@.skip(i + 1));
            }
            i = i + 1;
        }
        None
    }

    /// The value under key `k`: that of the first entry with that key.
    pub open spec fn lookup(&self, k: Seq<char>) -> Option<JsonValue> {
        lookup_in(self.spec_entries(), k)
    }

    /// Whether `key` is present.
    pub fn contains_key(&self, key: &str) -> (r: bool)
        ensures
            r == self.has_key(key@),
    {
        self.get(key).is_some()
    }
}

/// The decimal digit `d` (below ten) as a character.
pub open spec fn digit_char(d: nat) -> char {
    seq!['0', '1', '2', '3', '4', '5', '6', '7', '8', '9'][d as int]
}

/// The decimal numeral of `n`, without leading zeros.
pub open spec fn decimal_text(n: nat) -> Seq<char>
    decreases n,
{
    if n < 10 {
        seq![digit_char(n)]
    } else {
        decimal_text(n / 10).push(digit_char(n % 10))
    }
}

/// The numeral of a signed integer: a minus sign before negative ones.
pub open spec fn signed_text(n: int) -> Seq<char> {
    if n < 0 {
        seq!['-'] + decimal_text((-n) as nat)
    } else {
        decimal_text(n as nat)
    }
}

/// Relies on `u64`'s `to_string` (its `Display`): the decimal numeral, no sign,
/// no leading zeros.
#[verifier::external_body]
fn u64_text(n: u64) -> (r: String)
    ensures
        r@ == decimal_text(n as nat),
{
    n.to_string()
}

/// Relies on `i64`'s `to_string` (its `Display`): the decimal numeral, with a
/// minus sign when negative.
#[verifier::external_body]
fn i64_text(n: i64) -> (r: String)
    ensures
        r@ == signed_text(n as int),
{
    n.to_string()
}

impl JsonNumber {
    /// A non-negative integer.
    pub fn from_u64(n: u64) -> (r: JsonNumber)
        ensures
            r.spec_text() == decimal_text(n as nat),
            r.spec_unsigned() == Some(n),
    {
        JsonNumber { text: u64_text(n), unsigned: Some(n) }
    }

    /// A signed integer.
    pub fn from_i64(n: i64) -> (r: JsonNumber)
        ensures
            r.spec_text() == signed_text(n as int),
            r.spec_unsigned() == (if n >= 0 { Some(n as u64) } else { None::<u64> }),
    {
        if n >= 0 {
            JsonNumber::from_u64(n as u64)
        } else {
            JsonNumber { text: i64_text(n), unsigned: None }
        }
    }

    /// A number that is not an integer, given by its canonical numeral (such as
    /// `0.5`). It has no unsigned integer value.
    pub fn from_float_text(text: String) -> (r: JsonNumber)
        ensures
            r.spec_text() == text@,
            r.spec_unsigned() is None,
    {
        JsonNumber { text, unsigned: None }
    }

    /// The canonical numeral.
    pub fn text(&self) -> (r: &String)
        ensures
            r@ == self.spec_text(),
    {
        &self.text
    }

    /// The value, when the number is a non-negative integer that fits in `u64`.
    pub fn as_u64(&self) -> (r: Option<u64>)
        ensures
            r == self.spec_unsigned(),
    {
        self.unsigned
    }
}

impl JsonValue {
    /// The value, when this is a non-negative integer that fits in `u64`.
    pub fn as_u64(&self) -> (r: Option<u64>)
        ensures
            r == (match *self {
                JsonValue::Number(n) => n.spec_unsigned(),
                _ => None,
            }),
    {
        match self {
            JsonValue::Number(n) => n.as_u64(),
            _ => None,
        }
    }

    /// The text, when this is a string.
    pub fn as_str(&self) -> (r: Option<&String>)
        ensures
            r is Some <==> *self is Str,
            r is Some ==> *r->0 == self->Str_0,
    {
        match self {
            JsonValue::Str(s) => Some(s),
            _ => None,
        }
    }

    /// The elements, when this is an array.
    pub fn as_array(&self) -> (r: Option<&Vec<JsonValue>>)
        ensures
            r is Some <==> *self is Array,
            r is Some ==> *r->0 == self->Array_0,
    {
        match self {
            JsonValue::Array(vs) => Some(vs),
            _ => None,
        }
    }

    /// The entries, when this is an object.
    pub fn as_object(&self) -> (r: Option<&JsonMap>)
        ensures
            r is Some <==> *self is Object,
            r is Some ==> *r->0 == self->Object_0,
    {
        match self {
            JsonValue::Object(m) => Some(m),
            _ => None,
        }
    }

    pub fn is_string(&self) -> (r: bool)
        ensures
            r == *self is Str,
    {
        matches!(self, JsonValue::Str(_))
    }

    pub fn is_boolean(&self) -> (r: bool)
        ensures
            r == *self is Bool,
    {
        matches!(self, JsonValue::Bool(_))
    }

    pub fn is_null(&self) -> (r: bool)
        ensures
            r == *self is Null,
    {
        matches!(self, JsonValue::Null)
    }
}

/// Every object inside the value, at any depth, keeps its keys sorted and
/// unique.
pub open spec fn json_wf(v: JsonValue) -> bool
    decreases v,
{
    match v {
        JsonValue::Array(vs) => forall|i: int| 0 <= i < vs@.len() ==> json_wf(#[trigger] vs@[i]),
        JsonValue::Object(m) => m.wf() && forall|i: int|
            0 <= i < m.spec_entries().len() ==> json_wf(#[trigger] m.spec_entries()[i].1),
        _ => true,
    }
}

/// Structural equality of JSON values up to the order of object keys: same
/// kinds, same scalars, arrays equal element by element in order, objects with
/// the same keys whose values are again equal in this sense.
pub open spec fn json_equiv(a: JsonValue, b: JsonValue) -> bool
    decreases a,
{
    match a {
        JsonValue::Null => b is Null,
        JsonValue::Bool(x) => b is Bool && b->Bool_0 == x,
        JsonValue::Number(n) => b is Number && b->Number_0.spec_text() == n.spec_text(),
        JsonValue::Str(t) => b is Str && b->Str_0@ == t@,
        JsonValue::Array(vs) => b is Array && vs@.len() == b->Array_0@.len() && forall|i: int|
            0 <= i < vs@.len() ==> json_equiv(#[trigger] vs@[i], b->Array_0@[i]),
        JsonValue::Object(m) => b is Object && same_keys(m.spec_entries(), b->Object_0.spec_entries())
            && forall|i: int, j: int|
            0 <= i < m.spec_entries().len() && 0 <= j < b->Object_0.spec_entries().len()
                && #[trigger] m.spec_entries()[i].0@ == #[trigger] b->Object_0.spec_entries()[j].0@
                ==> json_equiv(m.spec_entries()[i].1, b->Object_0.spec_entries()[j].1),
    }
}

/// Each key of either entry sequence is a key of the other.
pub open spec fn same_keys(am: Seq<(String, JsonValue)>, bm: Seq<(String, JsonValue)>) -> bool {
    &&& forall|i: int| 0 <= i < am.len() ==> keys_of(bm).contains(#[trigger] keys_of(am)[i])
    &&& forall|j: int| 0 <= j < bm.len() ==> keys_of(am).contains(#[trigger] keys_of(bm)[j])
}

/// Texts in strictly increasing order.
pub open spec fn texts_sorted(a: Seq<Seq<char>>) -> bool {
    forall|p: int, q: int| 0 <= p < q < a.len() ==> text_lt(#[trigger] a[p], #[trigger] a[q])
}

/// The keys of object entries, in order.
pub open spec fn keys_of(s: Seq<(String, JsonValue)>) -> Seq<Seq<char>> {
    Seq::new(s.len(), |i: int| s[i].0@)
}

/// Two strictly increasing sequences of texts that hold the same texts are
/// the same sequence.
pub proof fn lemma_sorted_texts_unique(a: Seq<Seq<char>>, b: Seq<Seq<char>>)
    requires
        texts_sorted(a),
        texts_sorted(b),
        forall|i: int| 0 <= i < a.len() ==> b.contains(#[trigger] a[i]),
        forall|j: int| 0 <= j < b.len() ==> a.contains(#[trigger] b[j]),
    ensures
        a == b,
    decreases a.len(),
{
    if a.len() == 0 {
        if b.len() > 0 {
            assert(a.contains(b[0]));
        }
        assert(a =~= b);
    } else {
        assert(b.contains(a[0]));
        let j0 = choose|j: int| 0 <= j < b.len() && b[j] == a[0];
        assert(a.contains(b[0]));
        let i0 = choose|i: int| 0 <= i < a.len() && a[i] == b[0];
        if j0 > 0 {
            assert(text_lt(b[0], b[j0]));
            lemma_text_lt_irreflexive(a[0]);
            if i0 > 0 {
                assert(text_lt(a[0], a[i0]));
                lemma_text_lt_asymmetric(a[0], a[i0]);
            }
        }
        assert(b[0] == a[0]);
        let a1 = a.drop_first();
        let b1 = b.drop_first();
        assert forall|i: int| 0 <= i < a1.len() implies b1.contains(#[trigger] a1[i]) by {
            assert(a1[i] == a[i + 1]);
            assert(b.contains(a[i + 1]));
            let j = choose|j: int| 0 <= j < b.len() && b[j] == a[i + 1];
            if j == 0 {
                assert(text_lt(a[0], a[i + 1]));
                lemma_text_lt_irreflexive(a[0]);
            }
            assert(b1[j - 1] == b[j]);
        }
        assert forall|j: int| 0 <= j < b1.len() implies a1.contains(#[trigger] b1[j]) by {
            assert(b1[j] == b[j + 1]);
            assert(a.contains(b[j + 1]));
            let i = choose|i: int| 0 <= i < a.len() && a[i] == b[j + 1];
            if i == 0 {
                assert(text_lt(b[0], b[j + 1]));
                lemma_text_lt_irreflexive(b[0]);
            }
            assert(a1[i - 1] == a[i]);
        }
        assert(texts_sorted(a1)) by {
            assert forall|p: int, q: int| 0 <= p < q < a1.len() implies text_lt(#[trigger] a1[p], #[trigger] a1[q]) by {
                assert(a1[p] == a[p + 1] && a1[q] == a[q + 1]);
            }
        }
        assert(texts_sorted(b1)) by {
            assert forall|p: int, q: int| 0 <= p < q < b1.len() implies text_lt(#[trigger] b1[p], #[trigger] b1[q]) by {
                assert(b1[p] == b[p + 1] && b1[q] == b[q + 1]);
            }
        }
        lemma_sorted_texts_unique(a1, b1);
        assert(a =~= seq![a[0]] + a1);
        assert(b =~= seq![b[0]] + b1);
    }
}

proof fn lemma_equiv_items(s1: Seq<JsonValue>, s2: Seq<JsonValue>)
    requires
        s1.len() == s2.len(),
        forall|i: int| 0 <= i < s1.len() ==> json_wf(#[trigger] s1[i]) && json_wf(s2[i]) && json_equiv(s1[i], s2[i]),
    ensures
        encode_items(s1) == encode_items(s2),
    decreases s1,
{
    if s1.len() > 0 {
        let n = s1.len() - 1;
        assert(s1.drop_last().len() == s2.drop_last().len());
        assert forall|i: int| 0 <= i < s1.drop_last().len() implies json_wf(#[trigger] s1.drop_last()[i]) && json_wf(s2.drop_last()[i]) && json_equiv(s1.drop_last()[i], s2.drop_last()[i]) by {
            assert(s1.drop_last()[i] == s1[i]);
            assert(s2.drop_last()[i] == s2[i]);
        }
        lemma_equiv_items(s1.drop_last(), s2.drop_last());
        assert(json_wf(s1[n]));
        lemma_equiv_encode(s1.last(), s2.last());
    }
}

proof fn lemma_equiv_entries(s1: Seq<(String, JsonValue)>, s2: Seq<(String, JsonValue)>)
    requires
        s1.len() == s2.len(),
        forall|i: int| 0 <= i < s1.len() ==> (#[trigger] s1[i]).0@ == s2[i].0@ && json_wf(s1[i].1) && json_wf(s2[i].1) && json_equiv(s1[i].1, s2[i].1),
    ensures
        encode_entries(s1) == encode_entries(s2),
    decreases s1,
{
    if s1.len() > 0 {
        let n = s1.len() - 1;
        assert forall|i: int| 0 <= i < s1.drop_last().len() implies (#[trigger] s1.drop_last()[i]).0@ == s2.drop_last()[i].0@ && json_wf(s1.drop_last()[i].1) && json_wf(s2.drop_last()[i].1) && json_equiv(s1.drop_last()[i].1, s2.drop_last()[i].1) by {
            assert(s1.drop_last()[i] == s1[i]);
            assert(s2.drop_last()[i] == s2[i]);
        }
        lemma_equiv_entries(s1.drop_last(), s2.drop_last());
        assert(s1[n].0@ == s2[n].0@);
        assert(decreases_to!(s1 => s1[n]));
        lemma_equiv_encode(s1.last().1, s2.last().1);
    }
}

proof fn lemma_equiv_object(m: JsonMap, n: JsonMap)
    requires
        m.wf(),
        n.wf(),
        forall|i: int| 0 <= i < m.spec_entries().len() ==> json_wf(#[trigger] m.spec_entries()[i].1),
        forall|i: int| 0 <= i < n.spec_entries().len() ==> json_wf(#[trigger] n.spec_entries()[i].1),
        same_keys(m.spec_entries(), n.spec_entries()),
        forall|i: int, j: int|
            0 <= i < m.spec_entries().len() && 0 <= j < n.spec_entries().len()
                && #[trigger] m.spec_entries()[i].0@ == #[trigger] n.spec_entries()[j].0@
                ==> json_equiv(m.spec_entries()[i].1, n.spec_entries()[j].1),
    ensures
        m.spec_entries().len() == n.spec_entries().len(),
        encode_entries(m.spec_entries()) == encode_entries(n.spec_entries()),
    decreases m,
{
    let am = m.spec_entries();
    let bm = n.spec_entries();
    let ka = keys_of(am);
    let kb = keys_of(bm);
    assert(texts_sorted(ka)) by {
        assert forall|p: int, q: int| 0 <= p < q < ka.len() implies text_lt(#[trigger] ka[p], #[trigger] ka[q]) by {
            assert(ka[p] == am[p].0@ && ka[q] == am[q].0@);
        }
    }
    assert(texts_sorted(kb)) by {
        assert forall|p: int, q: int| 0 <= p < q < kb.len() implies text_lt(#[trigger] kb[p], #[trigger] kb[q]) by {
            assert(kb[p] == bm[p].0@ && kb[q] == bm[q].0@);
        }
    }
    lemma_sorted_texts_unique(ka, kb);
    assert(am.len() == ka.len() && bm.len() == kb.len());
    assert forall|i: int| 0 <= i < am.len() implies (#[trigger] am[i]).0@ == bm[i].0@ && json_wf(am[i].1) && json_wf(bm[i].1) && json_equiv(am[i].1, bm[i].1) by {
        assert(ka[i] == am[i].0@ && kb[i] == bm[i].0@);
    }
    assert(decreases_to!(m => m.entries));
    lemma_equiv_entries(am, bm);
}

/// Values equal up to the order of object keys have the same encoding.
pub proof fn lemma_equiv_encode(a: JsonValue, b: JsonValue)
    requires
        json_wf(a),
        json_wf(b),
        json_equiv(a, b),
    ensures
        encode(a) == encode(b),
    decreases a,
{
    match a {
        JsonValue::Array(vs) => {
            let ws = b->Array_0;
            assert(decreases_to!(a => vs));
            assert(vs@.len() == ws@.len());
            lemma_equiv_items(vs@, ws@);
            assert(encode(a) == seq![TAG_ARRAY] + le_bytes(vs@.len() as u64) + encode_items(vs@));
            assert(encode(b) == seq![TAG_ARRAY] + le_bytes(ws@.len() as u64) + encode_items(ws@));
            assert(encode(a) == encode(b));
        }
        JsonValue::Object(m) => {
            let n = b->Object_0;
            assert(decreases_to!(a => m));
            lemma_equiv_object(m, n);
            assert(encode(a) == encode(b));
        }
        JsonValue::Null => {
            assert(b is Null);
        }
        JsonValue::Bool(x) => {
            assert(b == JsonValue::Bool(x));
        }
        JsonValue::Number(x) => {
            assert(encode(b) == seq![TAG_NUMBER] + text_bytes(b->Number_0.spec_text()));
        }
        JsonValue::Str(x) => {
            assert(encode(b) == seq![TAG_STRING] + text_bytes(b->Str_0@));
        }
    }
}

/// Values of different kinds never share an encoding: their first bytes, the
/// discriminants, differ. So `null`, `false`, `0`, `""`, `[]` and `{}` all
/// give different keys' inputs.
pub proof fn lemma_kinds_encode_apart(a: JsonValue, b: JsonValue)
    requires
        kind_of(a) != kind_of(b),
    ensures
        encode(a) != encode(b),
{
    assert(encode(a)[0] == kind_of(a));
    assert(encode(b)[0] == kind_of(b));
}

/// The discriminant byte of a value's kind.
pub open spec fn kind_of(v: JsonValue) -> u8 {
    match v {
        JsonValue::Null => TAG_NULL,
        JsonValue::Bool(_) => TAG_BOOL,
        JsonValue::Number(_) => TAG_NUMBER,
        JsonValue::Str(_) => TAG_STRING,
        JsonValue::Array(_) => TAG_ARRAY,
        JsonValue::Object(_) => TAG_OBJECT,
    }
}

impl JsonNumber {
    /// A copy of the number.
    pub fn copy(&self) -> (r: JsonNumber)
        ensures
            r == *self,
    {
        JsonNumber { text: self.text.clone(), unsigned: self.unsigned }
    }
}

impl JsonValue {
    /// A deep copy of the value: the same kind, the same content, so the same
    /// encoding.
    pub fn copy(&self) -> (r: JsonValue)
        ensures
            encode(r) == encode(*self),
            kind_of(r) == kind_of(*self),
        decreases self,
    {
        match self {
            JsonValue::Null => JsonValue::Null,
            JsonValue::Bool(b) => JsonValue::Bool(*b),
            JsonValue::Number(n) => JsonValue::Number(n.copy()),
            JsonValue::Str(t) => JsonValue::Str(t.clone()),
            JsonValue::Array(vs) => {
                let mut out: Vec<JsonValue> = Vec::new();
                let mut i: usize = 0;
                while i < vs.len()
                    invariant
                        *self == JsonValue::Array(*vs),
                        i <= vs@.len(),
                        out@.len() == i,
                        encode_items(out@) == encode_items(vs@.subrange(0, i as int)),
                    decreases vs@.len() - i,
                {
                    proof {
                        assert(decreases_to!(*self => self->Array_0));
                        assert(decreases_to!(*vs => vs[i as int]));
                    }
                    let c = vs[i].copy();
                    let ghost before = out@;
                    out.push(c);
                    proof {
                        assert(out@.drop_last() =~= before);
                        assert(vs@.subrange(0, i + 1).drop_last() =~= vs@.subrange(0, i as int));
                    }
                    i = i + 1;
                }
                proof {
                    assert(vs@.subrange(0, i as int) =~= vs@);
                }
                JsonValue::Array(out)
            }
            JsonValue::Object(m) => {
                let mut out: Vec<(String, JsonValue)> = Vec::new();
                let mut i: usize = 0;
                while i < m.entries.len()
                    invariant
                        *self == JsonValue::Object(*m),
                        i <= m.entries@.len(),
                        out@.len() == i,
                        encode_entries(out@) == encode_entries(m.entries@.subrange(0, i as int)),
                    decreases m.entries@.len() - i,
                {
                    let e = &m.entries[i];
                    proof {
                        assert(decreases_to!(*self => self->Object_0));
                        assert(decreases_to!(*m => m.entries));
                        assert(decreases_to!(m.entries => m.entries[i as int]));
                        assert(decreases_to!(*e => e.1));
                    }
                    let c = e.1.copy();
                    let ghost before = out@;
                    out.push((e.0.clone(), c));
                    proof {
                        assert(out@.drop_last() =~= before);
                        assert(m.entries@.subrange(0, i + 1).drop_last() =~= m.entries@.subrange(0, i as int));
                    }
                    i = i + 1;
                }
                proof {
                    assert(m.entries@.subrange(0, i as int) =~= m.entries@);
                }
                JsonValue::Object(JsonMap { entries: out })
            }
        }
    }
}

impl Clone for JsonValue {
    fn clone(&self) -> (r: JsonValue)
        ensures
            encode(r) == encode(*self),
    {
        self.copy()
    }
}

} // verus!
