use vstd::prelude::*;
use vstd::string::StringExecFns;

use crate::text::{
    chars_eq, chars_of, lemma_split_leading_piece, lemma_split_without_sep, pieces_view, split_on,
    split_text,
};

verus! {

#[verifier::external_type_specification]
#[verifier::external_body]
pub struct ExSerdeJsonValue(serde_json::Value);

#[verifier::external_type_specification]
#[verifier::external_body]
pub struct ExSerdeJsonNumber(serde_json::Number);

/// A JSON document as the price extraction reads it.
#[derive(Debug)]
pub enum JsonValue {
    Null,
    Bool(bool),
    Number(serde_json::Number),
    Str(String),
    Array(Vec<JsonValue>),
    Object(Vec<(String, JsonValue)>),
}

/// The document that serde_json reads from `text`, or `None` where it rejects the text.
pub uninterp spec fn json_document(text: Seq<char>) -> Option<JsonValue>;

/// The reason serde_json gives (its error's `Display`) for refusing `text`.
pub uninterp spec fn json_refusal(text: Seq<char>) -> Seq<char>;

/// Converts a `serde_json::Value` into a `JsonValue`, variant for variant,
/// moving each field; an object's members come in the order its map yields
/// them. Nothing is claimed of it here: `parse_json`'s claim covers what it gives.
#[verifier::external_body]
fn json_from_serde(v: serde_json::Value) -> JsonValue {
    match v {
        serde_json::Value::Null => JsonValue::Null,
        serde_json::Value::Bool(b) => JsonValue::Bool(b),
        serde_json::Value::Number(n) => JsonValue::Number(n),
        serde_json::Value::String(s) => JsonValue::Str(s),
        serde_json::Value::Array(a) => JsonValue::Array(a.into_iter().map(json_from_serde).collect()),
        serde_json::Value::Object(m) => JsonValue::Object(m.into_iter().map(|(k, x)| (k, json_from_serde(x))).collect()),
    }
}

/// `serde_json::from_str::<serde_json::Value>`, the value converted to a
/// `JsonValue`, a refusal to its error's `Display`. Claimed: it succeeds exactly
/// when `json_document(text@)` is a document, and then gives that document;
/// otherwise it gives `json_refusal(text@)`. What serde_json reads, and the
/// reason it gives, depend on the text alone.
#[verifier::external_body]
fn parse_json(text: &str) -> (res: Result<JsonValue, String>)
    ensures
        res is Ok <==> json_document(text@) is Some,
        res matches Ok(v) ==> json_document(text@) == Some(v),
        res matches Err(reason) ==> reason@ == json_refusal(text@),
{
    match serde_json::from_str::<serde_json::Value>(text) {
        Ok(v) => Ok(json_from_serde(v)),
        Err(e) => Err(e.to_string()),
    }
}

/// The value of the first member of an object whose key is `key`, looking from index `i` on.
pub open spec fn lookup_from(entries: Seq<(String, JsonValue)>, key: Seq<char>, i: int) -> Option<JsonValue>
    decreases entries.len() - i,
{
    if i < 0 || i >= entries.len() {
        None
    } else if entries[i].0@ == key {
        Some(entries[i].1)
    } else {
        lookup_from(entries, key, i + 1)
    }
}

/// What indexing `v` by the string `key` gives: the member of that name when `v`
/// is an object that has one, nothing otherwise.
pub open spec fn json_get(v: JsonValue, key: Seq<char>) -> Option<JsonValue> {
    match v {
        JsonValue::Object(entries) => lookup_from(entries@, key, 0),
        _ => None,
    }
}

/// The value reached from `v` by indexing with each key in turn, if every step finds one.
pub open spec fn follow_path(v: JsonValue, keys: Seq<Seq<char>>) -> Option<JsonValue>
    decreases keys.len(),
{
    if keys.len() == 0 {
        Some(v)
    } else {
        match follow_path(v, keys.drop_last()) {
            Some(c) => json_get(c, keys.last()),
            None => None,
        }
    }
}

/// Following a path step by step: the path `a` then `b` leads where `b` leads
/// from the end of `a`.
pub proof fn lemma_follow_path_concat(v: JsonValue, a: Seq<Seq<char>>, b: Seq<Seq<char>>)
    ensures
        follow_path(v, a + b) == match follow_path(v, a) {
            Some(mid) => follow_path(mid, b),
            None => None,
        },
    decreases b.len(),
{
    if b.len() == 0 {
        assert(a + b =~= a);
    } else {
        assert((a + b).drop_last() =~= a + b.drop_last());
        lemma_follow_path_concat(v, a, b.drop_last());
    }
}

/// A path of one key finds what indexing by that key finds.
pub proof fn lemma_follow_single_key(v: JsonValue, key: Seq<char>)
    ensures
        follow_path(v, seq![key]) == json_get(v, key),
{
    let path = seq![key];
    assert(path.drop_last() =~= Seq::<Seq<char>>::empty());
    assert(follow_path(v, path.drop_last()) == Some(v));
    assert(path.last() == key);
}

proof fn lemma_lookup_from(entries: Seq<(String, JsonValue)>, key: Seq<char>, i: int)
    requires
        0 <= i,
    ensures
        lookup_from(entries, key, i) is None <==> forall|j: int|
            i <= j < entries.len() ==> entries[j].0@ != key,
        forall|k: int|
            i <= k < entries.len() && entries[k].0@ == key && (forall|j: int|
                i <= j < k ==> entries[j].0@ != key) ==> lookup_from(entries, key, i) == Some(
                entries[k].1,
            ),
    decreases entries.len() - i,
{
    if i < entries.len() {
        lemma_lookup_from(entries, key, i + 1);
        assert forall|k: int|
            i <= k < entries.len() && entries[k].0@ == key && (forall|j: int|
                i <= j < k ==> entries[j].0@ != key) implies lookup_from(entries, key, i) == Some(
            entries[k].1,
        ) by {
            if k > i {
                assert(entries[i].0@ != key);
            }
        }
    }
}

/// Indexing by a key finds the first member with that name: when member `i`
/// of an object is named `key` and none before it is, the result is member
/// `i`'s value; when no member is named `key`, or the value is not an object,
/// the result is nothing.
pub proof fn lemma_member_rule(v: JsonValue, key: Seq<char>)
    ensures
        !(v is Object) ==> json_get(v, key) is None,
        v matches JsonValue::Object(e) ==> (json_get(v, key) is None <==> forall|j: int|
            0 <= j < e@.len() ==> e@[j].0@ != key),
        v matches JsonValue::Object(e) ==> forall|i: int|
            0 <= i < e@.len() && e@[i].0@ == key && (forall|j: int| 0 <= j < i ==> e@[j].0@ != key)
                ==> json_get(v, key) == Some(e@[i].1),
{
    if let JsonValue::Object(e) = v {
        lemma_lookup_from(e@, key, 0);
    }
}

/// The price as the document holds it: a JSON number, or a string to be read as one.
#[derive(Debug)]
pub enum PriceText {
    Number(serde_json::Number),
    Text(String),
}

/// Why no price could be read.
#[derive(Debug)]
pub enum PriceError {
    /// The text is not JSON; the parser's reason.
    JsonDecode(String),
    /// Some key of the path is missing.
    PathNotFound,
    /// The path leads to something other than a number or a string.
    NotNumberOrString,
}

/// What reading the price at the dotted `path` of `doc` gives.
pub open spec fn price_at(doc: JsonValue, path: Seq<char>) -> Result<PriceText, PriceError> {
    match follow_path(doc, split_on(path, '.')) {
        None => Err(PriceError::PathNotFound),
        Some(JsonValue::Number(n)) => Ok(PriceText::Number(n)),
        Some(JsonValue::Str(s)) => Ok(PriceText::Text(s)),
        Some(_) => Err(PriceError::NotNumberOrString),
    }
}

#[verifier::loop_isolation(false)]
fn take_entry(entries: Vec<(String, JsonValue)>, key: &Vec<char>) -> (r: Option<JsonValue>)
    ensures
        r == lookup_from(entries@, key@, 0),
{
    let mut entries = entries;
    let ghost all = entries@;
    let n = entries.len();
    for i in 0..n
        invariant
            n == entries.len(),
            entries@ == all,
            lookup_from(all, key@, 0) == lookup_from(all, key@, i as int),
    {
        let k = chars_of(entries[i].0.as_str());
        if chars_eq(&k, key) {
            assert(all[i as int].0@ == key@);
            let (_, member) = entries.remove(i);
            assert(lookup_from(all, key@, i as int) == Some(all[i as int].1));
            return Some(member);
        }
    }
    None
}

/// The member of `v` named `key`, when `v` is an object that has one.
pub fn take_member(v: JsonValue, key: &Vec<char>) -> (r: Option<JsonValue>)
    ensures
        r == json_get(v, key@),
{
    match v {
        JsonValue::Object(entries) => take_entry(entries, key),
        _ => None,
    }
}

/// The value at the dotted `path` of `doc`, and what it says of the price.
pub fn locate_price(doc: JsonValue, path: &str) -> (res: Result<PriceText, PriceError>)
    ensures
        res == price_at(doc, path@),
{
    let keys = split_text(path, '.');
    let ghost ks = pieces_view(keys@);
    let n = keys.len();
    let mut cursor = doc;
    assert(ks.take(0) =~= Seq::<Seq<char>>::empty());
    for i in 0..n
        invariant
            n == keys.len(),
            ks == pieces_view(keys@),
            ks == split_on(path@, '.'),
            follow_path(doc, ks.take(i as int)) == Some(cursor),
    {
        assert(ks.take(i + 1).drop_last() =~= ks.take(i as int));
        assert(ks.take(i + 1).last() == keys@[i as int]@);
        match take_member(cursor, &keys[i]) {
            Some(next) => {
                cursor = next;
            },
            None => {
                proof {
                    lemma_path_stops(doc, ks, i as int + 1);
                }
                return Err(PriceError::PathNotFound);
            },
        }
    }
    assert(ks.take(n as int) =~= ks);
    match cursor {
        JsonValue::Number(x) => Ok(PriceText::Number(x)),
        JsonValue::Str(s) => Ok(PriceText::Text(s)),
        _ => Err(PriceError::NotNumberOrString),
    }
}

proof fn lemma_path_stops(doc: JsonValue, keys: Seq<Seq<char>>, i: int)
    requires
        0 < i <= keys.len(),
        follow_path(doc, keys.take(i)) is None,
    ensures
        follow_path(doc, keys) is None,
    decreases keys.len() - i,
{
    if i < keys.len() {
        assert(keys.take(i + 1).drop_last() =~= keys.take(i));
        lemma_path_stops(doc, keys, i + 1);
    } else {
        assert(keys.take(i) =~= keys);
    }
}

/// A path of one key (no dot) reads the member of that name: a string or a
/// number there is the price, a missing member is a missing path, anything
/// else is not a price.
pub proof fn lemma_price_single_key(doc: JsonValue, key: Seq<char>)
    requires
        !key.contains('.'),
    ensures
        price_at(doc, key) == match json_get(doc, key) {
            None => Err(PriceError::PathNotFound),
            Some(JsonValue::Number(n)) => Ok(PriceText::Number(n)),
            Some(JsonValue::Str(s)) => Ok(PriceText::Text(s)),
            Some(_) => Err(PriceError::NotNumberOrString),
        },
{
    lemma_split_without_sep(key, '.');
    lemma_follow_single_key(doc, key);
}

/// A dotted path descends one key at a time: the price at `key.rest` of a
/// document is the price at `rest` of the member named `key`, and a missing
/// path when there is no such member.
pub proof fn lemma_price_descends(doc: JsonValue, key: Seq<char>, rest: Seq<char>)
    requires
        !key.contains('.'),
    ensures
        price_at(doc, key.push('.') + rest) == match json_get(doc, key) {
            Some(member) => price_at(member, rest),
            None => Err(PriceError::PathNotFound),
        },
{
    lemma_split_leading_piece(key, rest, '.');
    lemma_follow_path_concat(doc, seq![key], split_on(rest, '.'));
    lemma_follow_single_key(doc, key);
}

/// What reading the price at the dotted `path` of the JSON `text` gives: a decode
/// error where serde_json refuses the text, else what the document holds there.
pub fn extract_price(text: &str, path: &str) -> (res: Result<PriceText, PriceError>)
    ensures
        json_document(text@) is None <==> res matches Err(PriceError::JsonDecode(_)),
        res matches Err(PriceError::JsonDecode(reason)) ==> reason@ == json_refusal(text@),
        json_document(text@) matches Some(doc) ==> res == price_at(doc, path@),
{
    match parse_json(text) {
        Ok(doc) => locate_price(doc, path),
        Err(reason) => Err(PriceError::JsonDecode(reason)),
    }
}

impl PriceError {
    /// The message shown for this error when reading the price at `path`.
    pub fn message(&self, path: &str) -> (m: String)
        ensures
            m@ == match self {
                PriceError::JsonDecode(reason) => "JSON decode failed: "@ + reason@,
                PriceError::PathNotFound => "price path not found: "@ + path@,
                PriceError::NotNumberOrString => "price path is not number/string: "@ + path@,
            },
    {
        match self {
            PriceError::JsonDecode(reason) => {
                let mut m = String::from_str("JSON decode failed: ");
                m.append(reason.as_str());
                m
            },
            PriceError::PathNotFound => {
                let mut m = String::from_str("price path not found: ");
                m.append(path);
                m
            },
            PriceError::NotNumberOrString => {
                let mut m = String::from_str("price path is not number/string: ");
                m.append(path);
                m
            },
        }
    }
}

} // verus!
