//! JSON text and the values that it stands for.

use serde_json::Value as SerdeValue;
use vstd::prelude::*;

use crate::error::CliError;
use crate::order;
use crate::text;
use crate::value;
use crate::value::{Members, Tree, Value};

verus! {

/// A number in a JSON document.
pub enum JsonNumber {
    /// An integer that is not negative.
    PosInt(u64),
    /// A negative integer.
    NegInt(i64),
    /// A finite floating-point number, by the decimal text that denotes it.
    Float(Seq<char>),
}

/// What a JSON document denotes.
pub enum Json {
    Null,
    Bool(bool),
    Number(JsonNumber),
    Text(Seq<char>),
    Array(Seq<Json>),
    /// The members by ascending keys.
    Object(Seq<(Seq<char>, Json)>),
}

/// `serde_json::Value`, a document.
#[verifier::external_type_specification]
#[verifier::external_body]
pub struct ExSerdeValue(SerdeValue);

/// `serde_json::Error`, a complaint about a document.
#[verifier::external_type_specification]
#[verifier::external_body]
pub struct ExSerdeError(serde_json::Error);

/// `serde_json::Map`, the members of an object. Without the feature `preserve_order` it is
/// ordered by its keys.
#[verifier::external_type_specification]
#[verifier::external_body]
#[verifier::reject_recursive_types(K)]
#[verifier::reject_recursive_types(V)]
pub struct ExSerdeMap<K, V>(serde_json::Map<K, V>);

/// What the document `v` holds.
pub uninterp spec fn json_of(v: SerdeValue) -> Json;

/// The keys and the values that the map `m` holds, in the map's order.
pub uninterp spec fn json_members(m: serde_json::Map<String, SerdeValue>) -> Seq<(Seq<char>, Json)>;

/// What `serde_json::from_str` reads out of `text`: a document, or its complaint.
pub uninterp spec fn json_reading(text: Seq<char>) -> Result<Json, Seq<char>>;

/// The number that `serde_json::Number::from_f64` makes of the float that `text` denotes.
/// Nothing where `text` denotes no float, or one that is not finite.
pub uninterp spec fn real_reading(text: Seq<char>) -> Option<JsonNumber>;

/// The decimal text of what `serde_json::Number::as_f64` gives for the integer `i`.
pub uninterp spec fn float_text(i: int) -> Seq<char>;

/// What `String::from_utf8_lossy` decodes out of `bytes`.
pub uninterp spec fn lossy_text(bytes: Seq<u8>) -> Seq<char>;

/// The document `j` as `serde_json::to_string` writes it.
pub uninterp spec fn compact_text(j: Json) -> Seq<char>;

/// The document `j` as `serde_json::to_string_pretty` writes it.
pub uninterp spec fn pretty_text(j: Json) -> Seq<char>;

/// The integer that `k` is, where it fits.
pub open spec fn number_int(k: JsonNumber) -> Option<i64> {
    match k {
        JsonNumber::PosInt(u) => if u <= i64::MAX {
            Some(u as i64)
        } else {
            None
        },
        JsonNumber::NegInt(i) => Some(i),
        JsonNumber::Float(_) => None,
    }
}

/// The decimal text of `k` as a floating-point number.
pub open spec fn number_real(k: JsonNumber) -> Seq<char> {
    match k {
        JsonNumber::PosInt(u) => float_text(u as int),
        JsonNumber::NegInt(i) => float_text(i as int),
        JsonNumber::Float(t) => t,
    }
}

/// The integer `i` as a JSON number.
pub open spec fn int_number(i: i64) -> JsonNumber {
    if i < 0 {
        JsonNumber::NegInt(i)
    } else {
        JsonNumber::PosInt(i as u64)
    }
}

/// The protocol value that stands for the document `j`.
pub open spec fn of_json(j: Json) -> Tree
    decreases j,
{
    match j {
        Json::Null => Tree::Null,
        Json::Bool(b) => Tree::Bool(b),
        Json::Number(k) => match number_int(k) {
            Some(i) => Tree::Int(i),
            None => Tree::Real(number_real(k)),
        },
        Json::Text(s) => Tree::Text(s),
        Json::Array(a) => Tree::Array(
            Seq::new(
                a.len(),
                |i: int|
                    if 0 <= i < a.len() {
                        of_json(a[i])
                    } else {
                        Tree::Null
                    },
            ),
        ),
        Json::Object(e) => Tree::Object(
            Seq::new(
                e.len(),
                |i: int|
                    if 0 <= i < e.len() {
                        (e[i].0, of_json(e[i].1))
                    } else {
                        (Seq::empty(), Tree::Null)
                    },
            ),
        ),
    }
}

/// The document that stands for the protocol value `t`.
pub open spec fn to_json(t: Tree) -> Json
    decreases t,
{
    match t {
        Tree::Null => Json::Null,
        Tree::Bool(b) => Json::Bool(b),
        Tree::Int(i) => Json::Number(int_number(i)),
        Tree::Real(r) => match real_reading(r) {
            Some(k) => Json::Number(k),
            None => Json::Null,
        },
        Tree::Text(s) => Json::Text(s),
        Tree::Bytes(b) => Json::Text(lossy_text(b)),
        Tree::Array(a) => Json::Array(
            Seq::new(
                a.len(),
                |i: int|
                    if 0 <= i < a.len() {
                        to_json(a[i])
                    } else {
                        Json::Null
                    },
            ),
        ),
        Tree::Object(e) => Json::Object(order::gathered(members_to_json(e))),
        Tree::Template { keys, rows } => Json::Array(
            Seq::new(
                rows.len(),
                |i: int|
                    if 0 <= i < rows.len() {
                        Json::Object(order::gathered(row_to_json(keys, rows[i])))
                    } else {
                        Json::Null
                    },
            ),
        ),
    }
}

/// The members `e`, each with the document that stands for its value.
pub open spec fn members_to_json(e: Seq<(Seq<char>, Tree)>) -> Seq<(Seq<char>, Json)>
    decreases e,
{
    Seq::new(
        e.len(),
        |i: int|
            if 0 <= i < e.len() {
                (e[i].0, to_json(e[i].1))
            } else {
                (Seq::empty(), Json::Null)
            },
    )
}

/// The keys and the values of a row taken side by side, each value as its document.
pub open spec fn row_to_json(keys: Seq<Seq<char>>, row: Seq<Tree>) -> Seq<(Seq<char>, Json)>
    decreases row,
{
    Seq::new(
        paired_len(keys.len(), row.len()),
        |j: int|
            if 0 <= j < row.len() {
                (keys[j], to_json(row[j]))
            } else {
                (Seq::empty(), Json::Null)
            },
    )
}

/// The number of pairs of two sequences taken side by side.
pub open spec fn paired_len(a: nat, b: nat) -> nat {
    if a < b {
        a
    } else {
        b
    }
}

/// The outermost layer of a document.
pub enum JsonNode {
    Null,
    Bool(bool),
    Number { integer: Option<i64>, float: Option<String> },
    Text(String),
    Array(Vec<SerdeValue>),
    Object(Vec<(String, SerdeValue)>),
}

/// What the documents of a list hold.
pub open spec fn jsons_of(s: Seq<SerdeValue>) -> Seq<Json> {
    Seq::new(s.len(), |i: int| json_of(s[i]))
}

/// What the members of a list hold.
pub open spec fn json_entries(s: Seq<(String, SerdeValue)>) -> Seq<(Seq<char>, Json)> {
    Seq::new(s.len(), |i: int| (s[i].0@, json_of(s[i].1)))
}

/// `n` is the outermost layer of `j`.
pub open spec fn opens_to(j: Json, n: JsonNode) -> bool {
    match n {
        JsonNode::Null => j == Json::Null,
        JsonNode::Bool(b) => j == Json::Bool(b),
        JsonNode::Number { integer, .. } => {
            &&& j is Number
            &&& integer == number_int(j->Number_0)
        },
        JsonNode::Text(s) => j == Json::Text(s@),
        JsonNode::Array(a) => j == Json::Array(jsons_of(a@)),
        JsonNode::Object(o) => {
            &&& j == Json::Object(json_entries(o@))
            &&& order::keys_ascending(json_entries(o@))
        },
    }
}

/// `serde_json::from_str` reads a document out of a text. Its complaint is turned into text. What
/// it read is well-formed: it keeps only negative numbers as negative integers and only finite
/// ones as floats, and the map of an object is ordered by its keys.
#[verifier::external_body]
fn serde_read(text: &str) -> (r: Result<SerdeValue, String>)
    ensures
        match r {
            Ok(v) => json_reading(text@) is Ok && json_reading(text@)->Ok_0 == json_of(v),
            Err(e) => json_reading(text@) is Err && json_reading(text@)->Err_0 == e@,
        },
        r matches Ok(v) ==> well_formed(json_of(v)),
{
    serde_json::from_str(text).map_err(|e| e.to_string())
}

/// Takes a `serde_json::Value` apart into its variant and what that holds. A number is read
/// with `Number::as_i64` and `Number::as_f64`: the first gives an integer that fits, the second
/// always gives a float, since numbers are kept without the feature `arbitrary_precision`. The
/// map of an object hands its members out by ascending keys.
#[verifier::external_body]
fn serde_open(v: SerdeValue) -> (n: JsonNode)
    ensures
        opens_to(json_of(v), n),
        n is Number ==> n->float is Some && n->float->0@ == (match json_of(v)->Number_0 {
            JsonNumber::PosInt(u) => float_text(u as int),
            JsonNumber::NegInt(i) => float_text(i as int),
            JsonNumber::Float(t) => t,
        }),
{
    match v {
        SerdeValue::Null => JsonNode::Null,
        SerdeValue::Bool(b) => JsonNode::Bool(b),
        SerdeValue::Number(n) => JsonNode::Number {
            integer: n.as_i64(),
            float: n.as_f64().map(|f| f.to_string()),
        },
        SerdeValue::String(s) => JsonNode::Text(s),
        SerdeValue::Array(a) => JsonNode::Array(a),
        SerdeValue::Object(o) => JsonNode::Object(o.into_iter().collect()),
    }
}

/// What a document is put together from.
enum JsonPart {
    Null,
    Bool(bool),
    Int(i64),
    Text(String),
    Array(Vec<SerdeValue>),
    Object(serde_json::Map<String, SerdeValue>),
}

/// The document that is put together from `p`.
spec fn part_json(p: JsonPart) -> Json {
    match p {
        JsonPart::Null => Json::Null,
        JsonPart::Bool(b) => Json::Bool(b),
        JsonPart::Int(i) => Json::Number(int_number(i)),
        JsonPart::Text(s) => Json::Text(s@),
        JsonPart::Array(a) => Json::Array(jsons_of(a@)),
        JsonPart::Object(m) => Json::Object(json_members(m)),
    }
}

/// Puts a `serde_json::Value` together: the variant and what it holds. An integer becomes a
/// number by `Number::from`.
#[verifier::external_body]
fn serde_build(p: JsonPart) -> (v: SerdeValue)
    ensures
        json_of(v) == part_json(p),
{
    match p {
        JsonPart::Null => SerdeValue::Null,
        JsonPart::Bool(b) => SerdeValue::Bool(b),
        JsonPart::Int(i) => SerdeValue::Number(serde_json::Number::from(i)),
        JsonPart::Text(s) => SerdeValue::String(s),
        JsonPart::Array(a) => SerdeValue::Array(a),
        JsonPart::Object(m) => SerdeValue::Object(m),
    }
}

/// `serde_json::Number::from_f64` makes a number of a finite float, and nothing of another. The
/// number is a float, and its decimal text denotes that same number.
#[verifier::external_body]
fn serde_real(text: &str) -> (r: Option<SerdeValue>)
    ensures
        r is Some <==> real_reading(text@) is Some,
        r matches Some(v) ==> json_of(v) == Json::Number(real_reading(text@)->0),
        r matches Some(v) ==> json_of(v)->Number_0 is Float && real_reading(
            json_of(v)->Number_0->Float_0,
        ) == real_reading(text@),
{
    serde_json::Number::from_f64(text.parse().ok()?).map(SerdeValue::Number)
}

/// `serde_json::Map::new` makes a map without entries.
#[verifier::external_body]
fn serde_map_new() -> (m: serde_json::Map<String, SerdeValue>)
    ensures
        json_members(m) == Seq::<(Seq<char>, Json)>::empty(),
{
    serde_json::Map::new()
}

/// `serde_json::Map::insert` stores the value under the key: the map is ordered by its keys,
/// and holds no key twice.
#[verifier::external_body]
fn serde_map_insert(m: &mut serde_json::Map<String, SerdeValue>, key: String, v: SerdeValue)
    ensures
        json_members(*final(m)) == order::filed(json_members(*old(m)), key@, json_of(v)),
{
    m.insert(key, v);
}

/// `String::from_utf8_lossy` decodes bytes. Where they are valid UTF-8, the result is the text
/// that they encode.
#[verifier::external_body]
fn decode_lossy(bytes: &Vec<u8>) -> (r: String)
    ensures
        r@ == lossy_text(bytes@),
        vstd::utf8::valid_utf8(bytes@) ==> r@ == vstd::utf8::decode_utf8(bytes@),
{
    String::from_utf8_lossy(bytes).into_owned()
}

/// `serde_json::to_string` writes a document on one line: line feeds in strings are escaped. It
/// does not fail on a `serde_json::Value`.
#[verifier::external_body]
fn serde_compact(v: &SerdeValue) -> (r: Result<String, serde_json::Error>)
    ensures
        r is Ok && r->Ok_0@ == compact_text(json_of(*v)),
        !r->Ok_0@.contains('\n'),
{
    serde_json::to_string(v)
}

/// `serde_json::to_string_pretty` writes a document on several indented lines. It does not fail
/// on a `serde_json::Value`.
#[verifier::external_body]
fn serde_pretty(v: &SerdeValue) -> (r: Result<String, serde_json::Error>)
    ensures
        r is Ok && r->Ok_0@ == pretty_text(json_of(*v)),
{
    serde_json::to_string_pretty(v)
}

/// The protocol value that stands for a document.
pub fn json_to_value(v: SerdeValue) -> (r: Value)
    ensures
        r@ == of_json(json_of(v)),
    decreases json_of(v),
{
    let ghost j = json_of(v);
    match serde_open(v) {
        JsonNode::Null => Value::Null,
        JsonNode::Bool(b) => Value::Bool(b),
        JsonNode::Number { integer, float } => match integer {
            Some(i) => Value::Int(i),
            None => match float {
                Some(t) => Value::Real(t),
                None => Value::Null,
            },
        },
        JsonNode::Text(s) => Value::String(s),
        JsonNode::Array(a) => {
            let mut items: Vec<Value> = Vec::new();
            let ghost docs = a@;
            for d in it: a
                invariant
                    it.seq() == docs,
                    j == Json::Array(jsons_of(docs)),
                    j == json_of(v),
                    items@.len() == it.index(),
                    forall|i: int|
                        0 <= i < items@.len() ==> (#[trigger] items@[i])@ == of_json(
                            json_of(docs[i]),
                        ),
            {
                assert(decreases_to!(j => j->Array_0[it.index() as int]));
                items.push(json_to_value(d));
            }
            let r = Value::Array(items);
            assert(r@->Array_0 =~= of_json(j)->Array_0);
            r
        },
        JsonNode::Object(o) => {
            let mut members = Members::new();
            let ghost docs = o@;
            for e in it: o
                invariant
                    it.seq() == docs,
                    j == Json::Object(json_entries(docs)),
                    j == json_of(v),
                    order::keys_ascending(json_entries(docs)),
                    members@.len() == it.index(),
                    forall|i: int|
                        0 <= i < members@.len() ==> #[trigger] members@[i] == (
                            docs[i].0@,
                            of_json(json_of(docs[i].1)),
                        ),
            {
                let ghost n = it.index() as int;
                let ghost entries = json_entries(docs);
                assert(decreases_to!(j => j->Object_0[n].1));
                assert(!value::has_key(members@, e.0@)) by {
                    if value::has_key(members@, e.0@) {
                        let p = value::position(members@, e.0@);
                        assert(order::text_before(entries[p].0, entries[n].0));
                        order::before_is_irreflexive(e.0@);
                    }
                }
                members.insert(e.0, json_to_value(e.1));
            }
            assert(members@ =~= of_json(j)->Object_0);
            Value::Object(members)
        },
    }
}

/// The document of a table: one object for each row, its members being the keys and the values
/// of the row taken side by side.
fn template_to_serde(keys: &Vec<String>, rows: &Vec<Vec<Value>>, Ghost(t): Ghost<Tree>) -> (r:
    SerdeValue)
    requires
        t is Template,
        t->keys == value::texts_of(keys@),
        t->rows.len() == rows@.len(),
        forall|i: int| #![trigger rows@[i]]
            0 <= i < rows@.len() ==> t->rows[i].len() == rows@[i]@.len() && forall|j: int|
                0 <= j < rows@[i]@.len() ==> t->rows[i][j] == (#[trigger] rows@[i]@[j])@,
    ensures
        json_of(r) == to_json(t),
        is_value(t),
    decreases t, 0nat,
{
    let mut docs: Vec<SerdeValue> = Vec::new();
    let mut i: usize = 0;
    while i < rows.len()
        invariant
            t is Template,
            t->keys == value::texts_of(keys@),
            t->rows.len() == rows@.len(),
            forall|k: int| #![trigger rows@[k]]
                0 <= k < rows@.len() ==> t->rows[k].len() == rows@[k]@.len() && forall|j: int|
                    0 <= j < rows@[k]@.len() ==> t->rows[k][j] == (#[trigger] rows@[k]@[j])@,
            i <= rows@.len(),
            docs@.len() == i,
            forall|k: int|
                0 <= k < i ==> json_of(#[trigger] docs@[k]) == to_json(t)->Array_0[k],
            forall|k: int, j: int|
                0 <= k < i && 0 <= j < paired_len(keys@.len(), t->rows[k].len())
                    ==> is_value(#[trigger] t->rows[k][j]),
        decreases rows@.len() - i,
    {
        let row = &rows[i];
        let ghost entries = row_to_json(t->keys, t->rows[i as int]);
        let mut map = serde_map_new();
        assert(entries.take(0) =~= Seq::empty());
        let mut j: usize = 0;
        while j < keys.len() && j < row.len()
            invariant
                t is Template,
                0 <= i < rows@.len(),
                i < t->rows.len(),
                row@ == rows@[i as int]@,
                t->rows[i as int].len() == row@.len(),
                forall|k: int|
                    0 <= k < row@.len() ==> t->rows[i as int][k] == (#[trigger] row@[k])@,
                j <= keys@.len(),
                j <= row@.len(),
                t->keys == value::texts_of(keys@),
                entries == row_to_json(t->keys, t->rows[i as int]),
                json_members(map) == order::gathered(entries.take(j as int)),
                forall|k: int| 0 <= k < j ==> is_value(#[trigger] t->rows[i as int][k]),
            decreases keys@.len() - j,
        {
            assert(decreases_to!(t => t->rows[i as int][j as int]));
            let d = value_to_serde(&row[j]);
            serde_map_insert(&mut map, keys[j].clone(), d);
            assert(entries.take(j + 1).drop_last() =~= entries.take(j as int));
            j = j + 1;
        }
        assert(entries.take(j as int) =~= entries);
        docs.push(serde_build(JsonPart::Object(map)));
        i = i + 1;
    }
    assert(jsons_of(docs@) =~= to_json(t)->Array_0);
    serde_build(JsonPart::Array(docs))
}

/// The document that stands for a protocol value. A second pass changes nothing: the value that
/// stands for this document has this same document. A plain value comes back as it was.
pub fn value_to_serde(v: &Value) -> (r: SerdeValue)
    ensures
        json_of(r) == to_json(v@),
        well_formed(json_of(r)),
        is_value(v@),
        to_json(of_json(json_of(r))) == json_of(r),
        plain(v@) ==> same(v@, of_json(json_of(r))),
    decreases v@, 1nat,
{
    let ghost t = v@;
    let r = match v {
        Value::Null => serde_build(JsonPart::Null),
        Value::Bool(b) => serde_build(JsonPart::Bool(*b)),
        Value::Int(i) => serde_build(JsonPart::Int(*i)),
        Value::Real(x) => match serde_real(x.as_str()) {
            Some(d) => d,
            None => serde_build(JsonPart::Null),
        },
        Value::String(s) => serde_build(JsonPart::Text(s.clone())),
        Value::Bytes(b) => serde_build(JsonPart::Text(decode_lossy(b))),
        Value::Array(a) => {
            let mut docs: Vec<SerdeValue> = Vec::new();
            let mut i: usize = 0;
            while i < a.len()
                invariant
                    t == v@,
                    t == value::tree_of(Value::Array(*a)),
                    i <= a@.len(),
                    docs@.len() == i,
                    forall|k: int|
                        0 <= k < i ==> json_of(#[trigger] docs@[k]) == to_json(a@[k]@),
                    forall|k: int| 0 <= k < i ==> is_value(#[trigger] t->Array_0[k]),
                decreases a@.len() - i,
            {
                assert(t->Array_0[i as int] == a@[i as int]@);
                assert(decreases_to!(t => t->Array_0[i as int]));
                docs.push(value_to_serde(&a[i]));
                i = i + 1;
            }
            assert(jsons_of(docs@) =~= to_json(t)->Array_0);
            serde_build(JsonPart::Array(docs))
        },
        Value::Object(m) => {
            let ghost entries = members_to_json(m@);
            let mut map = serde_map_new();
            assert(entries.take(0) =~= Seq::empty());
            let mut i: usize = 0;
            let n: usize = m.len();
            while i < n
                invariant
                    n == m@.len(),
                    t == v@,
                    t == Tree::Object(m@),
                    i <= n,
                    entries == members_to_json(m@),
                    json_members(map) == order::gathered(entries.take(i as int)),
                    forall|k: int| 0 <= k < i ==> is_value((#[trigger] m@[k]).1),
                    forall|k: int, l: int|
                        0 <= k < i && k < l < n ==> (#[trigger] m@[k]).0 != (#[trigger] m@[l]).0,
                decreases n - i,
            {
                assert(decreases_to!(t => t->Object_0[i as int].1));
                if let Some(e) = m.get_index(i) {
                    let d = value_to_serde(e.1);
                    serde_map_insert(&mut map, e.0.clone(), d);
                }
                assert(entries.take(i + 1).drop_last() =~= entries.take(i as int));
                i = i + 1;
            }
            assert(entries.take(i as int) =~= entries);
            serde_build(JsonPart::Object(map))
        },
        Value::Template { keys, rows } => template_to_serde(keys, rows, Ghost(t)),
    };
    proof {
        values_become_documents(t);
        second_pass_changes_nothing(t);
        if plain(t) {
            plain_value_survives(t);
        }
    }
    r
}

/// `e` says that the text read as `context` is not JSON, for the reason `cause`.
pub open spec fn is_json_error(e: CliError, context: Seq<char>, cause: Seq<char>) -> bool {
    &&& e is Json
    &&& e->context@ == context
    &&& e->cause@ == cause
}

/// What becomes of a text once the JSON reader has answered.
pub fn finish_reading(reading: Result<SerdeValue, String>, context: &str) -> (r: Result<
    Value,
    CliError,
>)
    ensures
        match reading {
            Ok(v) => r is Ok && r->Ok_0@ == of_json(json_of(v)),
            Err(e) => r is Err && is_json_error(r->Err_0, context@, e@),
        },
{
    match reading {
        Ok(v) => Ok(json_to_value(v)),
        Err(e) => Err(CliError::Json { context: context.to_owned(), cause: e }),
    }
}

/// What comes of reading the text `s`: a value, or the context and the reader's complaint.
pub open spec fn read_as(s: Seq<char>, context: Seq<char>) -> Result<Tree, (Seq<char>, Seq<char>)> {
    match json_reading(s) {
        Ok(j) => Ok(of_json(j)),
        Err(e) => Err((context, e)),
    }
}

/// `r` is a value that denotes the tree of `expected`, or a complaint with its context and cause.
pub open spec fn comes_to(
    r: Result<Value, CliError>,
    expected: Result<Tree, (Seq<char>, Seq<char>)>,
) -> bool {
    match expected {
        Ok(t) => r is Ok && r->Ok_0@ == t,
        Err(c) => r is Err && is_json_error(r->Err_0, c.0, c.1),
    }
}

/// A text is read as a value exactly when it is JSON, whatever it is read as; the context shows
/// in a complaint only, and the complaint is the reader's own.
pub proof fn context_shows_in_complaints_only(s: Seq<char>, a: Seq<char>, b: Seq<char>)
    ensures
        read_as(s, a) is Ok <==> json_reading(s) is Ok,
        read_as(s, a) is Ok ==> read_as(s, a) == read_as(s, b),
        read_as(s, a) is Ok ==> read_as(s, a)->Ok_0 == of_json(json_reading(s)->Ok_0),
        read_as(s, a) matches Err(c) ==> c.0 == a && json_reading(s) == Err::<Json, Seq<char>>(
            c.1,
        ),
{
}

/// Reads a JSON argument of a command; `ctx` says which one.
pub fn parse_json(s: &str, ctx: &str) -> (r: Result<Value, CliError>)
    ensures
        comes_to(r, read_as(s@, "parsing "@ + ctx@ + " JSON"@)),
        match json_reading(s@) {
            Ok(j) => r is Ok && r->Ok_0@ == of_json(j) && well_formed(j),
            Err(e) => r is Err && is_json_error(r->Err_0, "parsing "@ + ctx@ + " JSON"@, e),
        },
{
    let mut context = "parsing ".to_owned();
    context.append(ctx);
    context.append(" JSON");
    finish_reading(serde_read(s), context.as_str())
}

/// What comes of reading a PDU from standard input, where there is one.
pub open spec fn stdin_reading(input: Seq<char>) -> Option<
    Result<Tree, (Seq<char>, Seq<char>)>,
> {
    if text::trimmed(input).len() == 0 {
        None
    } else {
        Some(read_as(text::trimmed(input), "parsing stdin PDU"@))
    }
}

/// White space around a PDU makes no difference. There is no PDU exactly where there is nothing
/// but white space, and a PDU that is there is read as any JSON text.
pub proof fn white_space_around_a_pdu_does_not_matter(input: Seq<char>)
    ensures
        stdin_reading(input) is None <==> forall|i: int|
            0 <= i < input.len() ==> text::is_white_space(#[trigger] input[i]),
        input.len() > 0 && !text::is_white_space(input.first()) && !text::is_white_space(
            input.last(),
        ) ==> stdin_reading(input) == Some(read_as(input, "parsing stdin PDU"@)),
        input.len() > 0 && text::is_white_space(input.first()) ==> stdin_reading(input)
            == stdin_reading(input.drop_first()),
        input.len() > 0 && text::is_white_space(input.last()) ==> stdin_reading(input)
            == stdin_reading(input.drop_last()),
{
    text::trimmed_is_between_white_space(input);
    text::only_white_space_is_trimmed_to_nothing(input);
    if input.len() > 0 && text::is_white_space(input.last()) {
        text::trimming_the_end_first(input);
    }
}

/// Reads the PDU that a caller wrote to standard input.
pub fn stdin_pdu(input: &str) -> (r: Result<Value, CliError>)
    ensures
        match stdin_reading(input@) {
            None => r == Err::<Value, CliError>(CliError::EmptyStdin),
            Some(expected) => comes_to(r, expected),
        },
        text::trimmed(input@).len() == 0 ==> r == Err::<Value, CliError>(CliError::EmptyStdin),
        text::trimmed(input@).len() > 0 ==> match json_reading(text::trimmed(input@)) {
            Ok(j) => r is Ok && r->Ok_0@ == of_json(j) && well_formed(j),
            Err(e) => r is Err && is_json_error(r->Err_0, "parsing stdin PDU"@, e),
        },
{
    let body = text::trim(input);
    if body.is_empty() {
        return Err(CliError::EmptyStdin);
    }
    finish_reading(serde_read(body), "parsing stdin PDU")
}

/// What is printed for the value `t`.
pub open spec fn printed(t: Tree, no_pretty: bool) -> Seq<char> {
    if no_pretty {
        compact_text(to_json(t)) + "\n"@
    } else {
        pretty_text(to_json(t)) + "\n"@
    }
}

/// Ends the line of a text that is to be printed.
pub fn end_line(text: String) -> (r: String)
    ensures
        r@ == text@ + "\n"@,
{
    let mut out = text;
    out.append("\n");
    out
}

/// Writes a response as JSON, on one line or indented, and ends the line.
pub fn response_text(v: &Value, no_pretty: bool) -> (r: String)
    ensures
        r@ == printed(v@, no_pretty),
        no_pretty ==> text::is_line(r@),
{
    proof {
        reveal_strlit("\n");
    }
    let j = value_to_serde(v);
    let written = if no_pretty {
        serde_compact(&j)
    } else {
        serde_pretty(&j)
    };
    match written {
        Ok(s) => {
            assert((s@ + "\n"@).drop_last() =~= s@);
            end_line(s)
        },
        Err(_) => String::new(),
    }
}

/// A text that is printed is the document of the value and the end of the line, compact or
/// pretty as asked, and nothing else: values with the same document are printed alike.
pub proof fn printed_text_is_the_document(a: Tree, b: Tree, no_pretty: bool)
    ensures
        printed(a, no_pretty).len() > 0,
        printed(a, no_pretty).last() == '\n',
        no_pretty ==> printed(a, no_pretty).drop_last() == compact_text(to_json(a)),
        !no_pretty ==> printed(a, no_pretty).drop_last() == pretty_text(to_json(a)),
        to_json(a) == to_json(b) ==> printed(a, no_pretty) == printed(b, no_pretty),
{
    reveal_strlit("\n");
    let body = if no_pretty {
        compact_text(to_json(a))
    } else {
        pretty_text(to_json(a))
    };
    assert(printed(a, no_pretty).drop_last() =~= body);
}

/// A complaint about JSON is reported as what was being read, and keeps what the reader said.
pub proof fn complaint_keeps_context_and_cause(
    e: CliError,
    context: Seq<char>,
    cause: Seq<char>,
)
    ensures
        is_json_error(e, context, cause) ==> crate::error::message_text(e) == context,
        is_json_error(e, context, cause) <==> (e matches CliError::Json { context: c, cause: d }
            && c@ == context && d@ == cause),
{
}

/// Truth values, texts and integers go over as they are, in both directions and whatever they
/// are; an integer above the range of the protocol becomes the float that is nearest to it.
pub proof fn scalars_keep_their_content(b: bool, s: Seq<char>, i: i64, u: u64)
    ensures
        of_json(Json::Null) == Tree::Null && to_json(Tree::Null) == Json::Null,
        of_json(Json::Bool(b)) == Tree::Bool(b) && to_json(Tree::Bool(b)) == Json::Bool(b),
        of_json(Json::Text(s)) == Tree::Text(s) && to_json(Tree::Text(s)) == Json::Text(s),
        i < 0 ==> of_json(Json::Number(JsonNumber::NegInt(i))) == Tree::Int(i) && to_json(
            Tree::Int(i),
        ) == Json::Number(JsonNumber::NegInt(i)),
        u <= i64::MAX ==> of_json(Json::Number(JsonNumber::PosInt(u))) == Tree::Int(u as i64)
            && to_json(Tree::Int(u as i64)) == Json::Number(JsonNumber::PosInt(u)),
        u > i64::MAX ==> of_json(Json::Number(JsonNumber::PosInt(u))) == Tree::Real(
            float_text(u as int),
        ),
        of_json(Json::Number(JsonNumber::Float(s))) == Tree::Real(s),
{
}

/// A number that a document can hold is written as that number, and any other as null. Bytes are
/// written as the text that they are decoded to.
pub proof fn numbers_and_bytes_are_written(r: Seq<char>, bytes: Seq<u8>)
    ensures
        real_reading(r) matches Some(k) ==> to_json(Tree::Real(r)) == Json::Number(k),
        real_reading(r) is None ==> to_json(Tree::Real(r)) == Json::Null,
        to_json(Tree::Bytes(bytes)) == to_json(Tree::Text(lossy_text(bytes))),
{
}

/// Arrays keep their length and the order of their elements in both directions, and objects that
/// are read keep the order of their members.
pub proof fn containers_keep_their_order(
    a: Seq<Json>,
    b: Seq<Tree>,
    e: Seq<(Seq<char>, Json)>,
    i: int,
)
    ensures
        of_json(Json::Array(a)) is Array && of_json(Json::Array(a))->Array_0.len() == a.len(),
        0 <= i < a.len() ==> of_json(Json::Array(a))->Array_0[i] == of_json(a[i]),
        to_json(Tree::Array(b)) is Array && to_json(Tree::Array(b))->Array_0.len() == b.len(),
        0 <= i < b.len() ==> to_json(Tree::Array(b))->Array_0[i] == to_json(b[i]),
        of_json(Json::Object(e)) is Object && of_json(Json::Object(e))->Object_0.len() == e.len(),
        0 <= i < e.len() ==> of_json(Json::Object(e))->Object_0[i] == (e[i].0, of_json(e[i].1)),
{
}

/// Each row of a table becomes an object of its own. A value of the row stands under the key in
/// the same place, and where a key comes twice the later value stands. A row that is shorter than
/// the keys lacks the members at the end, and values beyond the keys do not show.
pub proof fn row_pairs_keys_with_values(
    keys: Seq<Seq<char>>,
    rows: Seq<Seq<Tree>>,
    i: int,
    j: int,
    key: Seq<char>,
)
    requires
        0 <= i < rows.len(),
    ensures
        to_json(Tree::Template { keys, rows }) is Array,
        to_json(Tree::Template { keys, rows })->Array_0.len() == rows.len(),
        ({
            let object = to_json(Tree::Template { keys, rows })->Array_0[i];
            let n = if keys.len() < rows[i].len() {
                keys.len() as int
            } else {
                rows[i].len() as int
            };
            &&& object is Object
            &&& order::keys_ascending(object->Object_0)
            &&& value::has_key(object->Object_0, key) <==> exists|k: int|
                0 <= k < n && #[trigger] keys[k] == key
            &&& 0 <= j < n && (forall|k: int| j < k < n ==> #[trigger] keys[k] != keys[j])
                ==> value::lookup(object->Object_0, keys[j]) == Some(to_json(rows[i][j]))
        }),
{
    let m = row_to_json(keys, rows[i]);
    let object = to_json(Tree::Template { keys, rows })->Array_0[i];
    assert(object == Json::Object(order::gathered(m)));
    assert(forall|k: int| 0 <= k < m.len() ==> (#[trigger] m[k]).0 == keys[k]);
    order::gathered_invents_nothing(m);
    order::last_one_wins(m, j, key);
    if value::has_key(m, key) {
        assert(keys[value::position(m, key)] == key);
    }
    if exists|k: int| 0 <= k < m.len() && #[trigger] keys[k] == key {
        let k = choose|k: int| 0 <= k < m.len() && #[trigger] keys[k] == key;
        assert(m[k].0 == key);
    }
}

/// `j` is a document: negative integers are negative, the text of a float denotes that float,
/// and the keys of an object ascend.
pub open spec fn well_formed(j: Json) -> bool
    decreases j,
{
    match j {
        Json::Number(JsonNumber::NegInt(i)) => i < 0,
        Json::Number(JsonNumber::Float(t)) => real_reading(t) == Some(JsonNumber::Float(t)),
        Json::Array(a) => forall|i: int| 0 <= i < a.len() ==> well_formed(#[trigger] a[i]),
        Json::Object(e) => {
            &&& order::keys_ascending(e)
            &&& forall|i: int| 0 <= i < e.len() ==> well_formed((#[trigger] e[i]).1)
        },
        _ => true,
    }
}

/// No integer of `j` is above the range of the protocol's integers.
pub open spec fn in_range(j: Json) -> bool
    decreases j,
{
    match j {
        Json::Number(JsonNumber::PosInt(u)) => u <= i64::MAX,
        Json::Array(a) => forall|i: int| 0 <= i < a.len() ==> in_range(#[trigger] a[i]),
        Json::Object(e) => forall|i: int| 0 <= i < e.len() ==> in_range((#[trigger] e[i]).1),
        _ => true,
    }
}

/// A document that was turned into a protocol value and back is the same document.
pub proof fn document_survives(j: Json)
    requires
        well_formed(j),
        in_range(j),
    ensures
        to_json(of_json(j)) == j,
    decreases j,
{
    match j {
        Json::Array(a) => {
            assert forall|i: int| 0 <= i < a.len() implies to_json(of_json(#[trigger] a[i]))
                == a[i] by {
                assert(decreases_to!(j => j->Array_0[i]));
                document_survives(a[i]);
            }
            assert(to_json(of_json(j))->Array_0 =~= a);
        },
        Json::Object(e) => {
            assert forall|i: int| 0 <= i < e.len() implies to_json(of_json((#[trigger] e[i]).1))
                == e[i].1 by {
                assert(decreases_to!(j => j->Object_0[i].1));
                document_survives(e[i].1);
            }
            assert(members_to_json(of_json(j)->Object_0) =~= e);
            order::gathered_keeps_order(e);
        },
        _ => {},
    }
}

/// What holds of every value, as `value_to_serde` shows: each number of `t` that a document can
/// hold is there a float whose decimal text denotes that same number, and no object has a key
/// twice.
pub open spec fn is_value(t: Tree) -> bool
    decreases t,
{
    match t {
        Tree::Real(r) => real_reading(r) is Some ==> real_reading(r)->0 is Float && real_reading(
            real_reading(r)->0->Float_0,
        ) == real_reading(r),
        Tree::Array(a) => forall|i: int| 0 <= i < a.len() ==> is_value(#[trigger] a[i]),
        Tree::Object(e) => {
            &&& value::keys_distinct(e)
            &&& forall|i: int| 0 <= i < e.len() ==> is_value((#[trigger] e[i]).1)
        },
        Tree::Template { keys, rows } => forall|i: int, j: int|
            0 <= i < rows.len() && 0 <= j < rows[i].len() && j < keys.len() ==> is_value(
                #[trigger] rows[i][j],
            ),
        _ => true,
    }
}

/// What stands for a protocol value is a document, and its integers are in range.
pub proof fn values_become_documents(t: Tree)
    requires
        is_value(t),
    ensures
        well_formed(to_json(t)),
        in_range(to_json(t)),
    decreases t,
{
    match t {
        Tree::Array(a) => {
            assert forall|i: int| 0 <= i < a.len() implies well_formed(to_json(#[trigger] a[i]))
                && in_range(to_json(a[i])) by {
                assert(decreases_to!(t => t->Array_0[i]));
                values_become_documents(a[i]);
            }
            assert forall|i: int| 0 <= i < a.len() implies well_formed(
                #[trigger] to_json(t)->Array_0[i],
            ) && in_range(to_json(t)->Array_0[i]) by {
                assert(to_json(t)->Array_0[i] == to_json(a[i]));
            }
        },
        Tree::Object(e) => {
            let m = members_to_json(e);
            assert forall|i: int| 0 <= i < m.len() implies well_formed((#[trigger] m[i]).1)
                && in_range(m[i].1) by {
                assert(decreases_to!(t => t->Object_0[i].1));
                values_become_documents(e[i].1);
            }
            members_make_a_document(m);
        },
        Tree::Template { keys, rows } => {
            let list = to_json(t)->Array_0;
            assert forall|i: int| 0 <= i < rows.len() implies well_formed(#[trigger] list[i])
                && in_range(list[i]) by {
                let m = row_to_json(keys, rows[i]);
                assert forall|j: int| 0 <= j < m.len() implies well_formed((#[trigger] m[j]).1)
                    && in_range(m[j].1) by {
                    assert(decreases_to!(t => t->rows[i][j]));
                    values_become_documents(rows[i][j]);
                }
                members_make_a_document(m);
            }
        },
        _ => {},
    }
}

/// Members that are documents make an object that is a document.
proof fn members_make_a_document(m: Seq<(Seq<char>, Json)>)
    requires
        forall|i: int| 0 <= i < m.len() ==> well_formed((#[trigger] m[i]).1) && in_range(m[i].1),
    ensures
        well_formed(Json::Object(order::gathered(m))),
        in_range(Json::Object(order::gathered(m))),
{
    let g = order::gathered(m);
    order::gathered_invents_nothing(m);
    assert forall|i: int| 0 <= i < g.len() implies well_formed((#[trigger] g[i]).1) && in_range(
        g[i].1,
    ) by {
        assert(m.contains(g[i]));
        let p = choose|p: int| 0 <= p < m.len() && m[p] == g[i];
        assert(well_formed(m[p].1));
    }
}

/// A second pass changes nothing: the document that stands for a value is also the one that
/// stands for what is read back out of it, whatever the value holds.
pub proof fn second_pass_changes_nothing(t: Tree)
    requires
        is_value(t),
    ensures
        to_json(of_json(to_json(t))) == to_json(t),
{
    values_become_documents(t);
    document_survives(to_json(t));
}

/// `t` is made of what a JSON document can say: no byte strings, no tables, no numbers that are
/// not finite.
pub open spec fn plain(t: Tree) -> bool
    decreases t,
{
    match t {
        Tree::Real(r) => real_reading(r) is Some,
        Tree::Bytes(_) => false,
        Tree::Template { .. } => false,
        Tree::Array(a) => forall|i: int| 0 <= i < a.len() ==> plain(#[trigger] a[i]),
        Tree::Object(e) => forall|i: int| 0 <= i < e.len() ==> plain((#[trigger] e[i]).1),
        _ => true,
    }
}

/// `a` and `b` are the same value: the order of the members of an object does not matter, nor
/// how a number is written. At every depth, each key finds the same value in both.
pub open spec fn same(a: Tree, b: Tree) -> bool
    decreases a,
{
    match a {
        Tree::Real(r) => b is Real && real_reading(r) == real_reading(b->Real_0),
        Tree::Array(s) => {
            &&& b is Array
            &&& b->Array_0.len() == s.len()
            &&& forall|i: int| 0 <= i < s.len() ==> same(#[trigger] s[i], b->Array_0[i])
        },
        Tree::Object(e) => {
            &&& b is Object
            &&& b->Object_0.len() == e.len()
            &&& forall|key: Seq<char>| #[trigger]
                value::has_key(b->Object_0, key) == value::has_key(e, key)
            &&& forall|i: int|
                0 <= i < e.len() ==> same(
                    (#[trigger] e[i]).1,
                    value::lookup(b->Object_0, e[i].0)->0,
                )
        },
        _ => a == b,
    }
}

/// A plain protocol value that was turned into a document and back is the same value, whatever
/// the order of its members.
pub proof fn plain_value_survives(t: Tree)
    requires
        plain(t),
        is_value(t),
    ensures
        same(t, of_json(to_json(t))),
    decreases t,
{
    match t {
        Tree::Array(a) => {
            let back = of_json(to_json(t));
            assert forall|i: int| 0 <= i < a.len() implies same(
                #[trigger] a[i],
                back->Array_0[i],
            ) by {
                assert(decreases_to!(t => t->Array_0[i]));
                plain_value_survives(a[i]);
                assert(back->Array_0[i] == of_json(to_json(a[i])));
            }
        },
        Tree::Object(e) => {
            let m = members_to_json(e);
            let g = order::gathered(m);
            let back = of_json(to_json(t))->Object_0;
            assert(forall|i: int| 0 <= i < e.len() ==> (#[trigger] m[i]).0 == e[i].0);
            assert(forall|i: int| 0 <= i < g.len() ==> (#[trigger] back[i]).0 == g[i].0);
            order::gathered_invents_nothing(m);
            order::ascending_keys_are_distinct(g);
            object_keeps_members(e, Seq::empty());
            assert forall|key: Seq<char>| #[trigger]
                value::has_key(back, key) == value::has_key(e, key) by {
                object_keeps_members(e, key);
                if value::has_key(g, key) {
                    assert(back[value::position(g, key)].0 == key);
                }
                if value::has_key(back, key) {
                    assert(g[value::position(back, key)].0 == key);
                }
            }
            assert forall|i: int| 0 <= i < e.len() implies same(
                (#[trigger] e[i]).1,
                value::lookup(back, e[i].0)->0,
            ) by {
                let key = e[i].0;
                assert(decreases_to!(t => t->Object_0[i].1));
                plain_value_survives(e[i].1);
                object_keeps_members(e, key);
                assert(value::has_key(e, key));
                assert(value::has_key(back, key));
                assert(value::position(e, key) == i);
                let p = value::position(back, key);
                assert(back[p].0 == key);
                assert(g[p].0 == key);
                assert(value::position(g, key) == p);
                assert(back[p].1 == of_json(to_json(e[i].1)));
            }
        },
        _ => {},
    }
}

/// An object that is turned into a document keeps all its members, whatever their order: each
/// key finds the document that stands for the value it found before.
pub proof fn object_keeps_members(e: Seq<(Seq<char>, Tree)>, key: Seq<char>)
    requires
        value::keys_distinct(e),
    ensures
        to_json(Tree::Object(e)) is Object,
        to_json(Tree::Object(e))->Object_0.len() == e.len(),
        value::lookup(to_json(Tree::Object(e))->Object_0, key) == (match value::lookup(e, key) {
            Some(t) => Some(to_json(t)),
            None => None,
        }),
{
    let m = members_to_json(e);
    assert(forall|i: int| 0 <= i < e.len() ==> (#[trigger] m[i]).0 == e[i].0);
    order::gathered_keeps_entries(m, key);
    if value::has_key(e, key) {
        let p = value::position(e, key);
        assert(m[p].0 == key);
    }
    if value::has_key(m, key) {
        let p = value::position(m, key);
        assert(e[p].0 == key);
    }
}

/// The keys and the values of a row taken side by side.
pub open spec fn row_members(keys: Seq<Seq<char>>, row: Seq<Tree>) -> Seq<(Seq<char>, Tree)> {
    Seq::new(paired_len(keys.len(), row.len()), |j: int| (keys[j], row[j]))
}

/// A table is shown as the list of the objects that its rows abbreviate.
pub proof fn table_is_shown_as_its_objects(keys: Seq<Seq<char>>, rows: Seq<Seq<Tree>>)
    ensures
        to_json(Tree::Template { keys, rows }) == to_json(
            Tree::Array(
                Seq::new(rows.len(), |i: int| Tree::Object(row_members(keys, rows[i]))),
            ),
        ),
{
    let objects = Seq::new(rows.len(), |i: int| Tree::Object(row_members(keys, rows[i])));
    let table = to_json(Tree::Template { keys, rows })->Array_0;
    let list = to_json(Tree::Array(objects))->Array_0;
    assert forall|i: int| 0 <= i < rows.len() implies table[i] == list[i] by {
        let members = row_members(keys, rows[i]);
        assert(members_to_json(members) =~= row_to_json(keys, rows[i]));
        assert(list[i] == to_json(Tree::Object(members)));
    }
    assert(table =~= list);
}

} // verus!
