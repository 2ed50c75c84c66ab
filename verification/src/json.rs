//! JSON values, by what they hold.

use crate::numeral::{decimal, decimal_text};
use crate::order::{ascending, lemma_less_total, listing_is_unique};
use crate::text::{join, same, views};
use vstd::prelude::*;

verus! {

/// A JSON number: its numeral, and its value where that is a signed 64-bit
/// integer.
#[derive(Debug)]
pub struct JsonNumber {
    pub integer: Option<i64>,
    pub numeral: String,
}

/// A JSON value. A value that was read is `well_formed`: the fields of its
/// objects stand in ascending order of their keys.
#[derive(Debug)]
pub enum Json {
    Null,
    Bool(bool),
    Number(JsonNumber),
    Text(String),
    List(Vec<Json>),
    Object(Vec<(String, Json)>),
}

/// What a `Json` holds.
pub enum JsonView {
    Null,
    Bool(bool),
    Number(Option<i64>, Seq<char>),
    Text(Seq<char>),
    List(Seq<JsonView>),
    Object(Seq<(Seq<char>, JsonView)>),
}

/// What a value holds.
pub open spec fn json_view(json: Json) -> JsonView
    decreases json,
{
    match json {
        Json::Null => JsonView::Null,
        Json::Bool(b) => JsonView::Bool(b),
        Json::Number(n) => JsonView::Number(n.integer, n.numeral@),
        Json::Text(s) => JsonView::Text(s@),
        Json::List(items) => JsonView::List(
            Seq::new(
                items.len() as nat,
                |i: int|
                    if 0 <= i < items.len() {
                        json_view(items[i])
                    } else {
                        JsonView::Null
                    },
            ),
        ),
        Json::Object(fields) => JsonView::Object(
            Seq::new(
                fields.len() as nat,
                |i: int|
                    if 0 <= i < fields.len() {
                        (fields[i].0@, json_view(fields[i].1))
                    } else {
                        (seq![], JsonView::Null)
                    },
            ),
        ),
    }
}

impl View for Json {
    type V = JsonView;

    open spec fn view(&self) -> JsonView {
        json_view(*self)
    }
}

// ---------------------------------------------------------------------------
// Looking into values
// ---------------------------------------------------------------------------

/// The value of the first field from `from` on that has this key.
pub open spec fn field_from(
    fields: Seq<(Seq<char>, JsonView)>,
    key: Seq<char>,
    from: int,
) -> Option<JsonView>
    decreases fields.len() - from,
{
    if from >= fields.len() {
        None
    } else if fields[from].0 == key {
        Some(fields[from].1)
    } else {
        field_from(fields, key, from + 1)
    }
}

/// The only field with a key from `from` on is the one that is found.
pub proof fn lemma_field_at(
    fields: Seq<(Seq<char>, JsonView)>,
    key: Seq<char>,
    from: int,
    i: int,
)
    requires
        0 <= from <= i < fields.len(),
        fields[i].0 == key,
        forall|k: int| from <= k < i ==> (#[trigger] fields[k]).0 != key,
    ensures
        field_from(fields, key, from) == Some(fields[i].1),
    decreases i - from,
{
    if from < i {
        assert(fields[from].0 != key);
        lemma_field_at(fields, key, from + 1, i);
    }
}

impl JsonView {
    /// The field of an object; nothing for any other value.
    pub open spec fn field(self, key: Seq<char>) -> Option<JsonView> {
        match self {
            JsonView::Object(fields) => field_from(fields, key, 0),
            _ => None,
        }
    }

    /// The text of a string.
    pub open spec fn text(self) -> Option<Seq<char>> {
        match self {
            JsonView::Text(s) => Some(s),
            _ => None,
        }
    }

    /// The integer that a number is.
    pub open spec fn integer(self) -> Option<i64> {
        match self {
            JsonView::Number(n, _) => n,
            _ => None,
        }
    }

    /// The items of a list.
    pub open spec fn items(self) -> Option<Seq<JsonView>> {
        match self {
            JsonView::List(items) => Some(items),
            _ => None,
        }
    }

    /// The text of a field that is a string.
    pub open spec fn text_field(self, key: Seq<char>) -> Option<Seq<char>> {
        match self.field(key) {
            Some(value) => value.text(),
            None => None,
        }
    }

    /// The integer of a field that is one.
    pub open spec fn integer_field(self, key: Seq<char>) -> Option<i64> {
        match self.field(key) {
            Some(value) => value.integer(),
            None => None,
        }
    }
}

/// The value behind an optional reference.
pub open spec fn opt_json(value: Option<&Json>) -> Option<JsonView> {
    match value {
        Some(json) => Some(json@),
        None => None,
    }
}

/// The text behind an optional reference.
pub open spec fn opt_text(value: Option<&str>) -> Option<Seq<char>> {
    match value {
        Some(s) => Some(s@),
        None => None,
    }
}

impl Json {
    /// The field of an object; nothing for any other value.
    pub fn get(&self, key: &str) -> (r: Option<&Json>)
        ensures
            opt_json(r) == self@.field(key@),
            r is Some ==> decreases_to!(*self => *r->0),
    {
        match self {
            Json::Object(fields) => {
                let ghost all = self@->Object_0;
                let mut i: usize = 0;
                while i < fields.len()
                    invariant
                        i <= fields@.len(),
                        *self == Json::Object(*fields),
                        all == self@->Object_0,
                        all.len() == fields@.len(),
                        field_from(all, key@, 0) == field_from(all, key@, i as int),
                    decreases fields@.len() - i,
                {
                    assert(all[i as int] == (fields[i as int].0@, json_view(fields[i as int].1)));
                    if same(fields[i].0.as_str(), key) {
                        return Some(&fields[i].1);
                    }
                    i = i + 1;
                }
                None
            },
            _ => None,
        }
    }

    /// The text of a string.
    pub fn as_str(&self) -> (r: Option<&str>)
        ensures
            opt_text(r) == self@.text(),
    {
        match self {
            Json::Text(s) => Some(s.as_str()),
            _ => None,
        }
    }

    /// The integer that a number is.
    pub fn as_i64(&self) -> (r: Option<i64>)
        ensures
            r == self@.integer(),
    {
        match self {
            Json::Number(n) => n.integer,
            _ => None,
        }
    }

    /// Tells whether the value is null.
    pub fn is_null(&self) -> (r: bool)
        ensures
            r == (self@ == JsonView::Null),
    {
        match self {
            Json::Null => true,
            _ => false,
        }
    }

    /// Tells whether the value is an object.
    pub fn is_object(&self) -> (r: bool)
        ensures
            r == (self@ is Object),
    {
        match self {
            Json::Object(_) => true,
            _ => false,
        }
    }

    /// The text of a field that is a string.
    pub fn text_field(&self, key: &str) -> (r: Option<&str>)
        ensures
            opt_text(r) == self@.text_field(key@),
    {
        match self.get(key) {
            Some(value) => value.as_str(),
            None => None,
        }
    }

    /// The integer of a field that is one.
    pub fn integer_field(&self, key: &str) -> (r: Option<i64>)
        ensures
            r == self@.integer_field(key@),
    {
        match self.get(key) {
            Some(value) => value.as_i64(),
            None => None,
        }
    }
}

/// Every item is a text.
pub open spec fn all_texts(items: Seq<JsonView>) -> bool {
    forall|i: int| 0 <= i < items.len() ==> (#[trigger] items[i]) is Text
}

/// The texts of a value that is a list of texts.
pub open spec fn list_of_texts(value: JsonView) -> Option<Seq<Seq<char>>> {
    match value {
        JsonView::List(items) => if all_texts(items) {
            Some(Seq::new(items.len(), |i: int| items[i]->Text_0))
        } else {
            None
        },
        _ => None,
    }
}

/// The texts of a value that is a list of texts.
pub fn read_texts(json: &Json) -> (r: Option<Vec<String>>)
    ensures
        match r {
            Some(texts) => list_of_texts(json@) == Some(views(texts@)),
            None => list_of_texts(json@) is None,
        },
{
    match json {
        Json::List(items) => {
            let ghost all = json@->List_0;
            let mut texts: Vec<String> = Vec::new();
            let mut i: usize = 0;
            while i < items.len()
                invariant
                    i <= items@.len(),
                    *json == Json::List(*items),
                    all == json@->List_0,
                    json@ is List,
                    all.len() == items@.len(),
                    texts@.len() == i,
                    forall|k: int|
                        0 <= k < i ==> (#[trigger] all[k]) is Text && all[k]->Text_0
                            == texts@[k]@,
                decreases items@.len() - i,
            {
                assert(all[i as int] == items@[i as int]@);
                match items[i].as_str() {
                    Some(text) => {
                        texts.push(text.to_owned());
                    },
                    None => {
                        assert(!(all[i as int] is Text));
                        return None;
                    },
                }
                i = i + 1;
            }
            assert(views(texts@) =~= Seq::new(all.len(), |k: int| all[k]->Text_0));
            Some(texts)
        },
        _ => None,
    }
}

/// The numeral of an integer.
pub open spec fn integer_numeral(n: int) -> Seq<char> {
    if n < 0 {
        "-"@ + decimal((-n) as nat)
    } else {
        decimal(n as nat)
    }
}

/// An integer as a value.
pub fn integer_json(n: i64) -> (r: Json)
    ensures
        r@ == JsonView::Number(Some(n), integer_numeral(n as int)),
{
    let numeral = if n < 0 {
        let magnitude: u64 = (-(n + 1)) as u64 + 1;
        let digits = decimal_text(magnitude);
        join("-", digits.as_str())
    } else {
        decimal_text(n as u64)
    };
    Json::Number(JsonNumber { integer: Some(n), numeral })
}

/// A copy of a value.
pub fn copy_json(json: &Json) -> (r: Json)
    ensures
        r@ == json@,
    decreases *json,
{
    match json {
        Json::Null => Json::Null,
        Json::Bool(b) => Json::Bool(*b),
        Json::Number(n) => Json::Number(
            JsonNumber { integer: n.integer, numeral: n.numeral.clone() },
        ),
        Json::Text(s) => Json::Text(s.clone()),
        Json::List(items) => {
            let mut out: Vec<Json> = Vec::new();
            let mut i: usize = 0;
            while i < items.len()
                invariant
                    i <= items@.len(),
                    i == out@.len(),
                    *json == Json::List(*items),
                    forall|k: int| 0 <= k < i ==> (#[trigger] out@[k])@ == items@[k]@,
                decreases items@.len() - i,
            {
                let ghost item = items@[i as int];
                assert(json@->List_0[i as int] == item@);
                out.push(copy_json(&items[i]));
                i = i + 1;
            }
            let r = Json::List(out);
            assert(r@->List_0 =~= json@->List_0);
            r
        },
        Json::Object(fields) => {
            let mut out: Vec<(String, Json)> = Vec::new();
            let mut i: usize = 0;
            while i < fields.len()
                invariant
                    i <= fields@.len(),
                    i == out@.len(),
                    *json == Json::Object(*fields),
                    forall|k: int|
                        0 <= k < i ==> (#[trigger] out@[k]).0@ == fields@[k].0@ && out@[k].1@
                            == fields@[k].1@,
                decreases fields@.len() - i,
            {
                let ghost field = fields@[i as int];
                assert(json@->Object_0[i as int] == (field.0@, field.1@));
                out.push((fields[i].0.clone(), copy_json(&fields[i].1)));
                i = i + 1;
            }
            let r = Json::Object(out);
            assert(r@->Object_0 =~= json@->Object_0);
            r
        },
    }
}

// ---------------------------------------------------------------------------
// Equality
// ---------------------------------------------------------------------------

/// Numerals of one number: the same text, or the two signs of zero.
pub open spec fn same_number(a: Seq<char>, b: Seq<char>) -> bool {
    a == b || ((a == "0.0"@ || a == "-0.0"@) && (b == "0.0"@ || b == "-0.0"@))
}

/// Equal values: of one kind, with equal parts.
pub open spec fn json_eq(a: JsonView, b: JsonView) -> bool
    decreases a,
{
    match (a, b) {
        (JsonView::Null, JsonView::Null) => true,
        (JsonView::Bool(x), JsonView::Bool(y)) => x == y,
        (JsonView::Number(_, x), JsonView::Number(_, y)) => same_number(x, y),
        (JsonView::Text(x), JsonView::Text(y)) => x == y,
        (JsonView::List(x), JsonView::List(y)) => x.len() == y.len() && forall|i: int|
            0 <= i < x.len() ==> json_eq(#[trigger] x[i], y[i]),
        (JsonView::Object(x), JsonView::Object(y)) => x.len() == y.len() && forall|i: int|
            0 <= i < x.len() ==> (#[trigger] x[i]).0 == y[i].0 && json_eq(x[i].1, y[i].1),
        _ => false,
    }
}

fn same_numeral(a: &str, b: &str) -> (r: bool)
    ensures
        r == same_number(a@, b@),
{
    same(a, b) || ((same(a, "0.0") || same(a, "-0.0")) && (same(b, "0.0") || same(b, "-0.0")))
}

/// Tells whether two values are equal.
pub fn json_equal(a: &Json, b: &Json) -> (r: bool)
    ensures
        r == json_eq(a@, b@),
    decreases *a,
{
    match (a, b) {
        (Json::Null, Json::Null) => true,
        (Json::Bool(x), Json::Bool(y)) => *x == *y,
        (Json::Number(x), Json::Number(y)) => same_numeral(x.numeral.as_str(), y.numeral.as_str()),
        (Json::Text(x), Json::Text(y)) => same(x.as_str(), y.as_str()),
        (Json::List(x), Json::List(y)) => {
            if x.len() != y.len() {
                return false;
            }
            let ghost p = a@->List_0;
            let ghost q = b@->List_0;
            let mut i: usize = 0;
            while i < x.len()
                invariant
                    i <= x@.len() == y@.len(),
                    *a == Json::List(*x),
                    *b == Json::List(*y),
                    p == a@->List_0,
                    q == b@->List_0,
                    forall|k: int| 0 <= k < i ==> json_eq(#[trigger] p[k], q[k]),
                decreases x@.len() - i,
            {
                assert(p[i as int] == x@[i as int]@);
                assert(q[i as int] == y@[i as int]@);
                if !json_equal(&x[i], &y[i]) {
                    return false;
                }
                i = i + 1;
            }
            true
        },
        (Json::Object(x), Json::Object(y)) => {
            if x.len() != y.len() {
                return false;
            }
            let ghost p = a@->Object_0;
            let ghost q = b@->Object_0;
            let mut i: usize = 0;
            while i < x.len()
                invariant
                    i <= x@.len() == y@.len(),
                    *a == Json::Object(*x),
                    *b == Json::Object(*y),
                    p == a@->Object_0,
                    q == b@->Object_0,
                    forall|k: int|
                        0 <= k < i ==> (#[trigger] p[k]).0 == q[k].0 && json_eq(p[k].1, q[k].1),
                decreases x@.len() - i,
            {
                assert(p[i as int] == (x@[i as int].0@, x@[i as int].1@));
                assert(q[i as int] == (y@[i as int].0@, y@[i as int].1@));
                if !same(x[i].0.as_str(), y[i].0.as_str()) || !json_equal(&x[i].1, &y[i].1) {
                    return false;
                }
                i = i + 1;
            }
            true
        },
        _ => false,
    }
}

/// Every value is equal to itself.
pub proof fn json_eq_reflexive(a: JsonView)
    ensures
        json_eq(a, a),
    decreases a,
{
    match a {
        JsonView::List(x) => {
            assert forall|i: int| 0 <= i < x.len() implies json_eq(#[trigger] x[i], x[i]) by {
                json_eq_reflexive(x[i]);
            }
        },
        JsonView::Object(x) => {
            assert forall|i: int| 0 <= i < x.len() implies (#[trigger] x[i]).0 == x[i].0 && json_eq(
                x[i].1,
                x[i].1,
            ) by {
                json_eq_reflexive(x[i].1);
            }
        },
        _ => {},
    }
}

// ---------------------------------------------------------------------------
// Objects in order
// ---------------------------------------------------------------------------

/// The keys of fields.
pub open spec fn keys_of(fields: Seq<(Seq<char>, JsonView)>) -> Seq<Seq<char>> {
    Seq::new(fields.len(), |i: int| fields[i].0)
}

/// The fields of every object in a value stand in ascending order of their
/// keys.
pub open spec fn well_formed(value: JsonView) -> bool
    decreases value,
{
    match value {
        JsonView::List(items) => forall|i: int|
            0 <= i < items.len() ==> well_formed(#[trigger] items[i]),
        JsonView::Object(fields) => ascending(keys_of(fields)) && forall|i: int|
            0 <= i < fields.len() ==> well_formed((#[trigger] fields[i]).1),
        _ => true,
    }
}

/// Two values hold the same: lists item by item, and objects under the same
/// keys, in whatever order their fields stand.
pub open spec fn same_contents(a: JsonView, b: JsonView) -> bool
    decreases a,
{
    match (a, b) {
        (JsonView::List(x), JsonView::List(y)) => x.len() == y.len() && forall|i: int|
            0 <= i < x.len() ==> same_contents(#[trigger] x[i], y[i]),
        (JsonView::Object(x), JsonView::Object(y)) => {
            &&& forall|key: Seq<char>| keys_of(x).contains(key) <==> keys_of(y).contains(key)
            &&& forall|i: int, j: int|
                0 <= i < x.len() && 0 <= j < y.len() && (#[trigger] x[i]).0 == (#[trigger] y[j]).0
                    ==> same_contents(x[i].1, y[j].1)
        },
        (JsonView::Object(_), _) | (JsonView::List(_), _) => false,
        _ => json_eq(a, b),
    }
}

/// Values whose objects are in order are equal exactly where they hold the
/// same.
pub proof fn equal_values_hold_the_same(a: JsonView, b: JsonView)
    requires
        well_formed(a),
        well_formed(b),
    ensures
        json_eq(a, b) <==> same_contents(a, b),
    decreases a,
{
    match (a, b) {
        (JsonView::List(x), JsonView::List(y)) => {
            if x.len() == y.len() {
                assert forall|i: int| 0 <= i < x.len() implies json_eq(#[trigger] x[i], y[i])
                    <==> same_contents(x[i], y[i]) by {
                    equal_values_hold_the_same(x[i], y[i]);
                }
                if json_eq(a, b) {
                    assert forall|i: int| 0 <= i < x.len() implies same_contents(
                        #[trigger] x[i],
                        y[i],
                    ) by {
                        assert(json_eq(x[i], y[i]));
                    }
                }
                if same_contents(a, b) {
                    assert forall|i: int| 0 <= i < x.len() implies json_eq(
                        #[trigger] x[i],
                        y[i],
                    ) by {
                        assert(same_contents(x[i], y[i]));
                    }
                }
            }
        },
        (JsonView::Object(x), JsonView::Object(y)) => {
            let p = keys_of(x);
            let q = keys_of(y);
            if same_contents(a, b) {
                listing_is_unique(p, q);
                assert forall|i: int| 0 <= i < x.len() implies (#[trigger] x[i]).0 == y[i].0
                    && json_eq(x[i].1, y[i].1) by {
                    assert(p[i] == q[i]);
                    assert(x[i].0 == y[i].0);
                    equal_values_hold_the_same(x[i].1, y[i].1);
                }
            }
            if json_eq(a, b) {
                assert(p =~= q) by {
                    assert forall|i: int| 0 <= i < x.len() implies p[i] == q[i] by {
                        assert(x[i].0 == y[i].0);
                    }
                }
                assert forall|i: int, j: int|
                    0 <= i < x.len() && 0 <= j < y.len() && (#[trigger] x[i]).0 == (
                    #[trigger] y[j]).0 implies same_contents(x[i].1, y[j].1) by {
                    assert(p[i] == q[j] && q[j] == p[j]);
                    lemma_less_total(p[i], p[j]);
                    assert(i == j);
                    assert(json_eq(x[i].1, y[i].1));
                    equal_values_hold_the_same(x[i].1, y[j].1);
                }
            }
        },
        _ => {},
    }
}

// ---------------------------------------------------------------------------
// Between values and their text
// ---------------------------------------------------------------------------

/// A value of the JSON crate.
#[verifier::external_type_specification]
#[verifier::external_body]
pub struct ExJsonValue(serde_json::Value);

/// `serde_json::Value` variant by variant: a number keeps `as_i64` and its
/// display, and an object its entries in the order of the map. Nothing is
/// claimed of the result.
#[verifier::external_body]
fn json_of(value: serde_json::Value) -> (r: Json) {
    match value {
        serde_json::Value::Null => Json::Null,
        serde_json::Value::Bool(b) => Json::Bool(b),
        serde_json::Value::Number(n) => Json::Number(
            JsonNumber { integer: n.as_i64(), numeral: n.to_string() },
        ),
        serde_json::Value::String(s) => Json::Text(s),
        serde_json::Value::Array(items) => Json::List(items.into_iter().map(json_of).collect()),
        serde_json::Value::Object(fields) => Json::Object(
            fields.into_iter().map(|(key, value)| (key, json_of(value))).collect(),
        ),
    }
}

/// `serde_json::Value` built variant by variant; a number is read from its
/// numeral by `serde_json::Number`. Nothing is claimed of the result.
#[verifier::external_body]
fn value_of(json: &Json) -> (r: serde_json::Value) {
    match json {
        Json::Null => serde_json::Value::Null,
        Json::Bool(b) => serde_json::Value::Bool(*b),
        Json::Number(n) => n.numeral.parse::<serde_json::Number>().map_or(
            serde_json::Value::Null,
            serde_json::Value::Number,
        ),
        Json::Text(s) => serde_json::Value::String(s.clone()),
        Json::List(items) => serde_json::Value::Array(items.iter().map(value_of).collect()),
        Json::Object(fields) => serde_json::Value::Object(
            fields.iter().map(|(key, value)| (key.clone(), value_of(value))).collect(),
        ),
    }
}

/// The value that `serde_json::from_slice` reads from bytes.
pub uninterp spec fn parsed_json(bytes: Seq<u8>) -> Option<JsonView>;

/// The compact text that `serde_json::to_string` writes for a value.
pub uninterp spec fn json_text_of(value: JsonView) -> Seq<char>;

/// `serde_json::from_slice`: the value that the bytes spell, or nothing where
/// they spell none. The map of an object is an ordered one, so its fields come
/// in ascending order of their keys.
#[verifier::external_body]
pub(crate) fn parse_json(bytes: &[u8]) -> (r: Option<Json>)
    ensures
        match r {
            Some(json) => parsed_json(bytes@) == Some(json@) && well_formed(json@),
            None => parsed_json(bytes@) is None,
        },
{
    serde_json::from_slice::<serde_json::Value>(bytes).ok().map(json_of)
}

/// `serde_json::Value`'s display, which is `serde_json::to_string`: the
/// compact text of a value.
#[verifier::external_body]
pub(crate) fn json_text(json: &Json) -> (r: String)
    ensures
        r@ == json_text_of(json@),
{
    value_of(json).to_string()
}

/// A field is the first that has the key; a value that is no object has none.
pub proof fn fields_are_found_by_key(
    key: Seq<char>,
    value: JsonView,
    fields: Seq<(Seq<char>, JsonView)>,
    other: JsonView,
)
    requires
        !(other is Object),
    ensures
        other.field(key) is None,
        JsonView::Object(seq![]).field(key) is None,
        JsonView::Object(seq![(key, value)] + fields).field(key) == Some(value),
        JsonView::Object(fields).field(key) is None <==> forall|i: int|
            0 <= i < fields.len() ==> (#[trigger] fields[i]).0 != key,
{
    let all = seq![(key, value)] + fields;
    assert(all[0] == (key, value));
    lemma_no_field(fields, key, 0);
}

proof fn lemma_no_field(fields: Seq<(Seq<char>, JsonView)>, key: Seq<char>, from: int)
    requires
        0 <= from <= fields.len(),
    ensures
        field_from(fields, key, from) is None <==> forall|i: int|
            from <= i < fields.len() ==> (#[trigger] fields[i]).0 != key,
    decreases fields.len() - from,
{
    if from < fields.len() {
        lemma_no_field(fields, key, from + 1);
        assert(fields[from].0 == key || fields[from].0 != key);
    }
}

/// A text, a number and a list are each read as what they are and as nothing
/// else.
pub proof fn values_are_read_as_what_they_are(
    value: JsonView,
    text: Seq<char>,
    n: i64,
    numeral: Seq<char>,
    items: Seq<JsonView>,
    key: Seq<char>,
)
    ensures
        JsonView::Text(text).text() == Some(text),
        value.text() is Some <==> value is Text,
        JsonView::Number(Some(n), numeral).integer() == Some(n),
        !(value is Number) ==> value.integer() is None,
        JsonView::List(items).items() == Some(items),
        value.items() is Some <==> value is List,
        value.text_field(key) is Some <==> value.field(key) is Some && value.field(key)->0 is Text,
        value.text_field(key) is Some ==> value.field(key)->0 == JsonView::Text(
            value.text_field(key)->0,
        ),
        value.integer_field(key) == if value.field(key) is Some {
            value.field(key)->0.integer()
        } else {
            None
        },
{
}

/// A list of texts is read whole and in order, where all of it are texts.
pub proof fn texts_are_read_from_lists(items: Seq<JsonView>, texts: Seq<Seq<char>>, value: JsonView)
    ensures
        list_of_texts(value) is Some <==> value is List && forall|i: int|
            0 <= i < value->List_0.len() ==> #[trigger] value->List_0[i] is Text,
        list_of_texts(
            JsonView::List(Seq::new(texts.len(), |i: int| JsonView::Text(texts[i]))),
        ) == Some(texts),
{
    let list = JsonView::List(Seq::new(texts.len(), |i: int| JsonView::Text(texts[i])));
    assert(all_texts(list->List_0));
    assert(list_of_texts(list)->0 =~= texts);
    if value is List && (forall|i: int|
        0 <= i < value->List_0.len() ==> #[trigger] value->List_0[i] is Text) {
        assert(all_texts(value->List_0));
    }
}

/// A number is written in decimal, with a minus before it where it is negative.
pub proof fn numbers_are_written_in_decimal(n: nat)
    ensures
        integer_numeral(n as int) == decimal(n),
        n > 0 ==> integer_numeral(-(n as int)) == "-"@ + decimal(n),
{
}

/// Values are the same where they are of one kind and hold the same; zero is
/// zero with either sign.
pub proof fn values_are_compared_by_kind(a: JsonView, b: JsonView)
    ensures
        json_eq(a, b) ==> (a is Null <==> b is Null) && (a is Bool <==> b is Bool) && (a is Number
            <==> b is Number) && (a is Text <==> b is Text) && (a is List <==> b is List) && (a
            is Object <==> b is Object),
        a is Text && b is Text ==> (json_eq(a, b) <==> a == b),
        a is Bool && b is Bool ==> (json_eq(a, b) <==> a == b),
        a is List && b is List && json_eq(a, b) ==> a->List_0.len() == b->List_0.len(),
        a is Object && b is Object && json_eq(a, b) ==> keys_of(a->Object_0) == keys_of(
            b->Object_0,
        ),
        same_number("0.0"@, "-0.0"@),
        a is Number && b is Number && a->Number_1 == b->Number_1 ==> json_eq(a, b),
        a is Number && b is Number && json_eq(a, b) && a->Number_1 != b->Number_1
            ==> a->Number_1 == "0.0"@ || a->Number_1 == "-0.0"@,
{
    if a is Object && b is Object && json_eq(a, b) {
        let x = a->Object_0;
        let y = b->Object_0;
        assert forall|i: int| 0 <= i < x.len() implies keys_of(x)[i] == keys_of(y)[i] by {
            assert(x[i].0 == y[i].0);
        }
        assert(keys_of(x) =~= keys_of(y));
    }
}

} // verus!
