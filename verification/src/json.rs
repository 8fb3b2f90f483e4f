//! JSON values of the library's own, and the calls that read and write JSON text.
use vstd::prelude::*;
use vstd::utf8::char_u32_cast;

use crate::text::{same_text, text};

verus! {

/// A JSON value.
#[derive(Debug)]
pub enum Json {
    Null,
    Bool(bool),
    /// A number without sign, fraction or exponent.
    Unsigned(u64),
    /// A number below zero without fraction or exponent.
    Negative(i64),
    /// Any other number, as its text.
    Decimal(String),
    Text(String),
    Array(Vec<Json>),
    /// The fields of an object; no two have the same name.
    Object(Vec<(String, Json)>),
}

/// The model of a [`Json`].
pub enum JsonV {
    Null,
    Bool(bool),
    Unsigned(u64),
    Negative(i64),
    Decimal(Seq<char>),
    Text(Seq<char>),
    Array(Seq<JsonV>),
    Object(Seq<(Seq<char>, JsonV)>),
}

/// The model of a JSON value.
pub open spec fn json_view(j: Json) -> JsonV
    decreases j,
{
    match j {
        Json::Null => JsonV::Null,
        Json::Bool(b) => JsonV::Bool(b),
        Json::Unsigned(n) => JsonV::Unsigned(n),
        Json::Negative(n) => JsonV::Negative(n),
        Json::Decimal(s) => JsonV::Decimal(s@),
        Json::Text(s) => JsonV::Text(s@),
        Json::Array(v) => JsonV::Array(
            Seq::new(
                v@.len(),
                |i: int|
                    if 0 <= i < v@.len() {
                        json_view(v@[i])
                    } else {
                        JsonV::Null
                    },
            ),
        ),
        Json::Object(v) => JsonV::Object(
            Seq::new(
                v@.len(),
                |i: int|
                    if 0 <= i < v@.len() {
                        (v@[i].0@, json_view(v@[i].1))
                    } else {
                        (seq![], JsonV::Null)
                    },
            ),
        ),
    }
}

impl View for Json {
    type V = JsonV;

    open spec fn view(&self) -> JsonV {
        json_view(*self)
    }
}

/// The models of a sequence of values.
pub open spec fn items_view(s: Seq<Json>) -> Seq<JsonV> {
    Seq::new(s.len(), |i: int| s[i]@)
}

/// The models of a sequence of fields.
pub open spec fn fields_view(s: Seq<(String, Json)>) -> Seq<(Seq<char>, JsonV)> {
    Seq::new(s.len(), |i: int| (s[i].0@, s[i].1@))
}

/// The model of an array is the array of the models.
pub proof fn lemma_array_view(v: Vec<Json>)
    ensures
        Json::Array(v)@ == JsonV::Array(items_view(v@)),
{
    assert(Json::Array(v)@->Array_0 =~= items_view(v@));
}

/// The model of an object has the models of the fields.
pub proof fn lemma_object_view(v: Vec<(String, Json)>)
    ensures
        Json::Object(v)@ == JsonV::Object(fields_view(v@)),
{
    assert(Json::Object(v)@->Object_0 =~= fields_view(v@));
}

// ---------------------------------------------------------------------------
// Reading and writing JSON text
// ---------------------------------------------------------------------------
/// `serde_json::Value`, a JSON value as `serde_json` holds it.
#[verifier::external_type_specification]
#[verifier::external_body]
pub struct ExValue(serde_json::Value);

/// What a `serde_json::Value` holds.
pub uninterp spec fn value_content(v: serde_json::Value) -> JsonV;

/// What `serde_json` reads from a text: a value, or the words of its error.
pub uninterp spec fn json_of_text(s: Seq<char>) -> Result<JsonV, Seq<char>>;

/// What `serde_json` holds for the text of a number with a fraction or exponent:
/// the nearest number that a machine can hold, as its shortest text, or nothing
/// where there is none.
pub uninterp spec fn held_decimal(s: Seq<char>) -> JsonV;

/// Whether a name comes before another one: by the first character in which they
/// differ, a name before those that it begins.
pub open spec fn name_below(a: Seq<char>, b: Seq<char>) -> bool
    decreases a.len(),
{
    if b.len() == 0 {
        false
    } else if a.len() == 0 {
        true
    } else if a[0] != b[0] {
        (a[0] as u32) < (b[0] as u32)
    } else {
        name_below(a.drop_first(), b.drop_first())
    }
}

/// Fields in the order of their names with one more, in place of the one with its
/// name.
pub open spec fn with_field(
    fields: Seq<(Seq<char>, JsonV)>,
    name: Seq<char>,
    value: JsonV,
) -> Seq<(Seq<char>, JsonV)>
    decreases fields.len(),
{
    if fields.len() == 0 {
        seq![(name, value)]
    } else if fields[0].0 == name {
        fields.update(0, (name, value))
    } else if name_below(name, fields[0].0) {
        seq![(name, value)] + fields
    } else {
        seq![fields[0]] + with_field(fields.drop_first(), name, value)
    }
}

/// Fields in the order of their names; of fields with the same name the last stays.
pub open spec fn in_order(fields: Seq<(Seq<char>, JsonV)>) -> Seq<(Seq<char>, JsonV)>
    decreases fields.len(),
{
    if fields.len() == 0 {
        seq![]
    } else {
        with_field(in_order(fields.drop_last()), fields.last().0, fields.last().1)
    }
}

/// What `serde_json` holds for each of several values.
pub open spec fn held_items(items: Seq<JsonV>) -> Seq<JsonV>
    decreases items,
{
    Seq::new(
        items.len(),
        |i: int|
            if 0 <= i < items.len() {
                json_held(items[i])
            } else {
                JsonV::Null
            },
    )
}

/// What `serde_json` holds for each of several fields.
pub open spec fn held_fields(fields: Seq<(Seq<char>, JsonV)>) -> Seq<(Seq<char>, JsonV)>
    decreases fields,
{
    Seq::new(
        fields.len(),
        |i: int|
            if 0 <= i < fields.len() {
                (fields[i].0, json_held(fields[i].1))
            } else {
                (seq![], JsonV::Null)
            },
    )
}

/// What `serde_json` holds for a value: an object's fields in the order of their
/// names, and of fields with the same name the last; a number without sign as such;
/// everything else as it is.
pub open spec fn json_held(j: JsonV) -> JsonV
    decreases j,
{
    match j {
        JsonV::Decimal(s) => held_decimal(s),
        JsonV::Negative(n) => if n < 0 {
            j
        } else {
            JsonV::Unsigned(n as u64)
        },
        JsonV::Array(items) => JsonV::Array(held_items(items)),
        JsonV::Object(fields) => JsonV::Object(in_order(held_fields(fields))),
        _ => j,
    }
}

/// The compact text that `serde_json` writes for what it holds.
pub uninterp spec fn held_text(j: JsonV) -> Seq<char>;

/// The indented text that `serde_json` writes for what it holds.
pub uninterp spec fn held_pretty_text(j: JsonV) -> Seq<char>;

/// Whether a value is read back as it was written: it holds no number but integers
/// (reading another one rounds it) and nests no deeper than `room` levels.
pub open spec fn reads_back(j: JsonV, room: nat) -> bool
    decreases room,
{
    match j {
        JsonV::Decimal(_) => false,
        JsonV::Array(items) => room > 0 && forall|i: int|
            0 <= i < items.len() ==> reads_back(#[trigger] items[i], (room - 1) as nat),
        JsonV::Object(fields) => room > 0 && forall|i: int|
            0 <= i < fields.len() ==> reads_back((#[trigger] fields[i]).1, (room - 1) as nat),
        _ => true,
    }
}

/// How many levels of nesting `serde_json` reads.
pub const MAX_NESTING: u32 = 127;

/// The compact text of a value.
pub open spec fn json_text(j: JsonV) -> Seq<char> {
    held_text(json_held(j))
}

/// The indented text of a value.
pub open spec fn json_pretty_text(j: JsonV) -> Seq<char> {
    held_pretty_text(json_held(j))
}

/// Changes a `serde_json::Value` into a [`Json`], variant by variant: a number
/// that `Number::as_u64` or `Number::as_i64` gives becomes that integer, any
/// other keeps its text, and an object keeps its fields in the order in which
/// `serde_json::Map` hands them out. The result depends on the value alone. It is
/// one that `serde_json` holds as it is: its fields are in the order of their names,
/// each name once, and the text of a number is its shortest one.
#[verifier::external_body]
fn json_from_value(v: serde_json::Value) -> (r: Json)
    ensures
        r@ == value_content(v),
        json_held(r@) == r@,
{
    match v {
        serde_json::Value::Null => Json::Null,
        serde_json::Value::Bool(b) => Json::Bool(b),
        serde_json::Value::Number(n) => match (n.as_u64(), n.as_i64()) {
            (Some(u), _) => Json::Unsigned(u),
            (None, Some(i)) => Json::Negative(i),
            (None, None) => Json::Decimal(n.to_string()),
        },
        serde_json::Value::String(s) => Json::Text(s),
        serde_json::Value::Array(a) => Json::Array(a.into_iter().map(json_from_value).collect()),
        serde_json::Value::Object(o) => Json::Object(
            o.into_iter().map(|(k, x)| (k, json_from_value(x))).collect()),
    }
}

/// Changes a [`Json`] into a `serde_json::Value`, variant by variant. The fields of
/// an object are collected into a `serde_json::Map`, which orders them by name and
/// keeps the last of equal names; the text of a number becomes the nearest number
/// by `str::parse`, which is exact, and `Number::from_f64`.
#[verifier::external_body]
fn json_to_value(j: &Json) -> (r: serde_json::Value)
    ensures
        match j@ {
            JsonV::Decimal(s) => value_content(r) == held_decimal(s),
            _ => value_content(r) == json_held(j@),
        },
{
    match j {
        Json::Null => serde_json::Value::Null,
        Json::Bool(b) => serde_json::Value::from(*b),
        Json::Unsigned(n) => serde_json::Value::from(*n),
        Json::Negative(n) => serde_json::Value::from(*n),
        Json::Decimal(s) => serde_json::Value::from(
            s.parse().ok().and_then(serde_json::Number::from_f64)),
        Json::Text(s) => serde_json::Value::from(s.as_str()),
        Json::Array(a) => serde_json::Value::Array(a.iter().map(json_to_value).collect()),
        Json::Object(o) => serde_json::Value::Object(
            o.iter().map(|(k, x)| (k.clone(), json_to_value(x))).collect()),
    }
}

/// `serde_json::from_str` for a `serde_json::Value`: the value that the text
/// stands for, or the words of the error. The result depends on the text alone.
#[verifier::external_body]
fn value_of_text(s: &str) -> (r: Result<serde_json::Value, String>)
    ensures
        match r {
            Ok(v) => json_of_text(s@) == Ok::<JsonV, Seq<char>>(value_content(v)),
            Err(e) => json_of_text(s@) == Err::<JsonV, Seq<char>>(e@),
        },
{
    serde_json::from_str::<serde_json::Value>(s).map_err(|e| e.to_string())
}

/// `serde_json::Value::to_string`: the compact text of a value, which depends on
/// what it holds alone. From that text `serde_json::from_str` reads the value
/// again, as long as it holds no fractions and is not nested too deep.
#[verifier::external_body]
fn value_text(v: &serde_json::Value) -> (r: String)
    ensures
        r@ == held_text(value_content(*v)),
        match json_of_text(r@) {
            Ok(back) => reads_back(value_content(*v), MAX_NESTING as nat) ==> back
                == value_content(*v),
            Err(_) => !reads_back(value_content(*v), MAX_NESTING as nat),
        },
{
    v.to_string()
}

/// `serde_json::to_string_pretty`: the indented text of a value, which depends
/// on what it holds alone. Writing a `serde_json::Value` to a string does not fail.
#[verifier::external_body]
fn value_pretty_text(v: &serde_json::Value) -> (r: String)
    ensures
        r@ == held_pretty_text(value_content(*v)),
{
    serde_json::to_string_pretty(v).unwrap_or_default()
}

/// Reads a JSON text.
pub fn parse_json(s: &str) -> (r: Result<Json, String>)
    ensures
        match r {
            Ok(j) => json_of_text(s@) == Ok::<JsonV, Seq<char>>(j@) && json_held(j@) == j@,
            Err(e) => json_of_text(s@) == Err::<JsonV, Seq<char>>(e@),
        },
{
    match value_of_text(s) {
        Ok(v) => Ok(json_from_value(v)),
        Err(e) => Err(e),
    }
}

/// The compact text of a value.
pub fn print_json(j: &Json) -> (r: String)
    ensures
        r@ == json_text(j@),
        reads_back(json_held(j@), MAX_NESTING as nat) ==> (json_of_text(r@) matches Ok(back)
            && back == json_held(j@)),
{
    value_text(&json_to_value(j))
}

/// The indented text of a value.
pub fn print_json_pretty(j: &Json) -> (r: String)
    ensures
        r@ == json_pretty_text(j@),
{
    value_pretty_text(&json_to_value(j))
}

/// The indented form of a JSON text; none where it cannot be read.
pub fn prettify_json(s: &str) -> (r: Option<String>)
    ensures
        match json_of_text(s@) {
            Ok(value) => r matches Some(pretty) && pretty@ == held_pretty_text(value),
            Err(_) => r is None,
        },
{
    match value_of_text(s) {
        Ok(v) => Some(value_pretty_text(&v)),
        Err(_) => None,
    }
}

// ---------------------------------------------------------------------------
// Looking into values
// ---------------------------------------------------------------------------
/// The position of the first field with the given name, from `from` on.
pub open spec fn field_at(fields: Seq<(Seq<char>, JsonV)>, name: Seq<char>, from: int) -> Option<
    int,
>
    decreases fields.len() - from,
{
    if from < 0 || from >= fields.len() {
        None
    } else if fields[from].0 == name {
        Some(from)
    } else {
        field_at(fields, name, from + 1)
    }
}

/// Whether an object has a field with the given name.
pub open spec fn has_field(fields: Seq<(Seq<char>, JsonV)>, name: Seq<char>) -> bool {
    exists|i: int| 0 <= i < fields.len() && (#[trigger] fields[i]).0 == name
}

/// The value of the field with the given name.
pub open spec fn get_field(fields: Seq<(Seq<char>, JsonV)>, name: Seq<char>) -> Option<JsonV> {
    match field_at(fields, name, 0) {
        Some(i) => Some(fields[i].1),
        None => None,
    }
}

/// `field_at` finds a field if and only if there is one.
pub proof fn lemma_field_at(fields: Seq<(Seq<char>, JsonV)>, name: Seq<char>, from: int)
    requires
        0 <= from <= fields.len(),
    ensures
        match field_at(fields, name, from) {
            Some(i) => from <= i < fields.len() && fields[i].0 == name,
            None => forall|i: int| from <= i < fields.len() ==> (#[trigger] fields[i]).0 != name,
        },
    decreases fields.len() - from,
{
    if from < fields.len() && fields[from].0 != name {
        lemma_field_at(fields, name, from + 1);
    }
}

/// The value of the field with the given name.
pub fn find_field<'a>(fields: &'a Vec<(String, Json)>, name: &str) -> (r: Option<&'a Json>)
    ensures
        match r {
            Some(j) => get_field(fields_view(fields@), name@) == Some(j@),
            None => get_field(fields_view(fields@), name@) is None && !has_field(
                fields_view(fields@),
                name@,
            ),
        },
        r is Some <==> has_field(fields_view(fields@), name@),
{
    let ghost all = fields_view(fields@);
    let mut i: usize = 0;
    while i < fields.len()
        invariant
            i <= fields@.len(),
            all == fields_view(fields@),
            field_at(all, name@, 0) == field_at(all, name@, i as int),
        decreases fields@.len() - i,
    {
        if same_text(fields[i].0.as_str(), name) {
            proof {
                assert(all[i as int].0 == name@);
            }
            return Some(&fields[i].1);
        }
        proof {
            assert(all[i as int].0 == fields@[i as int].0@);
        }
        i = i + 1;
    }
    proof {
        lemma_field_at(all, name@, 0);
    }
    None
}

// ---------------------------------------------------------------------------
// Building values
// ---------------------------------------------------------------------------
/// Adds a field to an object under construction.
pub fn put_field(fields: &mut Vec<(String, Json)>, name: &str, value: Json)
    ensures
        fields_view(final(fields)@) == fields_view(old(fields)@).push((name@, value@)),
{
    fields.push((text(name), value));
    proof {
        assert(fields_view(fields@) =~= fields_view(old(fields)@).push((name@, value@)));
    }
}

/// Adds a text field to an object under construction.
pub fn put_text(fields: &mut Vec<(String, Json)>, name: &str, value: &str)
    ensures
        fields_view(final(fields)@) == fields_view(old(fields)@).push(
            (name@, JsonV::Text(value@)),
        ),
{
    put_field(fields, name, Json::Text(text(value)));
}

/// Adds an item to an array under construction.
pub fn put_item(items: &mut Vec<Json>, item: Json)
    ensures
        items_view(final(items)@) == items_view(old(items)@).push(item@),
{
    items.push(item);
    proof {
        assert(items_view(items@) =~= items_view(old(items)@).push(item@));
    }
}

/// An object with the given fields.
pub fn object(fields: Vec<(String, Json)>) -> (r: Json)
    ensures
        r@ == JsonV::Object(fields_view(fields@)),
{
    proof {
        lemma_object_view(fields);
    }
    Json::Object(fields)
}

/// An array with the given items.
pub fn array(items: Vec<Json>) -> (r: Json)
    ensures
        r@ == JsonV::Array(items_view(items@)),
{
    proof {
        lemma_array_view(items);
    }
    Json::Array(items)
}

/// The fields of an object under construction, before the first.
pub fn no_fields() -> (r: Vec<(String, Json)>)
    ensures
        fields_view(r@) == Seq::<(Seq<char>, JsonV)>::empty(),
{
    let r: Vec<(String, Json)> = Vec::new();
    proof {
        assert(fields_view(r@) =~= Seq::<(Seq<char>, JsonV)>::empty());
    }
    r
}

impl Clone for Json {
    #[verifier::loop_isolation(false)]
    fn clone(&self) -> (r: Self)
        ensures
            r@ == self@,
        decreases self,
    {
        match self {
            Json::Null => Json::Null,
            Json::Bool(b) => Json::Bool(*b),
            Json::Unsigned(n) => Json::Unsigned(*n),
            Json::Negative(n) => Json::Negative(*n),
            Json::Decimal(s) => Json::Decimal(s.clone()),
            Json::Text(s) => Json::Text(s.clone()),
            Json::Array(v) => {
                let mut out: Vec<Json> = Vec::new();
                let mut i: usize = 0;
                while i < v.len()
                    invariant
                        i <= v@.len(),
                        out@.len() == i,
                        *self == Json::Array(*v),
                        forall|j: int| 0 <= j < i ==> (#[trigger] out@[j])@ == v@[j]@,
                    decreases v@.len() - i,
                {
                    proof {
                        assert(decreases_to!(*v => v@[i as int]));
                    }
                    out.push(v[i].clone());
                    i = i + 1;
                }
                proof {
                    lemma_array_view(*v);
                    assert(items_view(out@) =~= items_view(v@));
                }
                array(out)
            },
            Json::Object(v) => {
                let mut out: Vec<(String, Json)> = Vec::new();
                let mut i: usize = 0;
                while i < v.len()
                    invariant
                        i <= v@.len(),
                        out@.len() == i,
                        *self == Json::Object(*v),
                        forall|j: int|
                            0 <= j < i ==> (#[trigger] out@[j]).0@ == v@[j].0@ && out@[j].1@
                                == v@[j].1@,
                    decreases v@.len() - i,
                {
                    proof {
                        assert(decreases_to!(*v => v@[i as int]));
                    }
                    out.push((v[i].0.clone(), v[i].1.clone()));
                    i = i + 1;
                }
                proof {
                    lemma_object_view(*v);
                    assert(fields_view(out@) =~= fields_view(v@));
                }
                object(out)
            },
        }
    }
}

/// An array of texts.
pub open spec fn texts_json(s: Seq<Seq<char>>) -> JsonV {
    JsonV::Array(Seq::new(s.len(), |i: int| JsonV::Text(s[i])))
}

/// An array of texts.
pub fn text_array(items: &Vec<String>) -> (r: Json)
    ensures
        r@ == texts_json(items.deep_view()),
{
    let mut out: Vec<Json> = Vec::new();
    let mut i: usize = 0;
    while i < items.len()
        invariant
            i <= items@.len(),
            out@.len() == i,
            forall|j: int| 0 <= j < i ==> (#[trigger] out@[j])@ == JsonV::Text(items@[j]@),
        decreases items@.len() - i,
    {
        out.push(Json::Text(items[i].clone()));
        i = i + 1;
    }
    proof {
        assert(items_view(out@) =~= Seq::new(
            items@.len(),
            |j: int| JsonV::Text(items.deep_view()[j]),
        ));
    }
    array(out)
}

/// Whether two values are equal.
#[verifier::loop_isolation(false)]
pub fn same_json(a: &Json, b: &Json) -> (r: bool)
    ensures
        r == (a@ == b@),
    decreases a,
{
    match (a, b) {
        (Json::Null, Json::Null) => true,
        (Json::Bool(x), Json::Bool(y)) => *x == *y,
        (Json::Unsigned(x), Json::Unsigned(y)) => *x == *y,
        (Json::Negative(x), Json::Negative(y)) => *x == *y,
        (Json::Decimal(x), Json::Decimal(y)) => same_text(x.as_str(), y.as_str()),
        (Json::Text(x), Json::Text(y)) => same_text(x.as_str(), y.as_str()),
        (Json::Array(x), Json::Array(y)) => {
            proof {
                lemma_array_view(*x);
                lemma_array_view(*y);
                assert(items_view(x@).len() == x@.len());
                assert(items_view(y@).len() == y@.len());
            }
            if x.len() != y.len() {
                return false;
            }
            let mut i: usize = 0;
            while i < x.len()
                invariant
                    i <= x@.len(),
                    x@.len() == y@.len(),
                    forall|j: int| 0 <= j < i ==> (#[trigger] x@[j])@ == y@[j]@,
                decreases x@.len() - i,
            {
                proof {
                    assert(decreases_to!(*x => x@[i as int]));
                }
                if !same_json(&x[i], &y[i]) {
                    proof {
                        assert(items_view(x@)[i as int] != items_view(y@)[i as int]);
                    }
                    return false;
                }
                i = i + 1;
            }
            proof {
                assert(items_view(x@) =~= items_view(y@));
            }
            true
        },
        (Json::Object(x), Json::Object(y)) => {
            proof {
                lemma_object_view(*x);
                lemma_object_view(*y);
                assert(fields_view(x@).len() == x@.len());
                assert(fields_view(y@).len() == y@.len());
            }
            if x.len() != y.len() {
                return false;
            }
            let mut i: usize = 0;
            while i < x.len()
                invariant
                    i <= x@.len(),
                    x@.len() == y@.len(),
                    forall|j: int|
                        0 <= j < i ==> (#[trigger] x@[j]).0@ == y@[j].0@ && x@[j].1@ == y@[j].1@,
                decreases x@.len() - i,
            {
                proof {
                    assert(decreases_to!(*x => x@[i as int]));
                }
                if !same_text(x[i].0.as_str(), y[i].0.as_str()) || !same_json(&x[i].1, &y[i].1) {
                    proof {
                        assert(fields_view(x@)[i as int] != fields_view(y@)[i as int]);
                    }
                    return false;
                }
                i = i + 1;
            }
            proof {
                assert(fields_view(x@) =~= fields_view(y@));
            }
            true
        },
        _ => false,
    }
}

// ---------------------------------------------------------------------------
// Laws
// ---------------------------------------------------------------------------
/// Of two names that differ one comes first, and not both.
proof fn lemma_names_are_ordered(a: Seq<char>, b: Seq<char>)
    ensures
        name_below(a, b) ==> !name_below(b, a) && a != b,
        a != b ==> name_below(a, b) || name_below(b, a),
    decreases a.len(),
{
    if a.len() > 0 && b.len() > 0 {
        if a[0] == b[0] {
            lemma_names_are_ordered(a.drop_first(), b.drop_first());
            if a.drop_first() == b.drop_first() {
                assert(a =~= seq![a[0]] + a.drop_first());
                assert(b =~= seq![b[0]] + b.drop_first());
            }
        } else {
            let (u, v) = (a[0] as u32, b[0] as u32);
            char_u32_cast(a[0], u);
            char_u32_cast(b[0], v);
        }
    } else if a.len() == 0 && b.len() == 0 {
        assert(a =~= b);
    }
}

proof fn lemma_name_order_is_transitive(a: Seq<char>, b: Seq<char>, c: Seq<char>)
    requires
        name_below(a, b),
        name_below(b, c),
    ensures
        name_below(a, c),
    decreases a.len(),
{
    if a.len() > 0 && a[0] == b[0] && b[0] == c[0] {
        lemma_name_order_is_transitive(a.drop_first(), b.drop_first(), c.drop_first());
    }
}

/// Whether fields are in the order of their names, each name once.
pub open spec fn is_ordered(fields: Seq<(Seq<char>, JsonV)>) -> bool {
    forall|i: int, k: int|
        0 <= i < k < fields.len() ==> name_below((#[trigger] fields[i]).0, (
        #[trigger] fields[k]).0)
}

/// Whether each value is one that is held as it is.
spec fn all_settled(fields: Seq<(Seq<char>, JsonV)>) -> bool {
    forall|i: int| 0 <= i < fields.len() ==> json_held((#[trigger] fields[i]).1) == fields[i].1
}

proof fn lemma_with_field(fields: Seq<(Seq<char>, JsonV)>, name: Seq<char>, value: JsonV)
    requires
        is_ordered(fields),
        all_settled(fields),
        json_held(value) == value,
    ensures
        is_ordered(with_field(fields, name, value)),
        all_settled(with_field(fields, name, value)),
        forall|k: int|
            0 <= k < with_field(fields, name, value).len() ==> ((
            #[trigger] with_field(fields, name, value)[k]).0 == name || exists|i: int|
                0 <= i < fields.len() && (#[trigger] fields[i]).0 == with_field(
                    fields,
                    name,
                    value,
                )[k].0),
    decreases fields.len(),
{
    let all = with_field(fields, name, value);
    if fields.len() == 0 {
    } else if fields[0].0 == name {
        assert forall|k: int| 0 <= k < all.len() implies ((#[trigger] all[k]).0 == name || exists|
            i: int,
        | 0 <= i < fields.len() && (#[trigger] fields[i]).0 == all[k].0) by {
            assert(fields[k].0 == all[k].0);
        }
    } else if name_below(name, fields[0].0) {
        assert forall|i: int, k: int| 0 <= i < k < all.len() implies name_below(
            (#[trigger] all[i]).0,
            (#[trigger] all[k]).0,
        ) by {
            assert(all[k] == fields[k - 1]);
            if i > 0 {
                assert(all[i] == fields[i - 1]);
            } else if k > 1 {
                lemma_name_order_is_transitive(name, fields[0].0, fields[k - 1].0);
            }
        }
        assert forall|k: int| 0 <= k < all.len() implies json_held((#[trigger] all[k]).1)
            == all[k].1 by {
            if k > 0 {
                assert(all[k] == fields[k - 1]);
            }
        }
        assert forall|k: int| 0 <= k < all.len() implies ((#[trigger] all[k]).0 == name || exists|
            i: int,
        | 0 <= i < fields.len() && (#[trigger] fields[i]).0 == all[k].0) by {
            if k > 0 {
                assert(fields[k - 1].0 == all[k].0);
            }
        }
    } else {
        let rest = fields.drop_first();
        assert forall|i: int, k: int| 0 <= i < k < rest.len() implies name_below(
            (#[trigger] rest[i]).0,
            (#[trigger] rest[k]).0,
        ) by {
            assert(rest[i] == fields[i + 1] && rest[k] == fields[k + 1]);
        }
        assert forall|i: int| 0 <= i < rest.len() implies json_held((#[trigger] rest[i]).1)
            == rest[i].1 by {
            assert(rest[i] == fields[i + 1]);
        }
        lemma_with_field(rest, name, value);
        lemma_names_are_ordered(name, fields[0].0);
        let tail = with_field(rest, name, value);
        assert forall|k: int| 0 <= k < tail.len() implies name_below(
            fields[0].0,
            (#[trigger] tail[k]).0,
        ) by {
            if tail[k].0 != name {
                let i = choose|i: int|
                    0 <= i < rest.len() && (#[trigger] rest[i]).0 == tail[k].0;
                assert(rest[i] == fields[i + 1]);
            }
        }
        assert forall|i: int, k: int| 0 <= i < k < all.len() implies name_below(
            (#[trigger] all[i]).0,
            (#[trigger] all[k]).0,
        ) by {
            assert(all[k] == tail[k - 1]);
            if i > 0 {
                assert(all[i] == tail[i - 1]);
            }
        }
        assert forall|k: int| 0 <= k < all.len() implies json_held((#[trigger] all[k]).1)
            == all[k].1 by {
            if k > 0 {
                assert(all[k] == tail[k - 1]);
            } else {
                assert(all[k] == fields[0]);
            }
        }
        assert forall|k: int| 0 <= k < all.len() implies ((#[trigger] all[k]).0 == name || exists|
            i: int,
        | 0 <= i < fields.len() && (#[trigger] fields[i]).0 == all[k].0) by {
            if k == 0 {
                assert(fields[0].0 == all[0].0);
            } else {
                assert(all[k] == tail[k - 1]);
                if all[k].0 != name {
                    let i = choose|i: int|
                        0 <= i < rest.len() && (#[trigger] rest[i]).0 == tail[k - 1].0;
                    assert(fields[i + 1].0 == all[k].0);
                }
            }
        }
    }
}

proof fn lemma_in_order(fields: Seq<(Seq<char>, JsonV)>)
    requires
        all_settled(fields),
    ensures
        is_ordered(in_order(fields)),
        all_settled(in_order(fields)),
    decreases fields.len(),
{
    if fields.len() > 0 {
        let rest = fields.drop_last();
        assert forall|i: int| 0 <= i < rest.len() implies json_held((#[trigger] rest[i]).1)
            == rest[i].1 by {
            assert(rest[i] == fields[i]);
        }
        lemma_in_order(rest);
        lemma_with_field(in_order(rest), fields.last().0, fields.last().1);
    }
}

proof fn lemma_last_name(fields: Seq<(Seq<char>, JsonV)>, name: Seq<char>, value: JsonV)
    requires
        forall|i: int| 0 <= i < fields.len() ==> name_below((#[trigger] fields[i]).0, name),
    ensures
        with_field(fields, name, value) == fields.push((name, value)),
    decreases fields.len(),
{
    if fields.len() == 0 {
        assert(with_field(fields, name, value) =~= fields.push((name, value)));
    } else {
        let rest = fields.drop_first();
        lemma_names_are_ordered(fields[0].0, name);
        assert forall|i: int| 0 <= i < rest.len() implies name_below(
            (#[trigger] rest[i]).0,
            name,
        ) by {
            assert(rest[i] == fields[i + 1]);
        }
        lemma_last_name(rest, name, value);
        assert(with_field(fields, name, value) =~= fields.push((name, value)));
    }
}

/// Fields that are in the order of their names stay as they are.
pub proof fn law_ordered_fields_stay(fields: Seq<(Seq<char>, JsonV)>)
    requires
        is_ordered(fields),
    ensures
        in_order(fields) == fields,
    decreases fields.len(),
{
    if fields.len() == 0 {
        assert(in_order(fields) =~= fields);
    } else {
        let rest = fields.drop_last();
        assert forall|i: int, k: int| 0 <= i < k < rest.len() implies name_below(
            (#[trigger] rest[i]).0,
            (#[trigger] rest[k]).0,
        ) by {
            assert(rest[i] == fields[i] && rest[k] == fields[k]);
        }
        law_ordered_fields_stay(rest);
        let last = fields.last();
        assert forall|i: int| 0 <= i < rest.len() implies name_below(
            (#[trigger] rest[i]).0,
            last.0,
        ) by {
            assert(rest[i] == fields[i] && last == fields[fields.len() - 1]);
        }
        lemma_last_name(rest, last.0, last.1);
        assert(rest.push(last) =~= fields);
    }
}

/// Whether a value holds no number but integers.
pub open spec fn integers_only(j: JsonV) -> bool
    decreases j,
{
    match j {
        JsonV::Decimal(_) => false,
        JsonV::Array(items) => forall|i: int|
            0 <= i < items.len() ==> integers_only(#[trigger] items[i]),
        JsonV::Object(fields) => forall|i: int|
            0 <= i < fields.len() ==> integers_only((#[trigger] fields[i]).1),
        _ => true,
    }
}

/// What `serde_json` holds for a value it holds unchanged when it gets it again, so
/// a value that was once written or read is written the same from then on. Of
/// numbers with a fraction this is known where they were read.
pub proof fn law_held_values_stay(j: JsonV)
    requires
        integers_only(j),
    ensures
        json_held(json_held(j)) == json_held(j),
    decreases j,
{
    match j {
        JsonV::Array(items) => {
            assert forall|i: int| 0 <= i < items.len() implies json_held(
                json_held(#[trigger] items[i]),
            ) == json_held(items[i]) by {
                law_held_values_stay(items[i]);
            }
            assert(held_items(held_items(items)) =~= held_items(items));
        },
        JsonV::Object(fields) => {
            let held = held_fields(fields);
            assert forall|i: int| 0 <= i < held.len() implies json_held((#[trigger] held[i]).1)
                == held[i].1 by {
                assert(integers_only(fields[i].1));
                law_held_values_stay(fields[i].1);
            }
            lemma_in_order(held);
            let once = in_order(held);
            assert(held_fields(once) =~= once);
            law_ordered_fields_stay(once);
        },
        _ => {},
    }
}

/// A field is looked up by its name: the first with that name counts, and there is
/// none exactly where no field has it.
pub proof fn law_fields_are_found_by_name(fields: Seq<(Seq<char>, JsonV)>, name: Seq<char>, i: int)
    requires
        0 <= i < fields.len(),
        forall|k: int| 0 <= k < i ==> (#[trigger] fields[k]).0 != name,
    ensures
        fields[i].0 == name ==> get_field(fields, name) == Some(fields[i].1),
        get_field(fields, name) is None <==> forall|k: int|
            0 <= k < fields.len() ==> (#[trigger] fields[k]).0 != name,
{
    lemma_field_at(fields, name, 0);
    if fields[i].0 == name {
        lemma_first_field(fields, name, 0, i);
    }
}

proof fn lemma_first_field(
    fields: Seq<(Seq<char>, JsonV)>,
    name: Seq<char>,
    from: int,
    i: int,
)
    requires
        0 <= from <= i < fields.len(),
        fields[i].0 == name,
        forall|k: int| from <= k < i ==> (#[trigger] fields[k]).0 != name,
    ensures
        field_at(fields, name, from) == Some(i),
    decreases i - from,
{
    if from < i {
        lemma_first_field(fields, name, from + 1, i);
    }
}

/// What a value holds under a name; nothing where it is no object.
pub open spec fn at(j: JsonV, name: Seq<char>) -> Option<JsonV> {
    match j {
        JsonV::Object(fields) => get_field(fields, name),
        _ => None,
    }
}

/// What a value holds under a name, null where it holds nothing.
pub open spec fn inner(j: JsonV, name: Seq<char>) -> JsonV {
    match at(j, name) {
        Some(v) => v,
        None => JsonV::Null,
    }
}

/// Whether a value holds a text under a name.
pub open spec fn says(j: JsonV, name: Seq<char>, value: Seq<char>) -> bool {
    at(j, name) == Some(JsonV::Text(value))
}

/// An array of texts holds them in their order.
pub proof fn law_text_arrays(s: Seq<Seq<char>>, i: int)
    ensures
        texts_json(s) matches JsonV::Array(items) && items.len() == s.len() && (0 <= i < s.len()
            ==> items[i] == JsonV::Text(s[i])),
{
}

/// The model of a value is the value: what an array or an object holds at a place its
/// model holds there too.
pub proof fn law_values_hold_what_their_models_hold(j: Json)
    ensures
        match j {
            Json::Null => j@ is Null,
            Json::Bool(b) => j@ == JsonV::Bool(b),
            Json::Unsigned(n) => j@ == JsonV::Unsigned(n),
            Json::Negative(n) => j@ == JsonV::Negative(n),
            Json::Decimal(s) => j@ == JsonV::Decimal(s@),
            Json::Text(s) => j@ == JsonV::Text(s@),
            Json::Array(v) => j@ matches JsonV::Array(items) && items.len() == v@.len()
                && forall|i: int| 0 <= i < v@.len() ==> #[trigger] items[i] == v@[i]@,
            Json::Object(v) => j@ matches JsonV::Object(fields) && fields.len() == v@.len()
                && forall|i: int|
                0 <= i < v@.len() ==> #[trigger] fields[i] == (v@[i].0@, v@[i].1@),
        },
{
}

} // verus!
