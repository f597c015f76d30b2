//! JSON documents.
//!
//! `Json` holds a document as plain values and `JsonView` is its model. The
//! text form is read and written by `serde_json`; what a document holds, and
//! how one is put together, is stated here.
use vstd::prelude::*;
use vstd::string::*;

use crate::text::same_text;

verus! {

/// The model of a JSON document.
#[verifier::ext_equal]
pub enum JsonView {
    Null,
    Bool(bool),
    /// A number that is an integer of 64 bits.
    Integer(int),
    /// Any other number, by its text.
    Decimal(Seq<char>),
    Text(Seq<char>),
    Array(Seq<JsonView>),
    /// The fields in order.
    Object(Seq<(Seq<char>, JsonView)>),
}

/// A JSON document.
#[derive(Debug)]
pub enum Json {
    Null,
    Bool(bool),
    Integer(i64),
    Decimal(String),
    Text(String),
    Array(Vec<Json>),
    Object(Vec<(String, Json)>),
}

/// The position of the first field named `key`.
pub open spec fn field_position(fields: Seq<(Seq<char>, JsonView)>, key: Seq<char>) -> Option<int>
    decreases fields.len(),
{
    if fields.len() == 0 {
        None
    } else if fields[0].0 == key {
        Some(0)
    } else {
        match field_position(fields.drop_first(), key) {
            Some(i) => Some(i + 1),
            None => None,
        }
    }
}

proof fn lemma_field_position(fields: Seq<(Seq<char>, JsonView)>, key: Seq<char>, i: int)
    requires
        0 <= i <= fields.len(),
        forall|j: int| 0 <= j < i ==> #[trigger] fields[j].0 != key,
    ensures
        i == fields.len() ==> field_position(fields, key) is None,
        i < fields.len() && fields[i].0 == key ==> field_position(fields, key) == Some(i),
    decreases fields.len(),
{
    if i > 0 {
        assert(fields[0].0 != key);
        let rest = fields.drop_first();
        assert forall|j: int| 0 <= j < i - 1 implies #[trigger] rest[j].0 != key by {
            assert(rest[j] == fields[j + 1]);
        }
        lemma_field_position(rest, key, i - 1);
    }
}

impl JsonView {
    /// Whether this is an object with a field named `key`.
    pub open spec fn has_field(self, key: Seq<char>) -> bool {
        match self {
            JsonView::Object(fields) => field_position(fields, key) is Some,
            _ => false,
        }
    }

    /// The value of the field named `key`; `Null` where there is none.
    pub open spec fn field(self, key: Seq<char>) -> JsonView {
        match self {
            JsonView::Object(fields) => match field_position(fields, key) {
                Some(i) => fields[i].1,
                None => JsonView::Null,
            },
            _ => JsonView::Null,
        }
    }

    /// The characters of a text.
    pub open spec fn as_text(self) -> Option<Seq<char>> {
        match self {
            JsonView::Text(t) => Some(t),
            _ => None,
        }
    }

    /// The characters of a text; none where this is no text.
    pub open spec fn text_or_empty(self) -> Seq<char> {
        match self {
            JsonView::Text(t) => t,
            _ => seq![],
        }
    }

    /// The items of an array.
    pub open spec fn as_items(self) -> Option<Seq<JsonView>> {
        match self {
            JsonView::Array(items) => Some(items),
            _ => None,
        }
    }

    /// The first item of an array that has one; else `Null`.
    pub open spec fn first_item(self) -> JsonView {
        match self {
            JsonView::Array(items) => if items.len() > 0 {
                items[0]
            } else {
                JsonView::Null
            },
            _ => JsonView::Null,
        }
    }

    /// The number, where it is an integer of 64 bits.
    pub open spec fn as_integer(self) -> Option<int> {
        match self {
            JsonView::Integer(n) => Some(n),
            _ => None,
        }
    }

    /// Whether this is the value `true`.
    pub open spec fn is_true(self) -> bool {
        self == JsonView::Bool(true)
    }

    /// This object with one more field at its end.
    pub open spec fn with(self, key: Seq<char>, value: JsonView) -> JsonView {
        match self {
            JsonView::Object(fields) => JsonView::Object(fields.push((key, value))),
            _ => JsonView::Object(seq![(key, value)]),
        }
    }
}

/// The object without fields.
pub open spec fn empty_object() -> JsonView {
    JsonView::Object(seq![])
}

impl Json {
    /// The model of the document.
    pub open spec fn tree(self) -> JsonView
        decreases self,
    {
        match self {
            Json::Null => JsonView::Null,
            Json::Bool(b) => JsonView::Bool(b),
            Json::Integer(n) => JsonView::Integer(n as int),
            Json::Decimal(t) => JsonView::Decimal(t@),
            Json::Text(t) => JsonView::Text(t@),
            Json::Array(items) => JsonView::Array(
                Seq::new(
                    items@.len(),
                    |i: int|
                        if 0 <= i < items@.len() {
                            items@[i].tree()
                        } else {
                            JsonView::Null
                        },
                ),
            ),
            Json::Object(fields) => JsonView::Object(
                Seq::new(
                    fields@.len(),
                    |i: int|
                        if 0 <= i < fields@.len() {
                            (fields@[i].0@, fields@[i].1.tree())
                        } else {
                            (seq![], JsonView::Null)
                        },
                ),
            ),
        }
    }
}

impl View for Json {
    type V = JsonView;

    open spec fn view(&self) -> JsonView {
        self.tree()
    }
}

/// What stands at a place of a document: `Null` where there is nothing.
pub open spec fn seen(place: Option<&Json>) -> JsonView {
    match place {
        Some(json) => json@,
        None => JsonView::Null,
    }
}

/// The models of the documents of a list.
pub open spec fn trees(list: Seq<Json>) -> Seq<JsonView> {
    list.map_values(|json: Json| json@)
}

/// The position of the first field named `key`.
fn find_field(fields: &Vec<(String, Json)>, key: &str) -> (at: Option<usize>)
    ensures
        match at {
            Some(i) => i < fields.len() && field_position(
                Json::Object(*fields)@->Object_0,
                key@,
            ) == Some(i as int),
            None => field_position(Json::Object(*fields)@->Object_0, key@) is None,
        },
{
    let ghost model = Json::Object(*fields)@->Object_0;
    for i in 0..fields.len()
        invariant
            model == Json::Object(*fields)@->Object_0,
            model.len() == fields.len(),
            forall|j: int| 0 <= j < i ==> #[trigger] model[j].0 != key@,
    {
        if same_text(fields[i].0.as_str(), key) {
            proof {
                lemma_field_position(model, key@, i as int);
            }
            return Some(i);
        }
    }
    proof {
        lemma_field_position(model, key@, fields.len() as int);
    }
    None
}

/// The value of the field named `key` of what stands at `place`.
pub fn at<'a>(place: Option<&'a Json>, key: &str) -> (found: Option<&'a Json>)
    ensures
        seen(found) == seen(place).field(key@),
        found is Some == seen(place).has_field(key@),
{
    match place {
        Some(Json::Object(fields)) => match find_field(fields, key) {
            Some(i) => Some(&fields[i].1),
            None => None,
        },
        _ => None,
    }
}

/// The text that stands at `place`.
pub fn text_at<'a>(place: Option<&'a Json>) -> (text: Option<&'a str>)
    ensures
        match text {
            Some(t) => seen(place).as_text() == Some(t@),
            None => seen(place).as_text() is None,
        },
{
    match place {
        Some(Json::Text(t)) => Some(t.as_str()),
        _ => None,
    }
}

/// The text that stands at `place`; the empty text where none does.
pub fn text_or_empty<'a>(place: Option<&'a Json>) -> (text: &'a str)
    ensures
        text@ == seen(place).text_or_empty(),
{
    match place {
        Some(Json::Text(t)) => t.as_str(),
        _ => {
            proof {
                reveal_strlit("");
            }
            assert(""@ =~= Seq::<char>::empty());
            ""
        },
    }
}

/// The items of the array that stands at `place`.
pub fn items_at<'a>(place: Option<&'a Json>) -> (items: Option<&'a Vec<Json>>)
    ensures
        match items {
            Some(list) => seen(place).as_items() == Some(trees(list@)),
            None => seen(place).as_items() is None,
        },
{
    match place {
        Some(Json::Array(items)) => {
            assert(seen(place)->Array_0 =~= trees(items@));
            Some(items)
        },
        _ => None,
    }
}

/// The first item of the array that stands at `place`.
pub fn first_at<'a>(place: Option<&'a Json>) -> (item: Option<&'a Json>)
    ensures
        seen(item) == seen(place).first_item(),
{
    match place {
        Some(Json::Array(items)) => if items.len() > 0 {
            Some(&items[0])
        } else {
            None
        },
        _ => None,
    }
}

/// The integer that stands at `place`.
pub fn integer_at(place: Option<&Json>) -> (n: Option<i64>)
    ensures
        match n {
            Some(v) => seen(place).as_integer() == Some(v as int),
            None => seen(place).as_integer() is None,
        },
{
    match place {
        Some(Json::Integer(v)) => Some(*v),
        _ => None,
    }
}

/// Whether the value `true` stands at `place`.
pub fn true_at(place: Option<&Json>) -> (yes: bool)
    ensures
        yes == seen(place).is_true(),
{
    match place {
        Some(Json::Bool(b)) => *b,
        _ => false,
    }
}

impl Json {
    /// The object without fields.
    pub fn object() -> (json: Json)
        ensures
            json@ == empty_object(),
    {
        let json = Json::Object(Vec::new());
        assert(json@->Object_0 =~= Seq::<(Seq<char>, JsonView)>::empty());
        json
    }

    /// This object with one more field at its end.
    pub fn with(self, key: &str, value: Json) -> (json: Json)
        ensures
            json@ == self@.with(key@, value@),
    {
        match self {
            Json::Object(fields) => {
                let mut fields = fields;
                fields.push((key.to_owned(), value));
                let json = Json::Object(fields);
                assert(json@->Object_0 =~= self@.with(key@, value@)->Object_0);
                json
            },
            _ => {
                let mut fields: Vec<(String, Json)> = Vec::new();
                fields.push((key.to_owned(), value));
                let json = Json::Object(fields);
                assert(json@->Object_0 =~= self@.with(key@, value@)->Object_0);
                json
            },
        }
    }

    /// A text.
    pub fn text(text: &str) -> (json: Json)
        ensures
            json@ == JsonView::Text(text@),
    {
        Json::Text(text.to_owned())
    }

    /// An array of one item.
    pub fn single(item: Json) -> (json: Json)
        ensures
            json@ == JsonView::Array(seq![item@]),
    {
        let mut items: Vec<Json> = Vec::new();
        items.push(item);
        let json = Json::Array(items);
        assert(json@->Array_0 =~= seq![item@]);
        json
    }
}

/// Reading a field that was just added to an object without it gives its value.
pub proof fn law_added_field_is_read(json: JsonView, key: Seq<char>, value: JsonView)
    requires
        json is Object,
        !json.has_field(key),
    ensures
        json.with(key, value).field(key) == value,
{
    let fields = json->Object_0;
    lemma_absent(fields, key);
    lemma_field_position(fields.push((key, value)), key, fields.len() as int);
}

/// Reading another field than the one just added gives what it gave before.
pub proof fn law_other_fields_stay(json: JsonView, key: Seq<char>, value: JsonView, other: Seq<char>)
    requires
        json is Object,
        other != key,
    ensures
        json.with(key, value).field(other) == json.field(other),
        json.with(key, value).has_field(other) == json.has_field(other),
{
    lemma_push_keeps(json->Object_0, key, value, other);
}

/// The first field with a name is the one that is read by that name.
pub proof fn law_first_field_is_read(json: JsonView, i: int)
    requires
        json is Object,
        0 <= i < json->Object_0.len(),
        forall|j: int| 0 <= j < i ==> #[trigger] json->Object_0[j].0 != json->Object_0[i].0,
    ensures
        json.has_field(json->Object_0[i].0),
        json.field(json->Object_0[i].0) == json->Object_0[i].1,
{
    lemma_field_position(json->Object_0, json->Object_0[i].0, i);
}

/// A name that no field has is not read; what is read instead is `Null`.
pub proof fn law_absent_field_is_null(json: JsonView, key: Seq<char>)
    requires
        json is Object ==> forall|j: int|
            0 <= j < json->Object_0.len() ==> #[trigger] json->Object_0[j].0 != key,
    ensures
        !json.has_field(key),
        json.field(key) == JsonView::Null,
{
    if json is Object {
        lemma_field_position(json->Object_0, key, json->Object_0.len() as int);
    }
}

/// A text, an integer and an array are read as what they are, and nothing else is.
pub proof fn law_values_are_read(json: JsonView, text: Seq<char>, n: int, items: Seq<JsonView>)
    ensures
        json.as_text() == Some(text) <==> json == JsonView::Text(text),
        json.text_or_empty() == text <==> json == JsonView::Text(text) || (!(json is Text)
            && text.len() == 0),
        json.as_integer() == Some(n) <==> json == JsonView::Integer(n),
        json.as_items() == Some(items) <==> json == JsonView::Array(items),
        items.len() > 0 ==> JsonView::Array(items).first_item() == items[0],
        !(json is Array) ==> json.first_item() == JsonView::Null,
        JsonView::Array(Seq::empty()).first_item() == JsonView::Null,
        json.is_true() <==> json == JsonView::Bool(true),
{
    if !(json is Text) && text.len() == 0 {
        assert(text =~= Seq::<char>::empty());
    }
}

proof fn lemma_absent(fields: Seq<(Seq<char>, JsonView)>, key: Seq<char>)
    requires
        field_position(fields, key) is None,
    ensures
        forall|j: int| 0 <= j < fields.len() ==> #[trigger] fields[j].0 != key,
    decreases fields.len(),
{
    if fields.len() > 0 {
        let rest = fields.drop_first();
        lemma_absent(rest, key);
        assert forall|j: int| 0 <= j < fields.len() implies #[trigger] fields[j].0 != key by {
            if j > 0 {
                assert(rest[j - 1] == fields[j]);
            }
        }
    }
}

proof fn lemma_push_keeps(
    fields: Seq<(Seq<char>, JsonView)>,
    key: Seq<char>,
    value: JsonView,
    other: Seq<char>,
)
    requires
        other != key,
    ensures
        field_position(fields.push((key, value)), other) == field_position(fields, other),
        match field_position(fields, other) {
            Some(i) => 0 <= i < fields.len(),
            None => true,
        },
    decreases fields.len(),
{
    let pushed = fields.push((key, value));
    if fields.len() > 0 {
        assert(pushed.drop_first() =~= fields.drop_first().push((key, value)));
        lemma_push_keeps(fields.drop_first(), key, value, other);
    } else {
        reveal_with_fuel(field_position, 2);
        assert(pushed.drop_first() =~= Seq::<(Seq<char>, JsonView)>::empty());
    }
}

/// A document of `serde_json`.
#[verifier::external_type_specification]
#[verifier::external_body]
pub struct ExValue(serde_json::Value);

/// One level of a document of `serde_json`.
#[derive(Debug)]
enum Level {
    Null,
    Bool(bool),
    /// The number as an integer of 64 bits, where it is one, and its text.
    Number(Option<i64>, String),
    Text(String),
    Array(Vec<serde_json::Value>),
    Object(Vec<(String, serde_json::Value)>),
}

/// What a document of `serde_json` holds.
pub uninterp spec fn contents(value: serde_json::Value) -> JsonView;

/// What one level of a document holds, and what lies below it.
spec fn level_contents(level: Level) -> JsonView {
    match level {
        Level::Null => JsonView::Null,
        Level::Bool(b) => JsonView::Bool(b),
        Level::Number(Some(n), _) => JsonView::Integer(n as int),
        Level::Number(None, text) => JsonView::Decimal(text@),
        Level::Text(text) => JsonView::Text(text@),
        Level::Array(items) => JsonView::Array(
            items@.map_values(|v: serde_json::Value| contents(v)),
        ),
        Level::Object(fields) => JsonView::Object(
            fields@.map_values(|f: (String, serde_json::Value)| (f.0@, contents(f.1))),
        ),
    }
}

/// The document is nested no deeper than `depth`.
pub open spec fn is_nested_within(json: JsonView, depth: nat) -> bool
    decreases depth,
{
    match json {
        JsonView::Array(items) => depth > 0 && forall|i: int|
            0 <= i < items.len() ==> is_nested_within(#[trigger] items[i], (depth - 1) as nat),
        JsonView::Object(fields) => depth > 0 && forall|i: int|
            0 <= i < fields.len() ==> is_nested_within(
                (#[trigger] fields[i]).1,
                (depth - 1) as nat,
            ),
        _ => true,
    }
}

/// What came of reading a document.
spec fn reading(result: Result<serde_json::Value, String>) -> Result<JsonView, Seq<char>> {
    match result {
        Ok(value) => Ok(contents(value)),
        Err(message) => Err(message@),
    }
}

/// A document that was read is nested no deeper than this.
spec fn reads_within(result: Result<serde_json::Value, String>, depth: nat) -> bool {
    match result {
        Ok(value) => is_nested_within(contents(value), depth),
        Err(_) => true,
    }
}

/// The model of what came of reading a document.
pub open spec fn parsed(result: Result<Json, String>) -> Result<JsonView, Seq<char>> {
    match result {
        Ok(json) => Ok(json@),
        Err(message) => Err(message@),
    }
}

/// The document that a text writes, or what is wrong with it.
pub uninterp spec fn document(text: Seq<char>) -> Result<JsonView, Seq<char>>;

/// The document that bytes write, or what is wrong with them.
pub uninterp spec fn document_of_bytes(bytes: Seq<u8>) -> Result<JsonView, Seq<char>>;

/// The text of a document without white space between its tokens.
pub uninterp spec fn compact(json: JsonView) -> Seq<char>;

/// The text of a document laid out over several lines, where it can be written.
pub uninterp spec fn pretty(json: JsonView) -> Option<Seq<char>>;

/// Tells the variants of `serde_json::Value` apart, and moves their fields. Of a
/// number, `Number::as_i64` and `Number::to_string` are given. Together with
/// what the documents below hold, that is what the document holds.
#[verifier::external_body]
fn level_of(value: serde_json::Value) -> (level: Level)
    ensures
        level_contents(level) == contents(value),
{
    match value {
        serde_json::Value::Null => Level::Null,
        serde_json::Value::Bool(b) => Level::Bool(b),
        serde_json::Value::Number(n) => Level::Number(n.as_i64(), n.to_string()),
        serde_json::Value::String(s) => Level::Text(s),
        serde_json::Value::Array(items) => Level::Array(items),
        serde_json::Value::Object(fields) => Level::Object(fields.into_iter().collect()),
    }
}

/// Calls `serde_json::from_str`. What its value holds, or the message of its
/// error, is named `document`. It refuses a document that is nested deeper than
/// 128 levels.
#[verifier::external_body]
fn value_of_text(text: &str) -> (result: Result<serde_json::Value, String>)
    ensures
        reading(result) == document(text@),
        reads_within(result, 128),
{
    serde_json::from_str(text).map_err(|e| e.to_string())
}

/// Calls `serde_json::from_slice`. What its value holds, or the message of its
/// error, is named `document_of_bytes`. It refuses a document that is nested
/// deeper than 128 levels.
#[verifier::external_body]
fn value_of_bytes(bytes: &Vec<u8>) -> (result: Result<serde_json::Value, String>)
    ensures
        reading(result) == document_of_bytes(bytes@),
        reads_within(result, 128),
{
    serde_json::from_slice(bytes).map_err(|e| e.to_string())
}

/// Calls `Value::to_string`, the compact form. Its result is named `compact`.
#[verifier::external_body]
fn write_compact(value: &serde_json::Value) -> (out: String)
    ensures
        out@ == compact(contents(*value)),
{
    value.to_string()
}

/// Calls `serde_json::to_string_pretty`. Its result, `None` where it fails, is
/// named `pretty`.
#[verifier::external_body]
fn write_pretty(value: &serde_json::Value) -> (out: Option<String>)
    ensures
        crate::text::optional(out) == pretty(contents(*value)),
{
    serde_json::to_string_pretty(value).ok()
}

/// The value of the field named `key` of a document of `serde_json`.
fn take_field(value: serde_json::Value, key: &str) -> (found: Option<serde_json::Value>)
    ensures
        match found {
            Some(inner) => contents(value).has_field(key@) && contents(inner) == contents(
                value,
            ).field(key@),
            None => !contents(value).has_field(key@),
        },
{
    match level_of(value) {
        Level::Object(fields) => {
            let ghost model = contents(value)->Object_0;
            for field in it: fields
                invariant
                    it.seq() == fields@,
                    contents(value) == JsonView::Object(model),
                    model == fields@.map_values(
                        |f: (String, serde_json::Value)| (f.0@, contents(f.1)),
                    ),
                    forall|j: int| 0 <= j < it.index() ==> #[trigger] model[j].0 != key@,
            {
                let (name, inner) = field;
                assert(model[it.index() as int] == (name@, contents(inner)));
                if same_text(name.as_str(), key) {
                    proof {
                        lemma_field_position(model, key@, it.index() as int);
                    }
                    return Some(inner);
                }
            }
            proof {
                lemma_field_position(model, key@, fields@.len() as int);
            }
            None
        },
        _ => None,
    }
}

/// The compact text of the value of a field of the document that a text writes,
/// where there is one.
pub open spec fn compact_field(text: Seq<char>, key: Seq<char>) -> Option<Seq<char>> {
    match document(text) {
        Ok(json) => if json.has_field(key) {
            Some(compact(json.field(key)))
        } else {
            None
        },
        Err(_) => None,
    }
}

/// The compact text of the value of a field of the document that a text writes.
pub fn compact_text(text: &str, key: &str) -> (out: Option<String>)
    ensures
        crate::text::optional(out) == compact_field(text@, key@),
{
    match value_of_text(text) {
        Ok(value) => match take_field(value, key) {
            Some(inner) => Some(write_compact(&inner)),
            None => None,
        },
        Err(_) => None,
    }
}

/// The document that bytes write, where they write one: laid out, or compact
/// where it cannot be laid out.
pub open spec fn laid_out(bytes: Seq<u8>) -> Option<Seq<char>> {
    match document_of_bytes(bytes) {
        Ok(json) => match pretty(json) {
            Some(text) => Some(text),
            None => Some(compact(json)),
        },
        Err(_) => None,
    }
}

/// The document that bytes write, laid out.
pub fn pretty_text(bytes: &Vec<u8>) -> (out: Option<String>)
    ensures
        crate::text::optional(out) == laid_out(bytes@),
{
    match value_of_bytes(bytes) {
        Ok(value) => match write_pretty(&value) {
            Some(text) => Some(text),
            None => Some(write_compact(&value)),
        },
        Err(_) => None,
    }
}

/// The document of `serde_json` as plain values.
fn plain(value: serde_json::Value, depth: usize) -> (json: Json)
    requires
        is_nested_within(contents(value), depth as nat),
    ensures
        json@ == contents(value),
    decreases depth,
{
    match level_of(value) {
        Level::Null => Json::Null,
        Level::Bool(b) => Json::Bool(b),
        Level::Number(Some(n), _) => Json::Integer(n),
        Level::Number(None, text) => Json::Decimal(text),
        Level::Text(text) => Json::Text(text),
        Level::Array(items) => {
            let ghost below = contents(value)->Array_0;
            let mut list: Vec<Json> = Vec::new();
            for item in it: items
                invariant
                    depth > 0,
                    it.seq() == items@,
                    below == items@.map_values(|v: serde_json::Value| contents(v)),
                    forall|i: int|
                        0 <= i < below.len() ==> is_nested_within(
                            #[trigger] below[i],
                            (depth - 1) as nat,
                        ),
                    trees(list@) == below.take(it.index() as int),
            {
                let ghost before = list@;
                assert(below[it.index() as int] == contents(item));
                let json = plain(item, depth - 1);
                list.push(json);
                assert(trees(list@) =~= trees(before).push(json@));
            }
            assert(below.take(items@.len() as int) =~= below);
            let json = Json::Array(list);
            assert(json@->Array_0 =~= trees(list@));
            json
        },
        Level::Object(fields) => {
            let ghost below = contents(value)->Object_0;
            let mut list: Vec<(String, Json)> = Vec::new();
            for field in it: fields
                invariant
                    depth > 0,
                    it.seq() == fields@,
                    below == fields@.map_values(
                        |f: (String, serde_json::Value)| (f.0@, contents(f.1)),
                    ),
                    forall|i: int|
                        0 <= i < below.len() ==> is_nested_within(
                            (#[trigger] below[i]).1,
                            (depth - 1) as nat,
                        ),
                    list@.map_values(|f: (String, Json)| (f.0@, f.1@)) == below.take(
                        it.index() as int,
                    ),
            {
                let ghost before = list@;
                assert(below[it.index() as int] == (field.0@, contents(field.1)));
                let (name, inner) = field;
                let json = plain(inner, depth - 1);
                list.push((name, json));
                assert(list@.map_values(|f: (String, Json)| (f.0@, f.1@)) =~= before.map_values(
                    |f: (String, Json)| (f.0@, f.1@),
                ).push((name@, json@)));
            }
            assert(below.take(fields@.len() as int) =~= below);
            let json = Json::Object(list);
            assert(json@->Object_0 =~= list@.map_values(|f: (String, Json)| (f.0@, f.1@)));
            json
        },
    }
}

/// Reads the document that a text writes.
pub fn parse_text(text: &str) -> (result: Result<Json, String>)
    ensures
        parsed(result) == document(text@),
{
    match value_of_text(text) {
        Ok(value) => Ok(plain(value, 128)),
        Err(message) => Err(message),
    }
}

/// Reads the document that bytes write.
pub fn parse_bytes(bytes: &Vec<u8>) -> (result: Result<Json, String>)
    ensures
        parsed(result) == document_of_bytes(bytes@),
{
    match value_of_bytes(bytes) {
        Ok(value) => Ok(plain(value, 128)),
        Err(message) => Err(message),
    }
}

/// The value of a field is rendered as it stands in the document, and nothing is
/// where the text is no document or has no such field.
pub proof fn law_field_is_rendered(text: Seq<char>, key: Seq<char>)
    ensures
        document(text) matches Ok(json) ==> compact_field(text, key) == if json.has_field(key) {
            Some(compact(json.field(key)))
        } else {
            None
        },
        document(text) is Err ==> compact_field(text, key) is None,
{
}

/// A document is laid out, or rendered in one line where it cannot be.
pub proof fn law_document_is_laid_out(bytes: Seq<u8>)
    ensures
        document_of_bytes(bytes) matches Ok(json) ==> laid_out(bytes) == if pretty(json) is Some {
            pretty(json)
        } else {
            Some(compact(json))
        },
        document_of_bytes(bytes) is Err ==> laid_out(bytes) is None,
{
}

} // verus!
