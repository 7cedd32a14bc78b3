//! JSON documents as plain values, read with `serde_json`.
use vstd::prelude::*;

verus! {

/// The document type of `serde_json`. A value of it is opaque.
#[verifier::external_type_specification]
#[verifier::external_body]
pub struct ExValue(serde_json::Value);

/// The error type of `serde_json`. A value of it is opaque.
#[verifier::external_type_specification]
#[verifier::external_body]
pub struct ExError(serde_json::Error);

/// A JSON document.
#[derive(Debug, PartialEq, Eq)]
pub enum Json {
    Null,
    Bool(bool),
    Number(JsonNumber),
    Text(String),
    List(Vec<Json>),
    Object(Vec<(String, Json)>),
}

/// What is read of a JSON number.
#[derive(Clone, Copy, Debug, PartialEq, Eq, Structural)]
pub struct JsonNumber {
    /// The number, where it is an integer from 0 to `u64::MAX`.
    pub unsigned: Option<u64>,
    /// The number as a double, where it has one, without its fraction and kept within `u64`.
    pub truncated: Option<u64>,
}

/// The largest integer up to which a double holds every integer.
pub const EXACT_LIMIT: u64 = 0x20_0000_0000_0000;

/// The mathematical value of a [`Json`].
pub enum JsonView {
    Null,
    Bool(bool),
    Number(JsonNumber),
    Text(Seq<char>),
    List(Seq<JsonView>),
    Object(Seq<(Seq<char>, JsonView)>),
}

impl JsonNumber {
    /// The two readings of an integer that a double holds exactly are the same.
    pub open spec fn agrees(self) -> bool {
        match self.unsigned {
            Some(n) => n <= EXACT_LIMIT ==> self.truncated == Some(n),
            None => true,
        }
    }
}

/// Whether no key stands twice.
pub open spec fn distinct_keys(fields: Seq<(Seq<char>, JsonView)>) -> bool {
    forall|i: int, j: int|
        0 <= i < j < fields.len() ==> (#[trigger] fields[i]).0 != (#[trigger] fields[j]).0
}

/// The value of the first field under a key.
pub open spec fn first_field(fields: Seq<(Seq<char>, JsonView)>, key: Seq<char>) -> Option<JsonView>
    decreases fields.len(),
{
    if fields.len() == 0 {
        None
    } else if fields[0].0 == key {
        Some(fields[0].1)
    } else {
        first_field(fields.drop_first(), key)
    }
}

impl JsonView {
    /// What holds of every document that was read: objects have no key twice, and numbers
    /// agree with themselves.
    pub open spec fn well_formed(self) -> bool
        decreases self,
    {
        match self {
            JsonView::Number(n) => n.agrees(),
            JsonView::List(items) => forall|i: int|
                0 <= i < items.len() ==> (#[trigger] items[i]).well_formed(),
            JsonView::Object(fields) => distinct_keys(fields) && forall|i: int|
                0 <= i < fields.len() ==> (#[trigger] fields[i]).1.well_formed(),
            _ => true,
        }
    }

    /// The value under a key, where this is an object that has it.
    pub open spec fn field(self, key: Seq<char>) -> Option<JsonView> {
        match self {
            JsonView::Object(fields) => first_field(fields, key),
            _ => None,
        }
    }

    /// The text, where this is one.
    pub open spec fn text(self) -> Option<Seq<char>> {
        match self {
            JsonView::Text(text) => Some(text),
            _ => None,
        }
    }

    /// The items, where this is a list.
    pub open spec fn list(self) -> Option<Seq<JsonView>> {
        match self {
            JsonView::List(items) => Some(items),
            _ => None,
        }
    }

    /// The number, where this is an integer from 0 to `u64::MAX`.
    pub open spec fn unsigned(self) -> Option<u64> {
        match self {
            JsonView::Number(n) => n.unsigned,
            _ => None,
        }
    }

    /// The number as a double without its fraction, where this is a number.
    pub open spec fn truncated(self) -> Option<u64> {
        match self {
            JsonView::Number(n) => n.truncated,
            _ => None,
        }
    }

    /// The text under a key.
    pub open spec fn text_field(self, key: Seq<char>) -> Option<Seq<char>> {
        match self.field(key) {
            Some(value) => value.text(),
            None => None,
        }
    }

    /// The unsigned integer under a key.
    pub open spec fn unsigned_field(self, key: Seq<char>) -> Option<u64> {
        match self.field(key) {
            Some(value) => value.unsigned(),
            None => None,
        }
    }
}

impl View for Json {
    type V = JsonView;

    open spec fn view(&self) -> JsonView {
        json_view(*self)
    }
}

/// The mathematical value of a document.
pub open spec fn json_view(json: Json) -> JsonView
    decreases json,
{
    match json {
        Json::Null => JsonView::Null,
        Json::Bool(b) => JsonView::Bool(b),
        Json::Number(n) => JsonView::Number(n),
        Json::Text(s) => JsonView::Text(s@),
        Json::List(items) => JsonView::List(
            Seq::new(
                items@.len(),
                |i: int|
                    if 0 <= i < items@.len() {
                        json_view(items@[i])
                    } else {
                        JsonView::Null
                    },
            ),
        ),
        Json::Object(fields) => JsonView::Object(
            Seq::new(
                fields@.len(),
                |i: int|
                    if 0 <= i < fields@.len() {
                        (fields@[i].0@, json_view(fields@[i].1))
                    } else {
                        (Seq::empty(), JsonView::Null)
                    },
            ),
        ),
    }
}

/// In a well-formed object, every field is the one that is found under its key.
pub proof fn law_field_is_unique(json: JsonView, i: int)
    requires
        json.well_formed(),
        json is Object,
        0 <= i < json->Object_0.len(),
    ensures
        json.field(json->Object_0[i].0) == Some(json->Object_0[i].1),
{
    lemma_first_field(json->Object_0, i);
}

proof fn lemma_first_field(fields: Seq<(Seq<char>, JsonView)>, i: int)
    requires
        distinct_keys(fields),
        0 <= i < fields.len(),
    ensures
        first_field(fields, fields[i].0) == Some(fields[i].1),
    decreases fields.len(),
{
    if i > 0 {
        assert(fields[0].0 != fields[i].0);
        assert(fields.drop_first()[i - 1] == fields[i]);
        lemma_first_field(fields.drop_first(), i - 1);
    }
}

/// Under a key stands the first field that has it, whatever the other fields are.
pub proof fn law_first_under_key_is_found(json: JsonView, key: Seq<char>, i: int)
    requires
        json is Object,
        0 <= i < json->Object_0.len(),
        json->Object_0[i].0 == key,
        forall|j: int| 0 <= j < i ==> (#[trigger] json->Object_0[j]).0 != key,
    ensures
        json.field(key) == Some(json->Object_0[i].1),
{
    lemma_first_under_key(json->Object_0, key, i);
}

proof fn lemma_first_under_key(fields: Seq<(Seq<char>, JsonView)>, key: Seq<char>, i: int)
    requires
        0 <= i < fields.len(),
        fields[i].0 == key,
        forall|j: int| 0 <= j < i ==> (#[trigger] fields[j]).0 != key,
    ensures
        first_field(fields, key) == Some(fields[i].1),
    decreases fields.len(),
{
    if i > 0 {
        let rest = fields.drop_first();
        assert(fields[0].0 != key);
        assert forall|j: int| 0 <= j < i - 1 implies (#[trigger] rest[j]).0 != key by {
            assert(rest[j] == fields[j + 1]);
        }
        lemma_first_under_key(rest, key, i - 1);
    }
}

/// Nothing stands under a key that no field has, nor in what is no object.
pub proof fn law_missing_key_has_nothing(json: JsonView, key: Seq<char>)
    requires
        json is Object ==> forall|j: int|
            0 <= j < json->Object_0.len() ==> (#[trigger] json->Object_0[j]).0 != key,
    ensures
        json.field(key) is None,
        json.text_field(key) is None,
        json.unsigned_field(key) is None,
{
    if let JsonView::Object(fields) = json {
        lemma_missing_key(fields, key);
    }
}

proof fn lemma_missing_key(fields: Seq<(Seq<char>, JsonView)>, key: Seq<char>)
    requires
        forall|j: int| 0 <= j < fields.len() ==> (#[trigger] fields[j]).0 != key,
    ensures
        first_field(fields, key) is None,
    decreases fields.len(),
{
    if fields.len() > 0 {
        let rest = fields.drop_first();
        assert(fields[0].0 != key);
        assert forall|j: int| 0 <= j < rest.len() implies (#[trigger] rest[j]).0 != key by {
            assert(rest[j] == fields[j + 1]);
        }
        lemma_missing_key(rest, key);
    }
}

/// A text is read of a text alone, items of a list alone and a number of a number alone, as
/// they are; under a key the same holds of what stands there.
pub proof fn law_values_are_read_as_they_are(
    json: JsonView,
    key: Seq<char>,
    text: Seq<char>,
    items: Seq<JsonView>,
    number: u64,
)
    ensures
        json.text() == Some(text) <==> json == JsonView::Text(text),
        json.list() == Some(items) <==> json == JsonView::List(items),
        json.unsigned() == Some(number) <==> json is Number && json->Number_0.unsigned == Some(
            number,
        ),
        json.truncated() == Some(number) <==> json is Number && json->Number_0.truncated == Some(
            number,
        ),
        json.text_field(key) == Some(text) <==> json.field(key) == Some(JsonView::Text(text)),
        json.unsigned_field(key) == Some(number) <==> (json.field(key) matches Some(value)
            && value is Number && value->Number_0.unsigned == Some(number)),
{
}

/// The view of a document shows all of it: its kind, its text or number, every item and every
/// field in its place.
pub proof fn law_view_shows_everything(json: Json, i: int)
    ensures
        json is Null <==> json@ is Null,
        json matches Json::Bool(b) ==> json@ == JsonView::Bool(b),
        json matches Json::Number(n) ==> json@ == JsonView::Number(n),
        json matches Json::Text(s) ==> json@ == JsonView::Text(s@),
        json matches Json::List(items) ==> json@ is List && json@->List_0.len() == items@.len()
            && (0 <= i < items@.len() ==> json@->List_0[i] == items@[i]@),
        json matches Json::Object(fields) ==> json@ is Object && json@->Object_0.len()
            == fields@.len() && (0 <= i < fields@.len() ==> json@->Object_0[i] == (
            fields@[i].0@,
            fields@[i].1@,
        )),
{
}

/// What stands under a key of a well-formed document is well-formed.
pub proof fn lemma_field_is_well_formed(json: JsonView, key: Seq<char>)
    requires
        json.well_formed(),
    ensures
        json.field(key) matches Some(value) ==> value.well_formed(),
{
    if let JsonView::Object(fields) = json {
        lemma_first_field_is_one(fields, key);
    }
}

proof fn lemma_first_field_is_one(fields: Seq<(Seq<char>, JsonView)>, key: Seq<char>)
    ensures
        first_field(fields, key) matches Some(value) ==> exists|i: int|
            0 <= i < fields.len() && (#[trigger] fields[i]).1 == value,
    decreases fields.len(),
{
    if fields.len() > 0 && fields[0].0 != key {
        let rest = fields.drop_first();
        lemma_first_field_is_one(rest, key);
        if let Some(value) = first_field(rest, key) {
            let i = choose|i: int| 0 <= i < rest.len() && (#[trigger] rest[i]).1 == value;
            assert(fields[i + 1] == rest[i]);
        }
    }
}

/// The document that a `serde_json::Value` holds: its fields in the order in which its map
/// hands them out, its numbers as `Number::as_u64` and `Number::as_f64` read them.
pub uninterp spec fn value_contents(value: serde_json::Value) -> JsonView;

/// The document that `serde_json::from_str` reads out of a text with no white space at its
/// end; none where it fails.
pub uninterp spec fn json_of_text(text: Seq<char>) -> Option<JsonView>;

/// Whether a character is white space in JSON.
pub open spec fn is_json_white(c: char) -> bool {
    c == ' ' || c == '\n' || c == '\t' || c == '\r'
}

/// A text without the JSON white space at its end.
pub open spec fn without_json_white(text: Seq<char>) -> Seq<char>
    decreases text.len(),
{
    if text.len() > 0 && is_json_white(text.last()) {
        without_json_white(text.drop_last())
    } else {
        text
    }
}

/// The document in a text: white space after it does not count, and white space alone is
/// none.
pub open spec fn document(text: Seq<char>) -> Option<JsonView> {
    if without_json_white(text).len() == 0 {
        None
    } else {
        json_of_text(without_json_white(text))
    }
}

/// White space after a text changes nothing in the document that is read of it, and white
/// space alone holds none.
pub proof fn law_white_space_after_document(text: Seq<char>, white: Seq<char>)
    requires
        text.len() > 0,
        text.last() != ' ' && text.last() != '\n' && text.last() != '\t' && text.last() != '\r',
        forall|i: int|
            0 <= i < white.len() ==> #[trigger] white[i] == ' ' || white[i] == '\n' || white[i]
                == '\t' || white[i] == '\r',
    ensures
        document(text + white) == json_of_text(text),
        document(white) is None,
    decreases white.len(),
{
    if white.len() == 0 {
        assert(text + white == text);
    } else {
        let less = white.drop_last();
        assert forall|i: int| 0 <= i < less.len() implies #[trigger] less[i] == ' ' || less[i]
            == '\n' || less[i] == '\t' || less[i] == '\r' by {
            assert(less[i] == white[i]);
        }
        assert(is_json_white(white[white.len() - 1]));
        law_white_space_after_document(text, less);
        assert((text + white).drop_last() == text + less);
        assert(without_json_white(text + white) == without_json_white(text + less));
        assert(without_json_white(white) == without_json_white(less));
    }
}

/// The document that `serde_json::from_slice` reads out of bytes; none where it fails.
pub uninterp spec fn json_of_bytes(bytes: Seq<u8>) -> Option<JsonView>;

/// The outermost layer of a `serde_json::Value`.
pub(crate) enum Layer {
    Null,
    Bool(bool),
    Number(JsonNumber),
    Text(String),
    List(Vec<serde_json::Value>),
    Object(Vec<(String, serde_json::Value)>),
}

/// The document of which a layer is the outermost part.
pub(crate) closed spec fn layer_contents(layer: Layer) -> JsonView {
    match layer {
        Layer::Null => JsonView::Null,
        Layer::Bool(b) => JsonView::Bool(b),
        Layer::Number(n) => JsonView::Number(n),
        Layer::Text(s) => JsonView::Text(s@),
        Layer::List(items) => JsonView::List(
            items@.map_values(|v: serde_json::Value| value_contents(v)),
        ),
        Layer::Object(fields) => JsonView::Object(
            fields@.map_values(|f: (String, serde_json::Value)| (f.0@, value_contents(f.1))),
        ),
    }
}

/// `serde_json::from_str` into a `Value`. It succeeds or fails by the text alone. White space
/// after a document is passed over, and a text of white space alone is an error; what is read
/// of any other text is named `json_of_text`, and which of them are documents is left to that
/// name.
#[verifier::external_body]
fn value_from_str(text: &str) -> (result: Result<serde_json::Value, serde_json::Error>)
    ensures
        without_json_white(text@).len() == 0 ==> result is Err,
        without_json_white(text@).len() > 0 ==> match result {
            Ok(value) => json_of_text(without_json_white(text@)) == Some(value_contents(value)),
            Err(_) => json_of_text(without_json_white(text@)) is None,
        },
{
    serde_json::from_str(text)
}

/// `serde_json::from_slice` into a `Value`. It succeeds or fails by the bytes alone, and
/// what it reads is named `json_of_bytes`; which bytes are documents is left to that name.
#[verifier::external_body]
fn value_from_slice(bytes: &[u8]) -> (result: Result<serde_json::Value, serde_json::Error>)
    ensures
        match result {
            Ok(value) => json_of_bytes(bytes@) == Some(value_contents(value)),
            Err(_) => json_of_bytes(bytes@) is None,
        },
{
    serde_json::from_slice(bytes)
}

/// The variants of `serde_json::Value`, told apart. A number is read with `Number::as_u64`
/// and with `Number::as_f64`, whose double an `as` cast turns into a `u64`: an integer that a
/// double holds exactly gives the same from both. The map of an object hands its fields out
/// with no key twice. What either reading makes of other numbers is left to the name
/// `value_contents`.
#[verifier::external_body]
fn open_value(value: serde_json::Value) -> (layer: Layer)
    ensures
        layer_contents(layer) == value_contents(value),
        layer matches Layer::Number(n) ==> n.agrees(),
        layer matches Layer::Object(fields) ==> forall|i: int, j: int|
            0 <= i < j < fields@.len() ==> (#[trigger] fields@[i]).0@ != (#[trigger] fields@[j]).0@,
{
    match value {
        serde_json::Value::Null => Layer::Null,
        serde_json::Value::Bool(b) => Layer::Bool(b),
        serde_json::Value::Number(n) => Layer::Number(
            JsonNumber { unsigned: n.as_u64(), truncated: n.as_f64().map(|x| x as u64) },
        ),
        serde_json::Value::String(s) => Layer::Text(s),
        serde_json::Value::Array(items) => Layer::List(items),
        serde_json::Value::Object(fields) => Layer::Object(fields.into_iter().collect()),
    }
}

/// The document that a `serde_json::Value` holds.
fn json_from_value(value: serde_json::Value) -> (json: Json)
    ensures
        json@ == value_contents(value),
        json@.well_formed(),
    decreases value_contents(value),
{
    let ghost contents = value_contents(value);
    match open_value(value) {
        Layer::Null => Json::Null,
        Layer::Bool(b) => Json::Bool(b),
        Layer::Number(n) => Json::Number(n),
        Layer::Text(s) => Json::Text(s),
        Layer::List(items) => {
            let mut out: Vec<Json> = Vec::new();
            let ghost all = items@;
            for item in it: items
                invariant
                    it.seq() == all,
                    contents == value_contents(value),
                    contents == JsonView::List(
                        all.map_values(|v: serde_json::Value| value_contents(v)),
                    ),
                    out@.len() == it.index(),
                    forall|j: int|
                        0 <= j < out@.len() ==> (#[trigger] out@[j])@ == value_contents(all[j])
                            && out@[j]@.well_formed(),
            {
                assert(contents->List_0[it.index()] == value_contents(item));
                assert(decreases_to!(contents => contents->List_0));
                assert(decreases_to!(contents->List_0 => contents->List_0[it.index()]));
                out.push(json_from_value(item));
            }
            let json = Json::List(out);
            assert(json@->List_0 == contents->List_0);
            json
        },
        Layer::Object(fields) => {
            let mut out: Vec<(String, Json)> = Vec::new();
            let ghost all = fields@;
            for field in it: fields
                invariant
                    it.seq() == all,
                    contents == value_contents(value),
                    contents == JsonView::Object(
                        all.map_values(
                            |f: (String, serde_json::Value)| (f.0@, value_contents(f.1)),
                        ),
                    ),
                    out@.len() == it.index(),
                    forall|j: int|
                        0 <= j < out@.len() ==> (#[trigger] out@[j]).0@ == all[j].0@
                            && out@[j].1@ == value_contents(all[j].1)
                            && out@[j].1@.well_formed(),
            {
                let ghost field_contents = contents->Object_0[it.index()];
                assert(field_contents == (field.0@, value_contents(field.1)));
                assert(decreases_to!(contents => contents->Object_0));
                assert(decreases_to!(contents->Object_0 => contents->Object_0[it.index()]));
                assert(decreases_to!(field_contents => field_contents.1));
                out.push((field.0, json_from_value(field.1)));
            }
            let json = Json::Object(out);
            assert(json@->Object_0 == contents->Object_0);
            assert(distinct_keys(json@->Object_0)) by {
                assert forall|i: int, j: int| 0 <= i < j < json@->Object_0.len() implies (
                #[trigger] json@->Object_0[i]).0 != (#[trigger] json@->Object_0[j]).0 by {
                    assert(all[i].0@ != all[j].0@);
                }
            }
            json
        },
    }
}

/// Reads a document out of a text.
pub fn parse_json(text: &str) -> (json: Option<Json>)
    ensures
        match json {
            Some(j) => document(text@) == Some(j@) && j@.well_formed(),
            None => document(text@) is None,
        },
{
    match value_from_str(text) {
        Ok(value) => Some(json_from_value(value)),
        Err(_) => None,
    }
}

/// Reads a document out of bytes.
pub fn parse_json_bytes(bytes: &[u8]) -> (json: Option<Json>)
    ensures
        match json {
            Some(j) => json_of_bytes(bytes@) == Some(j@) && j@.well_formed(),
            None => json_of_bytes(bytes@) is None,
        },
{
    match value_from_slice(bytes) {
        Ok(value) => Some(json_from_value(value)),
        Err(_) => None,
    }
}

impl Json {
    /// The value under a key, where this is an object that has it.
    pub fn get(&self, key: &str) -> (value: Option<&Json>)
        ensures
            match value {
                Some(v) => self@.field(key@) == Some(v@),
                None => self@.field(key@) is None,
            },
    {
        match self {
            Json::Object(fields) => {
                let wanted = key.to_owned();
                let ghost all = self@->Object_0;
                let mut i: usize = 0;
                assert(all.skip(0) == all);
                while i < fields.len()
                    invariant
                        i <= fields@.len() == all.len(),
                        wanted@ == key@,
                        *self == Json::Object(*fields),
                        all == self@->Object_0,
                        first_field(all, key@) == first_field(all.skip(i as int), key@),
                    decreases fields@.len() - i,
                {
                    assert(all[i as int] == (fields@[i as int].0@, fields@[i as int].1@));
                    assert(all.skip(i as int)[0] == all[i as int]);
                    if fields[i].0 == wanted {
                        return Some(&fields[i].1);
                    }
                    assert(all.skip(i as int).drop_first() == all.skip(i + 1));
                    i = i + 1;
                }
                None
            },
            _ => None,
        }
    }

    /// The text, where this is one.
    pub fn as_str(&self) -> (text: Option<&str>)
        ensures
            match text {
                Some(t) => self@.text() == Some(t@),
                None => self@.text() is None,
            },
    {
        match self {
            Json::Text(text) => Some(text.as_str()),
            _ => None,
        }
    }

    /// The items, where this is a list.
    pub fn as_array(&self) -> (items: Option<&Vec<Json>>)
        ensures
            match items {
                Some(list) => *self == Json::List(*list),
                None => self@.list() is None,
            },
    {
        match self {
            Json::List(items) => Some(items),
            _ => None,
        }
    }

    /// The number, where this is an integer from 0 to `u64::MAX`.
    pub fn as_u64(&self) -> (number: Option<u64>)
        ensures
            number == self@.unsigned(),
    {
        match self {
            Json::Number(n) => n.unsigned,
            _ => None,
        }
    }

    /// The number as a double without its fraction, where this is a number.
    pub fn as_truncated(&self) -> (number: Option<u64>)
        ensures
            number == self@.truncated(),
    {
        match self {
            Json::Number(n) => n.truncated,
            _ => None,
        }
    }

    /// The text under a key.
    pub fn text_field(&self, key: &str) -> (text: Option<&str>)
        ensures
            match text {
                Some(t) => self@.text_field(key@) == Some(t@),
                None => self@.text_field(key@) is None,
            },
    {
        match self.get(key) {
            Some(value) => value.as_str(),
            None => None,
        }
    }

    /// The unsigned integer under a key.
    pub fn unsigned_field(&self, key: &str) -> (number: Option<u64>)
        ensures
            number == self@.unsigned_field(key@),
    {
        match self.get(key) {
            Some(value) => value.as_u64(),
            None => None,
        }
    }
}

} // verus!
