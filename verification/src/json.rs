//! JSON documents, as the `serde_json` crate writes and reads them.

use vstd::prelude::*;

use crate::text;

verus! {

/// A value in a JSON object.
#[derive(Debug)]
pub enum JsonValue {
    Text(String),
    Number(u64),
    Flag(bool),
}

/// What a value in a JSON object is.
#[verifier::ext_equal]
pub enum ValueView {
    Text(Seq<char>),
    Number(nat),
    Flag(bool),
}

/// A member of a JSON object.
#[derive(Debug)]
pub struct JsonField {
    pub name: String,
    pub value: JsonValue,
}

impl View for JsonField {
    type V = (Seq<char>, ValueView);

    open spec fn view(&self) -> (Seq<char>, ValueView) {
        (
            self.name@,
            match self.value {
                JsonValue::Text(s) => ValueView::Text(s@),
                JsonValue::Number(n) => ValueView::Number(n as nat),
                JsonValue::Flag(b) => ValueView::Flag(b),
            },
        )
    }
}

/// What the members of a JSON object are.
pub open spec fn fields_view(fields: Seq<JsonField>) -> Seq<(Seq<char>, ValueView)> {
    fields.map_values(|f: JsonField| f@)
}

/// Whether an object says that `name` is `value`, and nothing else of it.
pub open spec fn says(
    fields: Seq<(Seq<char>, ValueView)>,
    name: Seq<char>,
    value: ValueView,
) -> bool {
    &&& exists|i: int| 0 <= i < fields.len() && (#[trigger] fields[i]) == (name, value)
    &&& forall|i: int|
        0 <= i < fields.len() && (#[trigger] fields[i]).0 == name ==> fields[i].1 == value
}

/// A member that is text.
pub fn text_field(name: &str, value: &str) -> (f: JsonField)
    ensures
        f@ == (name@, ValueView::Text(value@)),
{
    JsonField { name: name.to_owned(), value: JsonValue::Text(value.to_owned()) }
}

/// A member that is a number.
pub fn number_field(name: &str, value: u64) -> (f: JsonField)
    ensures
        f@ == (name@, ValueView::Number(value as nat)),
{
    JsonField { name: name.to_owned(), value: JsonValue::Number(value) }
}

/// A member that is true or false.
pub fn flag_field(name: &str, value: bool) -> (f: JsonField)
    ensures
        f@ == (name@, ValueView::Flag(value)),
{
    JsonField { name: name.to_owned(), value: JsonValue::Flag(value) }
}

/// The document that `serde_json` writes for an object with the given members.
pub uninterp spec fn object_text(fields: Seq<(Seq<char>, ValueView)>) -> Seq<char>;

/// Calls `serde_json::Value::to_string` on an object of the given members. The
/// document depends on the members alone.
#[verifier::external_body]
pub(crate) fn object_string(fields: &[JsonField]) -> (s: String)
    ensures
        s@ == object_text(fields_view(fields@)),
{
    let map: serde_json::Map<String, serde_json::Value> = fields.iter().map(
        |f| (f.name.clone(), match &f.value {
            JsonValue::Text(s) => serde_json::Value::from(s.as_str()),
            JsonValue::Number(n) => serde_json::Value::from(*n),
            JsonValue::Flag(b) => serde_json::Value::from(*b),
        }),
    ).collect();
    serde_json::Value::Object(map).to_string()
}

/// What `serde_json` reads from a document: the text of the member `key`, if
/// the document is an object that has one; the reason if it is no document.
pub uninterp spec fn member_text(document: Seq<char>, key: Seq<char>) -> Result<
    Option<Seq<char>>,
    Seq<char>,
>;

/// Calls `serde_json::from_str` and looks a text member up. Both depend on the
/// document and the key alone.
#[verifier::external_body]
pub(crate) fn text_member(document: &str, key: &str) -> (r: Result<Option<String>, String>)
    ensures
        match r {
            Ok(found) => member_text(document@, key@) == Ok::<Option<Seq<char>>, Seq<char>>(
                text::opt_view(found),
            ),
            Err(why) => member_text(document@, key@) == Err::<Option<Seq<char>>, Seq<char>>(why@),
        },
{
    let value: serde_json::Value = serde_json::from_str(document).map_err(|e| e.to_string())?;
    Ok(value.get(key).and_then(|v| v.as_str()).map(|s| s.to_owned()))
}

} // verus!
