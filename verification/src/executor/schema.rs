//! JSON Schema checks of a step's input and output, and the JSON reads behind
//! the `field:` matcher of `on_result`.
use vstd::prelude::*;
use vstd::string::*;

use crate::error::{opt_view, AilError, ErrorKind};
use crate::executor::turn::TurnEntry;
use crate::session::{last_response_of, Session};

verus! {

/// Whether `serde_json::from_str` reads `text` as a JSON document.
pub uninterp spec fn json_text_parses(text: Seq<char>) -> bool;

/// Calls `serde_json::from_str` on `text`: the document, or the parser's
/// message. Which texts are JSON is named, not stated: JSON is `serde_json`'s
/// to define.
#[verifier::external_body]
pub(crate) fn parse_json_document(text: &str) -> (r: Result<serde_json::Value, String>)
    ensures
        r is Ok <==> json_text_parses(text@),
{
    match serde_json::from_str::<serde_json::Value>(text) {
        Ok(v) => Ok(v),
        Err(e) => Err(e.to_string()),
    }
}

/// The message of `jsonschema` when the JSON text `schema` is not JSON or
/// does not compile as a JSON Schema, `None` when it compiles.
pub uninterp spec fn schema_compile_failure(schema: Seq<char>) -> Option<Seq<char>>;

/// Calls `serde_json::from_str` on `schema` and `jsonschema::validator_for`
/// on the document: the message of a failure, or `None`. Which schemas
/// compile is named, not stated: JSON Schema is the outside crate's to
/// define.
#[verifier::external_body]
pub(crate) fn schema_compile_message(schema: &str) -> (r: Option<String>)
    ensures
        opt_view(r) == schema_compile_failure(schema@),
{
    let s: serde_json::Value = match serde_json::from_str(schema) {
        Ok(v) => v,
        Err(e) => return Some(e.to_string()),
    };
    match jsonschema::validator_for(&s) {
        Ok(_) => None,
        Err(e) => Some(e.to_string()),
    }
}

/// What `jsonschema` says of the JSON text `instance` checked against the
/// JSON Schema whose text is `schema`: `Err` with a message when either text
/// is not JSON or the schema does not compile, `Ok(None)` when the instance
/// satisfies the schema, `Ok(Some(m))` with the message of the first
/// violation otherwise.
pub uninterp spec fn schema_verdict(schema: Seq<char>, instance: Seq<char>) -> Result<Option<Seq<char>>, Seq<char>>;

pub open spec fn verdict_view(r: Result<Option<String>, String>) -> Result<Option<Seq<char>>, Seq<char>> {
    match r {
        Err(m) => Err(m@),
        Ok(None) => Ok(None),
        Ok(Some(m)) => Ok(Some(m@)),
    }
}

/// Calls `serde_json::from_str` on both texts, `jsonschema::validator_for`
/// on the schema and `Validator::validate` on the instance, each failure
/// given by its message. What they answer is named, not stated: JSON and
/// JSON Schema are the outside crates' to define.
#[verifier::external_body]
fn check_against_schema(schema: &str, instance: &str) -> (r: Result<Option<String>, String>)
    ensures
        verdict_view(r) == schema_verdict(schema@, instance@),
{
    let s: serde_json::Value = serde_json::from_str(schema).map_err(|e| e.to_string())?;
    let i: serde_json::Value = serde_json::from_str(instance).map_err(|e| e.to_string())?;
    let v = jsonschema::validator_for(&s).map_err(|e| e.to_string())?;
    Ok(v.validate(&i).err().map(|e| e.to_string()))
}

/// Calls `Value::get` with a member name: a copy of that member when `doc`
/// is a JSON object that has it, else `None`. Nothing is stated of the
/// answer: Verus sees nothing inside a JSON value.
#[verifier::external_body]
pub(crate) fn json_member(doc: &serde_json::Value, name: &str) -> (r: Option<serde_json::Value>) {
    doc.get(name).cloned()
}

/// Calls `Value::as_array`: a copy of the elements when `doc` is a JSON
/// array, else `None`. Nothing is stated of the answer: Verus sees nothing
/// inside a JSON value.
#[verifier::external_body]
pub(crate) fn json_array_elements(doc: &serde_json::Value) -> (r: Option<Vec<serde_json::Value>>) {
    doc.as_array().cloned()
}

/// Calls `Value::as_str`: the text when `v` is a JSON string, else `None`.
/// Nothing is stated of the answer: Verus sees nothing inside a JSON value.
#[verifier::external_body]
pub(crate) fn json_text(v: &serde_json::Value) -> (r: Option<String>) {
    v.as_str().map(|t| t.to_string())
}

/// An element of a JSON array, as `serde_json` read it: a JSON string's text,
/// or any other JSON value.
pub enum JsonItem {
    Text(String),
    Other(serde_json::Value),
}

/// What `serde_json::from_str` reads in `text`, as far as a `for_each`
/// source needs it: `Err` with the parser's message when it is not JSON,
/// `Ok(None)` when it is JSON but not an array, else per element its text
/// when the element is a JSON string and `None` otherwise.
pub uninterp spec fn json_array_shape(text: Seq<char>) -> Result<Option<Seq<Option<Seq<char>>>>, Seq<char>>;

/// The shape of a JSON item: its text for a JSON string, `None` otherwise.
pub open spec fn item_shape(i: JsonItem) -> Option<Seq<char>> {
    match i {
        JsonItem::Text(t) => Some(t@),
        JsonItem::Other(_) => None,
    }
}

/// The shape of a parsed array source.
pub open spec fn array_shape_view(r: Result<Option<Vec<JsonItem>>, String>) -> Result<Option<Seq<Option<Seq<char>>>>, Seq<char>> {
    match r {
        Err(m) => Err(m@),
        Ok(None) => Ok(None),
        Ok(Some(v)) => Ok(Some(v@.map_values(|i: JsonItem| item_shape(i)))),
    }
}

/// Calls `serde_json::from_str` on `text` and, for an array, hands out its
/// elements, a JSON string as its text and any other element as the value.
/// What the text holds is named, not stated: JSON is `serde_json`'s to
/// define.
#[verifier::external_body]
pub(crate) fn parse_json_array(text: &str) -> (r: Result<Option<Vec<JsonItem>>, String>)
    ensures
        array_shape_view(r) == json_array_shape(text@),
{
    match serde_json::from_str::<serde_json::Value>(text) {
        Err(e) => Err(e.to_string()),
        Ok(serde_json::Value::Array(a)) => Ok(Some(a.into_iter().map(|x| match x {
            serde_json::Value::String(t) => JsonItem::Text(t),
            other => JsonItem::Other(other),
        }).collect())),
        Ok(_) => Ok(None),
    }
}

/// Calls `Value::to_string` (`Display`): the JSON text of `v`. Nothing is
/// stated of the text: Verus sees nothing inside a JSON value.
#[verifier::external_body]
pub(crate) fn json_to_text(v: &serde_json::Value) -> (r: String) {
    v.to_string()
}

/// The JSON text of the object whose members are the JSON texts `texts`
/// read as JSON, under the keys `keys` in order (a later key replaces an
/// earlier equal one), as `serde_json` writes it.
pub uninterp spec fn json_object_text(keys: Seq<Seq<char>>, texts: Seq<Seq<char>>) -> Seq<char>;

/// Calls `serde_json::Map::new`, then per key `serde_json::from_str` on its
/// text and `Map::insert`, and writes the object with `Value::to_string`.
/// The text is named, not stated: JSON is `serde_json`'s to write.
#[verifier::external_body]
pub(crate) fn json_object_of_texts(keys: &Vec<&str>, texts: &Vec<String>) -> (r: String)
    requires
        keys@.len() == texts@.len(),
        forall|k: int| 0 <= k < texts@.len() ==> json_text_parses((#[trigger] texts@[k])@),
    ensures
        r@ == json_object_text(keys@.map_values(|k: &str| k@), crate::text::views(texts@)),
{
    let mut m = serde_json::Map::new();
    for (k, t) in keys.iter().zip(texts.iter()) {
        if let Ok(v) = serde_json::from_str::<serde_json::Value>(t) {
            m.insert(k.to_string(), v);
        }
    }
    serde_json::Value::Object(m).to_string()
}

/// The text of each array element: a JSON string as it is, any other
/// element as its JSON text.
pub fn item_texts(items: Vec<JsonItem>) -> (r: Vec<String>)
    ensures
        r@.len() == items@.len(),
        forall|k: int| 0 <= k < items@.len() ==> (#[trigger] items@[k] matches JsonItem::Text(t) ==> r@[k]@ == t@),
{
    let mut out: Vec<String> = Vec::new();
    let mut k: usize = 0;
    while k < items.len()
        invariant
            k <= items@.len(),
            out@.len() == k,
            forall|j: int| 0 <= j < k ==> (#[trigger] items@[j] matches JsonItem::Text(t) ==> out@[j]@ == t@),
        decreases items@.len() - k,
    {
        let t = match &items[k] {
            JsonItem::Text(t) => t.clone(),
            JsonItem::Other(v) => json_to_text(v),
        };
        out.push(t);
        k += 1;
    }
    out
}

/// The text an output schema is checked against: the entry's response, or
/// the empty text.
pub open spec fn response_text(e: TurnEntry) -> Seq<char> {
    match e.response {
        Some(r) => r@,
        None => Seq::empty(),
    }
}

/// The text an input schema is checked against: the most recent response
/// of the session, or the empty text.
pub open spec fn input_text(s: Session) -> Seq<char> {
    match last_response_of(s.turn_log@) {
        Some(t) => t,
        None => Seq::empty(),
    }
}

fn schema_error(step_id: &str, head: &str, tail: &str, cause: &str) -> (e: AilError)
    ensures
        e.is_fresh(ErrorKind::PipelineAborted, head@ + step_id@ + tail@ + cause@),
{
    let mut d = String::from_str(head);
    d.append(step_id);
    d.append(tail);
    d.append(cause);
    AilError::pipeline_aborted(d.as_str())
}

/// `instance` is JSON and satisfies the schema whose text is `schema`.
pub open spec fn schema_accepts(schema: Seq<char>, instance: Seq<char>) -> bool {
    json_text_parses(instance) && schema_verdict(schema, instance) == Ok::<Option<Seq<char>>, Seq<char>>(None)
}

/// Checks the entry's response against the step's `output_schema`, given as
/// JSON text: the response must be JSON, the schema must compile, and the
/// document must satisfy it. A failure is a step error (`PipelineAborted`).
pub fn validate_output_schema(entry: &TurnEntry, schema: &str, step_id: &str) -> (r: Result<(), AilError>)
    ensures
        r is Ok <==> schema_accepts(schema@, response_text(*entry)),
        r matches Err(e) ==> e.kind() == ErrorKind::PipelineAborted,
        json_text_parses(response_text(*entry)) ==> match schema_verdict(schema@, response_text(*entry)) {
            Err(m) => r matches Err(e) && e.detail_view() == "Step '"@ + step_id@
                + "' output_schema failed to compile as JSON Schema: "@ + m,
            Ok(Some(m)) => r matches Err(e) && e.detail_view() == "Step '"@ + step_id@
                + "' output failed output_schema validation: "@ + m,
            Ok(None) => r is Ok,
        },
{
    proof {
        reveal_strlit("");
    }
    let text: &str = match &entry.response {
        Some(t) => t.as_str(),
        None => "",
    };
    assert(text@ =~= response_text(*entry));
    match parse_json_document(text) {
        Ok(_) => {},
        Err(m) => {
            return Err(schema_error(step_id, "Step '", "' declares output_schema but the response is not valid JSON: ", m.as_str()));
        },
    }
    match check_against_schema(schema, text) {
        Err(m) => Err(schema_error(step_id, "Step '", "' output_schema failed to compile as JSON Schema: ", m.as_str())),
        Ok(Some(m)) => Err(schema_error(step_id, "Step '", "' output failed output_schema validation: ", m.as_str())),
        Ok(None) => Ok(()),
    }
}

/// Checks the session's most recent response against the step's
/// `input_schema`, given as JSON text, and gives back the text it read. A failure is a step error (`PipelineAborted`).
pub fn validate_input_schema(session: &Session, schema: &str, step_id: &str) -> (r: Result<String, AilError>)
    ensures
        r is Ok <==> schema_accepts(schema@, input_text(*session)),
        r matches Ok(t) ==> t@ == input_text(*session),
        r matches Err(e) ==> e.kind() == ErrorKind::PipelineAborted,
        json_text_parses(input_text(*session)) ==> match schema_verdict(schema@, input_text(*session)) {
            Err(m) => r matches Err(e) && e.detail_view() == "Step '"@ + step_id@
                + "' input_schema failed to compile as JSON Schema: "@ + m,
            Ok(Some(m)) => r matches Err(e) && e.detail_view() == "Step '"@ + step_id@
                + "' preceding step output failed input_schema validation: "@ + m,
            Ok(None) => r is Ok,
        },
{
    proof {
        reveal_strlit("");
    }
    let text: &str = match session.turn_log.last_response() {
        Some(t) => t.as_str(),
        None => "",
    };
    assert(text@ =~= input_text(*session));
    match parse_json_document(text) {
        Ok(_) => {},
        Err(m) => {
            return Err(schema_error(
                step_id,
                "Step '",
                "' declares input_schema but the preceding step's output is not valid JSON: ",
                m.as_str(),
            ));
        },
    }
    match check_against_schema(schema, text) {
        Err(m) => Err(schema_error(step_id, "Step '", "' input_schema failed to compile as JSON Schema: ", m.as_str())),
        Ok(Some(m)) => Err(schema_error(step_id, "Step '", "' preceding step output failed input_schema validation: ", m.as_str())),
        Ok(None) => Ok(String::from_str(text)),
    }
}

/// Checks a join step's merged response against its `output_schema`, given
/// as JSON text: a response that is not JSON, or a schema that does not
/// compile, is a configuration error; a document that does not satisfy the
/// schema is a step error (`PipelineAborted`).
pub fn validate_join_output_schema(response: &str, schema: &str, step_id: &str) -> (r: Result<(), AilError>)
    ensures
        r is Ok <==> schema_accepts(schema@, response@),
        !json_text_parses(response@) ==> (r matches Err(e) && e.kind() == ErrorKind::ConfigValidationFailed),
        json_text_parses(response@) ==> match schema_verdict(schema@, response@) {
            Err(m) => r matches Err(e) && e.is_fresh(
                ErrorKind::ConfigValidationFailed,
                "Join step '"@ + step_id@ + "' output_schema is not a valid JSON Schema: "@ + m,
            ),
            Ok(Some(_)) => r matches Err(e) && e.is_fresh(
                ErrorKind::PipelineAborted,
                "Join step '"@ + step_id@ + "' merged output does not match output_schema"@,
            ),
            Ok(None) => r is Ok,
        },
{
    match parse_json_document(response) {
        Ok(_) => {},
        Err(m) => {
            let mut d = String::from_str("Join step '");
            d.append(step_id);
            d.append("' output is not valid JSON: ");
            d.append(m.as_str());
            return Err(AilError::config_validation(d.as_str()));
        },
    }
    match check_against_schema(schema, response) {
        Err(m) => {
            let mut d = String::from_str("Join step '");
            d.append(step_id);
            d.append("' output_schema is not a valid JSON Schema: ");
            d.append(m.as_str());
            Err(AilError::config_validation(d.as_str()))
        },
        Ok(Some(_)) => {
            let mut d = String::from_str("Join step '");
            d.append(step_id);
            d.append("' merged output does not match output_schema");
            Err(AilError::pipeline_aborted(d.as_str()))
        },
        Ok(None) => Ok(()),
    }
}

/// Whether the JSON text `doc` is an object whose member `name` equals the
/// JSON text `expected` read as JSON; `false` when either text is not JSON.
pub uninterp spec fn json_member_equals(doc: Seq<char>, name: Seq<char>, expected: Seq<char>) -> bool;

/// Calls `serde_json::from_str` on both texts, `Value::get` with `name` on
/// the document and `==` (`serde_json`'s `PartialEq`) on the member and the
/// expected value; a text that is not JSON gives `false`. The answer is
/// named, not stated: JSON is `serde_json`'s to define.
#[verifier::external_body]
fn member_equals(doc: &str, name: &str, expected: &str) -> (r: bool)
    ensures
        r == json_member_equals(doc@, name@, expected@),
{
    let d: serde_json::Value = match serde_json::from_str(doc) {
        Ok(v) => v,
        Err(_) => return false,
    };
    let e: serde_json::Value = match serde_json::from_str(expected) {
        Ok(v) => v,
        Err(_) => return false,
    };
    d.get(name) == Some(&e)
}

/// Whether the validated input (the JSON text the `input_schema` check
/// read) has a member `name` equal to `expected` (JSON text); no validated
/// input matches nothing.
pub fn field_matches(validated_input: Option<&str>, name: &str, expected: &str) -> (r: bool)
    ensures
        r == (validated_input matches Some(t) && json_member_equals(t@, name@, expected@)),
{
    match validated_input {
        None => false,
        Some(doc) => member_equals(doc, name, expected),
    }
}

} // verus!
