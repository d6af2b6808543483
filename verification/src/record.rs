//! Reading one inbound result from a line of JSON.

use crate::models::{
    status_of_token, unknown_status_message, CreateTestResult, CreateTestResultBase, Status,
};
use crate::text::concat3;
use serde_json::Value;
use vstd::prelude::*;

verus! {

/// A parsed JSON document of `serde_json`, as an opaque value.
#[verifier::external_type_specification]
#[verifier::external_body]
pub struct ExJsonValue(serde_json::Value);

/// What a line holds under one field name.
#[derive(Debug)]
pub enum JsonField {
    /// The line has no member of that name.
    Missing,
    /// The member is `null`.
    Null,
    /// The member is a string.
    Text(String),
    /// The member is an integer within `i64`.
    Integer(i64),
    /// The member is anything else.
    Other,
}

/// What a parsed document holds under each member name, where it is an
/// object; no member where it is anything else.
pub uninterp spec fn json_members(value: Value) -> Map<Seq<char>, JsonField>;

/// The members of the document that a text parses to as JSON, or `None`
/// where the text does not parse.
pub uninterp spec fn json_document(text: Seq<char>) -> Option<Map<Seq<char>, JsonField>>;

/// What is found under `key` among the members of a document.
pub open spec fn member_of(members: Map<Seq<char>, JsonField>, key: Seq<char>) -> JsonField {
    if members.contains_key(key) {
        members[key]
    } else {
        JsonField::Missing
    }
}

/// The message with which the parser refuses a text that is no JSON: what
/// it missed or met, with the line and the column.
pub uninterp spec fn json_error_text(text: Seq<char>) -> Seq<char>;

/// Calls `serde_json::from_str` for a `Value`: the parsed document, or the
/// parser's error as its `Display` writes it. Whether a text parses, to what,
/// and with what message it is refused, depends on the text alone; the
/// contract names the members of the document `json_document` and the
/// message `json_error_text`.
#[verifier::external_body]
fn parse_value(text: &str) -> (r: Result<Value, String>)
    ensures
        match r {
            Ok(value) => json_document(text@) == Some(json_members(value)),
            Err(message) => json_document(text@) is None && message@ == json_error_text(text@),
        },
{
    match serde_json::from_str::<Value>(text) {
        Ok(value) => Ok(value),
        Err(error) => Err(error.to_string()),
    }
}

/// Calls `Value::get` with a key and tells the variants of what it finds
/// apart, with `Number::as_i64` for a number: the member of that name among
/// the document's members, and `Missing` where there is none.
#[verifier::external_body]
fn field(value: &Value, key: &str) -> (r: JsonField)
    ensures
        r == member_of(json_members(*value), key@),
{
    match value.get(key) {
        None => JsonField::Missing,
        Some(Value::Null) => JsonField::Null,
        Some(Value::String(text)) => JsonField::Text(text.clone()),
        Some(Value::Number(number)) => match number.as_i64() {
            Some(integer) => JsonField::Integer(integer),
            None => JsonField::Other,
        },
        Some(_) => JsonField::Other,
    }
}

/// The members of a line that make up an inbound result, as they were found.
#[derive(Debug)]
pub struct RawRecord {
    pub name: JsonField,
    pub platform: JsonField,
    pub description: JsonField,
    pub status: JsonField,
    pub execution_time: JsonField,
    pub log: JsonField,
    pub screenshot_id: JsonField,
    pub created_by: JsonField,
    pub time_created: JsonField,
}

/// The message for a required field that the line lacks.
pub open spec fn missing_field(name: Seq<char>) -> Seq<char> {
    "missing field `"@ + name + "`"@
}

/// The message for a field that holds a value of another type than text.
pub open spec fn not_a_string(name: Seq<char>) -> Seq<char> {
    "invalid type for field `"@ + name + "`, expected a string"@
}

/// The message for a field that holds a value of another type than an
/// integer.
pub open spec fn not_an_integer(name: Seq<char>) -> Seq<char> {
    "invalid type for field `"@ + name + "`, expected an integer"@
}

/// A required text: present and a string.
pub open spec fn text_of(field: JsonField, name: Seq<char>) -> Result<String, Seq<char>> {
    match field {
        JsonField::Text(s) => Ok(s),
        JsonField::Missing => Err(missing_field(name)),
        _ => Err(not_a_string(name)),
    }
}

/// An optional text: absent, `null`, or a string.
pub open spec fn optional_text_of(field: JsonField, name: Seq<char>) -> Result<
    Option<String>,
    Seq<char>,
> {
    match field {
        JsonField::Text(s) => Ok(Some(s)),
        JsonField::Missing | JsonField::Null => Ok(None),
        _ => Err(not_a_string(name)),
    }
}

/// A required integer: present and an integer.
pub open spec fn integer_of(field: JsonField, name: Seq<char>) -> Result<i64, Seq<char>> {
    match field {
        JsonField::Integer(i) => Ok(i),
        JsonField::Missing => Err(missing_field(name)),
        _ => Err(not_an_integer(name)),
    }
}

/// An optional integer: absent, `null`, or an integer.
pub open spec fn optional_integer_of(field: JsonField, name: Seq<char>) -> Result<
    Option<i64>,
    Seq<char>,
> {
    match field {
        JsonField::Integer(i) => Ok(Some(i)),
        JsonField::Missing | JsonField::Null => Ok(None),
        _ => Err(not_an_integer(name)),
    }
}

/// A status: a required text that is one of the three tokens.
pub open spec fn status_of(field: JsonField) -> Result<Status, Seq<char>> {
    match text_of(field, "status"@) {
        Ok(s) => match status_of_token(s@) {
            Some(status) => Ok(status),
            None => Err(unknown_status_message(s@)),
        },
        Err(e) => Err(e),
    }
}

/// Why `raw` is no inbound result: the complaint about the first field, in
/// the order of the record's fields, that is missing or of the wrong type or
/// holds no status. `None` where every field is in order.
pub open spec fn record_error(raw: RawRecord) -> Option<Seq<char>> {
    if text_of(raw.name, "name"@) is Err {
        Some(text_of(raw.name, "name"@)->Err_0)
    } else if text_of(raw.platform, "platform"@) is Err {
        Some(text_of(raw.platform, "platform"@)->Err_0)
    } else if optional_text_of(raw.description, "description"@) is Err {
        Some(optional_text_of(raw.description, "description"@)->Err_0)
    } else if status_of(raw.status) is Err {
        Some(status_of(raw.status)->Err_0)
    } else if optional_integer_of(raw.execution_time, "execution_time"@) is Err {
        Some(optional_integer_of(raw.execution_time, "execution_time"@)->Err_0)
    } else if optional_text_of(raw.log, "log"@) is Err {
        Some(optional_text_of(raw.log, "log"@)->Err_0)
    } else if optional_integer_of(raw.screenshot_id, "screenshot_id"@) is Err {
        Some(optional_integer_of(raw.screenshot_id, "screenshot_id"@)->Err_0)
    } else if optional_text_of(raw.created_by, "created_by"@) is Err {
        Some(optional_text_of(raw.created_by, "created_by"@)->Err_0)
    } else if integer_of(raw.time_created, "time_created"@) is Err {
        Some(integer_of(raw.time_created, "time_created"@)->Err_0)
    } else {
        None
    }
}

/// The inbound result that `raw` describes, where `record_error` finds no
/// fault in it.
pub open spec fn record_of(raw: RawRecord) -> CreateTestResultBase {
    CreateTestResultBase {
        name: text_of(raw.name, "name"@)->Ok_0,
        platform: text_of(raw.platform, "platform"@)->Ok_0,
        description: optional_text_of(raw.description, "description"@)->Ok_0,
        status: status_of(raw.status)->Ok_0,
        execution_time: optional_integer_of(raw.execution_time, "execution_time"@)->Ok_0,
        log: optional_text_of(raw.log, "log"@)->Ok_0,
        screenshot_id: optional_integer_of(raw.screenshot_id, "screenshot_id"@)->Ok_0,
        created_by: optional_text_of(raw.created_by, "created_by"@)->Ok_0,
        time_created: integer_of(raw.time_created, "time_created"@)->Ok_0,
    }
}

/// A required text, or the complaint about it.
fn take_text(field: JsonField, name: &str) -> (r: Result<String, String>)
    ensures
        match r {
            Ok(s) => text_of(field, name@) == Ok::<String, Seq<char>>(s),
            Err(e) => text_of(field, name@) == Err::<String, Seq<char>>(e@),
        },
{
    match field {
        JsonField::Text(s) => Ok(s),
        JsonField::Missing => Err(concat3("missing field `", name, "`")),
        _ => Err(concat3("invalid type for field `", name, "`, expected a string")),
    }
}

/// An optional text, or the complaint about it.
fn take_optional_text(field: JsonField, name: &str) -> (r: Result<Option<String>, String>)
    ensures
        match r {
            Ok(s) => optional_text_of(field, name@) == Ok::<Option<String>, Seq<char>>(s),
            Err(e) => optional_text_of(field, name@) == Err::<Option<String>, Seq<char>>(e@),
        },
{
    match field {
        JsonField::Text(s) => Ok(Some(s)),
        JsonField::Missing => Ok(None),
        JsonField::Null => Ok(None),
        _ => Err(concat3("invalid type for field `", name, "`, expected a string")),
    }
}

/// A required integer, or the complaint about it.
fn take_integer(field: JsonField, name: &str) -> (r: Result<i64, String>)
    ensures
        match r {
            Ok(i) => integer_of(field, name@) == Ok::<i64, Seq<char>>(i),
            Err(e) => integer_of(field, name@) == Err::<i64, Seq<char>>(e@),
        },
{
    match field {
        JsonField::Integer(i) => Ok(i),
        JsonField::Missing => Err(concat3("missing field `", name, "`")),
        _ => Err(concat3("invalid type for field `", name, "`, expected an integer")),
    }
}

/// An optional integer, or the complaint about it.
fn take_optional_integer(field: JsonField, name: &str) -> (r: Result<Option<i64>, String>)
    ensures
        match r {
            Ok(i) => optional_integer_of(field, name@) == Ok::<Option<i64>, Seq<char>>(i),
            Err(e) => optional_integer_of(field, name@) == Err::<Option<i64>, Seq<char>>(e@),
        },
{
    match field {
        JsonField::Integer(i) => Ok(Some(i)),
        JsonField::Missing => Ok(None),
        JsonField::Null => Ok(None),
        _ => Err(concat3("invalid type for field `", name, "`, expected an integer")),
    }
}

/// A status, or the complaint about what stands in its place.
fn take_status(field: JsonField) -> (r: Result<Status, String>)
    ensures
        match r {
            Ok(s) => status_of(field) == Ok::<Status, Seq<char>>(s),
            Err(e) => status_of(field) == Err::<Status, Seq<char>>(e@),
        },
{
    match take_text(field, "status") {
        Ok(token) => Status::value_of(token.as_str()),
        Err(e) => Err(e),
    }
}

impl CreateTestResultBase {
    /// Builds an inbound result from the members found in a line. Every
    /// required field must be there, every field of its type, and the status
    /// one of `P`, `F`, `I`: otherwise the first fault is reported.
    pub fn from_fields(raw: RawRecord) -> (r: Result<CreateTestResultBase, String>)
        ensures
            match r {
                Ok(base) => record_error(raw) is None && base == record_of(raw),
                Err(e) => record_error(raw) == Some(e@),
            },
    {
        let name = match take_text(raw.name, "name") {
            Ok(v) => v,
            Err(e) => {
                return Err(e);
            },
        };
        let platform = match take_text(raw.platform, "platform") {
            Ok(v) => v,
            Err(e) => {
                return Err(e);
            },
        };
        let description = match take_optional_text(raw.description, "description") {
            Ok(v) => v,
            Err(e) => {
                return Err(e);
            },
        };
        let status = match take_status(raw.status) {
            Ok(v) => v,
            Err(e) => {
                return Err(e);
            },
        };
        let execution_time = match take_optional_integer(raw.execution_time, "execution_time") {
            Ok(v) => v,
            Err(e) => {
                return Err(e);
            },
        };
        let log = match take_optional_text(raw.log, "log") {
            Ok(v) => v,
            Err(e) => {
                return Err(e);
            },
        };
        let screenshot_id = match take_optional_integer(raw.screenshot_id, "screenshot_id") {
            Ok(v) => v,
            Err(e) => {
                return Err(e);
            },
        };
        let created_by = match take_optional_text(raw.created_by, "created_by") {
            Ok(v) => v,
            Err(e) => {
                return Err(e);
            },
        };
        let time_created = match take_integer(raw.time_created, "time_created") {
            Ok(v) => v,
            Err(e) => {
                return Err(e);
            },
        };
        Ok(
            CreateTestResultBase {
                name,
                platform,
                description,
                status,
                execution_time,
                log,
                screenshot_id,
                created_by,
                time_created,
            },
        )
    }
}

/// The members of a document that make up an inbound result.
pub open spec fn raw_record(members: Map<Seq<char>, JsonField>) -> RawRecord {
    RawRecord {
        name: member_of(members, "name"@),
        platform: member_of(members, "platform"@),
        description: member_of(members, "description"@),
        status: member_of(members, "status"@),
        execution_time: member_of(members, "execution_time"@),
        log: member_of(members, "log"@),
        screenshot_id: member_of(members, "screenshot_id"@),
        created_by: member_of(members, "created_by"@),
        time_created: member_of(members, "time_created"@),
    }
}

/// The members of a line that make up an inbound result, or `None` where the
/// line is no JSON.
pub open spec fn line_record(line: Seq<char>) -> Option<RawRecord> {
    match json_document(line) {
        Some(members) => Some(raw_record(members)),
        None => None,
    }
}

/// Whether `outcome` is what reading `line` for the execution `execution_id`
/// gives: the payload that the line describes, with that execution; or the
/// first fault of the record; or, for a line that is no JSON, the parser's
/// message.
pub open spec fn reads_as(
    line: Seq<char>,
    execution_id: i64,
    outcome: Result<CreateTestResult, String>,
) -> bool {
    match outcome {
        Ok(payload) => {
            &&& line_record(line) matches Some(raw) && record_error(raw) is None && payload.base
                == record_of(raw)
            &&& payload.execution_id == execution_id
        },
        Err(e) => match line_record(line) {
            Some(raw) => record_error(raw) == Some(e@),
            None => e@ == json_error_text(line),
        },
    }
}

impl CreateTestResult {
    /// The inbound result without its execution.
    pub fn base(&self) -> (r: &CreateTestResultBase)
        ensures
            *r == self.base,
    {
        &self.base
    }

    /// Reads one line of JSON as an inbound result for the execution
    /// `execution_id`. The line must parse and describe a result; the error
    /// says what is wrong with it.
    pub fn from_json(json: &str, execution_id: i64) -> (r: Result<CreateTestResult, String>)
        ensures
            reads_as(json@, execution_id, r),
    {
        let value = match parse_value(json) {
            Ok(v) => v,
            Err(message) => {
                return Err(message);
            },
        };
        let raw = RawRecord {
            name: field(&value, "name"),
            platform: field(&value, "platform"),
            description: field(&value, "description"),
            status: field(&value, "status"),
            execution_time: field(&value, "execution_time"),
            log: field(&value, "log"),
            screenshot_id: field(&value, "screenshot_id"),
            created_by: field(&value, "created_by"),
            time_created: field(&value, "time_created"),
        };
        match CreateTestResultBase::from_fields(raw) {
            Ok(base) => Ok(CreateTestResult { execution_id, base }),
            Err(e) => Err(e),
        }
    }
}

/// Whether what stands under `status` is one of the three tokens.
pub open spec fn known_status(field: JsonField) -> bool {
    match field {
        JsonField::Text(token) => status_of_token(token@) is Some,
        _ => false,
    }
}

/// Status closure: a record is accepted only with a status that is one of the
/// three tokens, and then with that status. Whatever else stands under
/// `status`, or nothing, is refused.
pub proof fn lemma_accepted_status_is_known(raw: RawRecord)
    ensures
        record_error(raw) is None ==> known_status(raw.status),
        record_error(raw) is None ==> status_of_token(raw.status->Text_0@) == Some(
            record_of(raw).status,
        ),
        !known_status(raw.status) ==> record_error(raw) is Some,
{
}

} // verus!
