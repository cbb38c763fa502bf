//! The response schema of the completion API, and the structural matching that
//! reads a JSON document into it.
//!
//! The wire format tags nothing: a choice is told apart by the members it
//! holds. Matching is strict: a member that the schema requires must be
//! present with the right type, and an optional member, when present and not
//! null, must have the right type too. The three shapes of a choice are tried
//! in a fixed order (plain, full message, delta) and the first match wins.
use vstd::prelude::*;
use crate::json::{
    JsonTree, member, json_tree, field,
};

verus! {

/// The view of an optional string.
pub open spec fn opt_view(o: Option<String>) -> Option<Seq<char>> {
    match o {
        Some(s) => Some(s@),
        None => None,
    }
}

/// An optional string member: `Some(None)` when absent or null, `Some(Some(s))`
/// for a string, `None` (no match) for any other value.
pub open spec fn optional_text(t: JsonTree, key: Seq<char>) -> Option<Option<Seq<char>>> {
    match member(t, key) {
        None => Some(None),
        Some(JsonTree::Null) => Some(None),
        Some(JsonTree::Str(s)) => Some(Some(s)),
        _ => None,
    }
}

/// A required string member.
pub open spec fn required_text(t: JsonTree, key: Seq<char>) -> Option<Seq<char>> {
    match member(t, key) {
        Some(JsonTree::Str(s)) => Some(s),
        _ => None,
    }
}

/// A required member holding an unsigned 64-bit integer.
pub open spec fn required_u64(t: JsonTree, key: Seq<char>) -> Option<u64> {
    match member(t, key) {
        Some(JsonTree::Int(i)) => if 0 <= i <= u64::MAX {
            Some(i as u64)
        } else {
            None
        },
        _ => None,
    }
}

/// The body of an error reported by the provider.
pub struct ErrorBodyModel {
    pub code: i32,
    pub message: Seq<char>,
    pub metadata: Option<JsonTree>,
}

/// `{code, message, metadata?}`, with `code` a 32-bit signed integer.
pub open spec fn error_body_of(t: JsonTree) -> Option<ErrorBodyModel> {
    match member(t, "code"@) {
        Some(JsonTree::Int(c)) => if i32::MIN <= c <= i32::MAX && required_text(t, "message"@) is Some {
            Some(
                ErrorBodyModel {
                    code: c as i32,
                    message: required_text(t, "message"@)->Some_0,
                    metadata: match member(t, "metadata"@) {
                        None => None,
                        Some(JsonTree::Null) => None,
                        Some(m) => Some(m),
                    },
                },
            )
        } else {
            None
        },
        _ => None,
    }
}

/// An optional member that, when present and not null, is an error body.
pub open spec fn optional_error_ok(t: JsonTree, key: Seq<char>) -> bool {
    match member(t, key) {
        None => true,
        Some(JsonTree::Null) => true,
        Some(e) => error_body_of(e) is Some,
    }
}

/// `{id, type, function: {name, arguments}}`; `arguments` may be any value.
pub open spec fn is_tool_call(t: JsonTree) -> bool {
    &&& required_text(t, "id"@) is Some
    &&& required_text(t, "type"@) is Some
    &&& match member(t, "function"@) {
        Some(f) => required_text(f, "name"@) is Some && member(f, "arguments"@) is Some,
        None => false,
    }
}

/// An optional member that, when present and not null, is a list of tool calls.
pub open spec fn tool_calls_ok(t: JsonTree, key: Seq<char>) -> bool {
    match member(t, key) {
        None => true,
        Some(JsonTree::Null) => true,
        Some(JsonTree::Array(items)) => all_tool_calls(items),
        _ => false,
    }
}

pub open spec fn all_tool_calls(items: Seq<JsonTree>) -> bool {
    forall|i: int| 0 <= i < items.len() ==> is_tool_call(#[trigger] items[i])
}

/// A full message `{content?, role, tool_calls?}`: its content and role.
pub open spec fn message_of(t: JsonTree) -> Option<(Option<Seq<char>>, Seq<char>)> {
    if t is Object && optional_text(t, "content"@) is Some && required_text(t, "role"@) is Some
        && tool_calls_ok(t, "tool_calls"@) {
        Some((optional_text(t, "content"@)->Some_0, required_text(t, "role"@)->Some_0))
    } else {
        None
    }
}

/// A partial message `{content?, role?, tool_calls?}`: its content and role.
pub open spec fn delta_of(t: JsonTree) -> Option<(Option<Seq<char>>, Option<Seq<char>>)> {
    if t is Object && optional_text(t, "content"@) is Some && optional_text(t, "role"@) is Some
        && tool_calls_ok(t, "tool_calls"@) {
        Some((optional_text(t, "content"@)->Some_0, optional_text(t, "role"@)->Some_0))
    } else {
        None
    }
}

/// One candidate completion, in the shape that matched.
#[allow(inconsistent_fields)]
pub enum ChoiceModel {
    Plain { finish_reason: Option<Seq<char>>, text: Seq<char> },
    Message { finish_reason: Option<Seq<char>>, content: Option<Seq<char>>, role: Seq<char> },
    Delta { finish_reason: Option<Seq<char>>, content: Option<Seq<char>>, role: Option<Seq<char>> },
}

/// The first of the three choice shapes that `t` matches, tried in the order
/// plain, full message, delta.
pub open spec fn choice_of(t: JsonTree) -> Option<ChoiceModel> {
    if t is Object && optional_text(t, "finish_reason"@) is Some && optional_error_ok(t, "error"@) {
        let finish_reason = optional_text(t, "finish_reason"@)->Some_0;
        if required_text(t, "text"@) is Some {
            Some(ChoiceModel::Plain { finish_reason, text: required_text(t, "text"@)->Some_0 })
        } else if member(t, "message"@) is Some && message_of(member(t, "message"@)->Some_0) is Some {
            let m = message_of(member(t, "message"@)->Some_0)->Some_0;
            Some(ChoiceModel::Message { finish_reason, content: m.0, role: m.1 })
        } else if member(t, "delta"@) is Some && delta_of(member(t, "delta"@)->Some_0) is Some {
            let d = delta_of(member(t, "delta"@)->Some_0)->Some_0;
            Some(ChoiceModel::Delta { finish_reason, content: d.0, role: d.1 })
        } else {
            None
        }
    } else {
        None
    }
}

/// The required list of choices, when every element matches a choice shape.
pub open spec fn choices_of(t: JsonTree, key: Seq<char>) -> Option<Seq<ChoiceModel>> {
    match member(t, key) {
        Some(JsonTree::Array(items)) => if forall|i: int|
            0 <= i < items.len() ==> (#[trigger] choice_of(items[i])) is Some {
            Some(items.map_values(|x: JsonTree| choice_of(x)->Some_0))
        } else {
            None
        },
        _ => None,
    }
}

/// Token accounting of one request.
#[derive(Clone, Copy, Debug, PartialEq, Eq, Structural)]
pub struct Usage {
    pub prompt_tokens: u64,
    pub completion_tokens: u64,
    pub total_tokens: u64,
}

/// `{prompt_tokens, completion_tokens, total_tokens}`.
pub open spec fn usage_of(t: JsonTree) -> Option<Usage> {
    if required_u64(t, "prompt_tokens"@) is Some && required_u64(t, "completion_tokens"@) is Some
        && required_u64(t, "total_tokens"@) is Some {
        Some(
            Usage {
                prompt_tokens: required_u64(t, "prompt_tokens"@)->Some_0,
                completion_tokens: required_u64(t, "completion_tokens"@)->Some_0,
                total_tokens: required_u64(t, "total_tokens"@)->Some_0,
            },
        )
    } else {
        None
    }
}

/// An optional usage member: `Some(None)` when absent or null.
pub open spec fn optional_usage(t: JsonTree, key: Seq<char>) -> Option<Option<Usage>> {
    match member(t, key) {
        None => Some(None),
        Some(JsonTree::Null) => Some(None),
        Some(u) => match usage_of(u) {
            Some(x) => Some(Some(x)),
            None => None,
        },
    }
}

/// A successfully decoded response document.
pub struct ResponseModel {
    pub id: Option<Seq<char>>,
    pub provider: Option<Seq<char>>,
    pub model: Seq<char>,
    pub object: Seq<char>,
    pub created: u64,
    pub choices: Seq<ChoiceModel>,
    pub system_fingerprint: Option<Seq<char>>,
    pub usage: Option<Usage>,
}

/// The response that `t` holds, when it matches the response schema.
pub open spec fn response_of(t: JsonTree) -> Option<ResponseModel> {
    if optional_text(t, "id"@) is Some && optional_text(t, "provider"@) is Some
        && required_text(t, "model"@) is Some && required_text(t, "object"@) is Some
        && required_u64(t, "created"@) is Some && choices_of(t, "choices"@) is Some
        && optional_text(t, "system_fingerprint"@) is Some && optional_usage(t, "usage"@) is Some {
        Some(
            ResponseModel {
                id: optional_text(t, "id"@)->Some_0,
                provider: optional_text(t, "provider"@)->Some_0,
                model: required_text(t, "model"@)->Some_0,
                object: required_text(t, "object"@)->Some_0,
                created: required_u64(t, "created"@)->Some_0,
                choices: choices_of(t, "choices"@)->Some_0,
                system_fingerprint: optional_text(t, "system_fingerprint"@)->Some_0,
                usage: optional_usage(t, "usage"@)->Some_0,
            },
        )
    } else {
        None
    }
}

/// The error envelope `{error: {code, message, metadata?}}`.
pub open spec fn envelope_of(t: JsonTree) -> Option<ErrorBodyModel> {
    match member(t, "error"@) {
        Some(e) => error_body_of(e),
        None => None,
    }
}

/// How one document is classified: a response is tried first, the error
/// envelope only when that fails.
pub enum DocumentModel {
    Response(ResponseModel),
    Failure(ErrorBodyModel),
    Unrecognized,
}

pub open spec fn document_of(t: JsonTree) -> DocumentModel {
    match response_of(t) {
        Some(r) => DocumentModel::Response(r),
        None => match envelope_of(t) {
            Some(e) => DocumentModel::Failure(e),
            None => DocumentModel::Unrecognized,
        },
    }
}

/// One candidate completion.
#[allow(inconsistent_fields)]
#[derive(Debug)]
pub enum Choice {
    /// A plain (non-chat) completion.
    Plain { finish_reason: Option<String>, text: String },
    /// A full chat message, as non-streaming chat completions carry.
    Message { finish_reason: Option<String>, content: Option<String>, role: String },
    /// A partial chat message, as streaming chat completions carry.
    Delta { finish_reason: Option<String>, content: Option<String>, role: Option<String> },
}

impl View for Choice {
    type V = ChoiceModel;

    open spec fn view(&self) -> ChoiceModel {
        match self {
            Choice::Plain { finish_reason, text } => ChoiceModel::Plain {
                finish_reason: opt_view(*finish_reason),
                text: text@,
            },
            Choice::Message { finish_reason, content, role } => ChoiceModel::Message {
                finish_reason: opt_view(*finish_reason),
                content: opt_view(*content),
                role: role@,
            },
            Choice::Delta { finish_reason, content, role } => ChoiceModel::Delta {
                finish_reason: opt_view(*finish_reason),
                content: opt_view(*content),
                role: opt_view(*role),
            },
        }
    }
}

/// A decoded response document.
#[derive(Debug)]
pub struct DecodedResponse {
    pub id: Option<String>,
    pub provider: Option<String>,
    pub model: String,
    pub object: String,
    pub created: u64,
    pub choices: Vec<Choice>,
    pub system_fingerprint: Option<String>,
    pub usage: Option<Usage>,
}

impl View for DecodedResponse {
    type V = ResponseModel;

    open spec fn view(&self) -> ResponseModel {
        ResponseModel {
            id: opt_view(self.id),
            provider: opt_view(self.provider),
            model: self.model@,
            object: self.object@,
            created: self.created,
            choices: self.choices@.map_values(|c: Choice| c@),
            system_fingerprint: opt_view(self.system_fingerprint),
            usage: self.usage,
        }
    }
}

/// An error reported by the provider.
#[derive(Debug)]
pub struct ApiErrorBody {
    pub code: i32,
    pub message: String,
    pub metadata: Option<serde_json::Value>,
}

impl View for ApiErrorBody {
    type V = ErrorBodyModel;

    open spec fn view(&self) -> ErrorBodyModel {
        ErrorBodyModel {
            code: self.code,
            message: self.message@,
            metadata: match self.metadata {
                Some(m) => Some(json_tree(m)),
                None => None,
            },
        }
    }
}

/// The classification of one document.
#[derive(Debug)]
pub enum Document {
    Response(DecodedResponse),
    Failure(ApiErrorBody),
    Unrecognized,
}

impl View for Document {
    type V = DocumentModel;

    open spec fn view(&self) -> DocumentModel {
        match self {
            Document::Response(r) => DocumentModel::Response(r@),
            Document::Failure(e) => DocumentModel::Failure(e@),
            Document::Unrecognized => DocumentModel::Unrecognized,
        }
    }
}

pub open spec fn opt_opt_view(o: Option<Option<String>>) -> Option<Option<Seq<char>>> {
    match o {
        Some(x) => Some(opt_view(x)),
        None => None,
    }
}

fn read_optional_text(v: &serde_json::Value, key: &str) -> (r: Option<Option<String>>)
    ensures
        opt_opt_view(r) == optional_text(json_tree(*v), key@),
{
    match field(v, key) {
        None => Some(None),
        Some(x) => {
            if x.is_null() {
                Some(None)
            } else {
                match x.as_str() {
                    Some(s) => Some(Some(s.to_owned())),
                    None => None,
                }
            }
        },
    }
}

fn read_text(v: &serde_json::Value, key: &str) -> (r: Option<String>)
    ensures
        opt_view(r) == required_text(json_tree(*v), key@),
{
    match field(v, key) {
        None => None,
        Some(x) => match x.as_str() {
            Some(s) => Some(s.to_owned()),
            None => None,
        },
    }
}

fn read_u64(v: &serde_json::Value, key: &str) -> (r: Option<u64>)
    ensures
        r == required_u64(json_tree(*v), key@),
{
    match field(v, key) {
        None => None,
        Some(x) => x.as_u64(),
    }
}

fn read_error_body(v: &serde_json::Value) -> (r: Option<ApiErrorBody>)
    ensures
        match r {
            Some(b) => error_body_of(json_tree(*v)) == Some(b@),
            None => error_body_of(json_tree(*v)) is None,
        },
{
    let code = match field(v, "code") {
        None => { return None; },
        Some(x) => match x.as_i64() {
            Some(c) => c,
            None => {
                proof {
                    let t = json_tree(*x);
                    if t is Int {
                        assert(!(i32::MIN <= t->Int_0 <= i32::MAX));
                    }
                }
                return None;
            },
        },
    };
    if code < -2147483648 || code > 2147483647 {
        return None;
    }
    let message = match read_text(v, "message") {
        Some(m) => m,
        None => { return None; },
    };
    let metadata = match field(v, "metadata") {
        None => None,
        Some(m) => if m.is_null() {
            None
        } else {
            Some(m.clone())
        },
    };
    Some(ApiErrorBody { code: code as i32, message, metadata })
}

fn optional_error_is_valid(v: &serde_json::Value, key: &str) -> (r: bool)
    ensures
        r == optional_error_ok(json_tree(*v), key@),
{
    match field(v, key) {
        None => true,
        Some(e) => e.is_null() || read_error_body(e).is_some(),
    }
}

fn is_valid_tool_call(v: &serde_json::Value) -> (r: bool)
    ensures
        r == is_tool_call(json_tree(*v)),
{
    if read_text(v, "id").is_none() || read_text(v, "type").is_none() {
        return false;
    }
    match field(v, "function") {
        None => false,
        Some(f) => read_text(f, "name").is_some() && field(f, "arguments").is_some(),
    }
}

fn tool_calls_are_valid(v: &serde_json::Value, key: &str) -> (r: bool)
    ensures
        r == tool_calls_ok(json_tree(*v), key@),
{
    let x = match field(v, key) {
        None => { return true; },
        Some(x) => x,
    };
    if x.is_null() {
        return true;
    }
    let items = match x.as_array() {
        None => { return false; },
        Some(items) => items,
    };
    let ghost ts = items@.map_values(|y| json_tree(y));
    let mut i: usize = 0;
    while i < items.len()
        invariant
            0 <= i <= items@.len(),
            ts == items@.map_values(|y| json_tree(y)),
            json_tree(*x) == JsonTree::Array(ts),
            member(json_tree(*v), key@) == Some(json_tree(*x)),
            forall|j: int| 0 <= j < i ==> is_tool_call(#[trigger] ts[j]),
        decreases items@.len() - i,
    {
        if !is_valid_tool_call(&items[i]) {
            assert(!is_tool_call(ts[i as int]));
            return false;
        }
        i = i + 1;
    }
    true
}

fn read_message(v: &serde_json::Value) -> (r: Option<(Option<String>, String)>)
    ensures
        match r {
            Some(m) => message_of(json_tree(*v)) == Some((opt_view(m.0), m.1@)),
            None => message_of(json_tree(*v)) is None,
        },
{
    if !v.is_object() {
        return None;
    }
    let content = match read_optional_text(v, "content") {
        Some(c) => c,
        None => { return None; },
    };
    let role = match read_text(v, "role") {
        Some(r) => r,
        None => { return None; },
    };
    if !tool_calls_are_valid(v, "tool_calls") {
        return None;
    }
    Some((content, role))
}

fn read_delta(v: &serde_json::Value) -> (r: Option<(Option<String>, Option<String>)>)
    ensures
        match r {
            Some(d) => delta_of(json_tree(*v)) == Some((opt_view(d.0), opt_view(d.1))),
            None => delta_of(json_tree(*v)) is None,
        },
{
    if !v.is_object() {
        return None;
    }
    let content = match read_optional_text(v, "content") {
        Some(c) => c,
        None => { return None; },
    };
    let role = match read_optional_text(v, "role") {
        Some(r) => r,
        None => { return None; },
    };
    if !tool_calls_are_valid(v, "tool_calls") {
        return None;
    }
    Some((content, role))
}

/// Matches one choice against the three shapes in order.
pub fn read_choice(v: &serde_json::Value) -> (r: Option<Choice>)
    ensures
        match r {
            Some(c) => choice_of(json_tree(*v)) == Some(c@),
            None => choice_of(json_tree(*v)) is None,
        },
{
    if !v.is_object() {
        return None;
    }
    let finish_reason = match read_optional_text(v, "finish_reason") {
        Some(f) => f,
        None => { return None; },
    };
    if !optional_error_is_valid(v, "error") {
        return None;
    }
    if let Some(text) = read_text(v, "text") {
        return Some(Choice::Plain { finish_reason, text });
    }
    if let Some(m) = field(v, "message") {
        if let Some((content, role)) = read_message(m) {
            return Some(Choice::Message { finish_reason, content, role });
        }
    }
    if let Some(d) = field(v, "delta") {
        if let Some((content, role)) = read_delta(d) {
            return Some(Choice::Delta { finish_reason, content, role });
        }
    }
    None
}

fn read_choices(v: &serde_json::Value, key: &str) -> (r: Option<Vec<Choice>>)
    ensures
        match r {
            Some(cs) => choices_of(json_tree(*v), key@) == Some(cs@.map_values(|c: Choice| c@)),
            None => choices_of(json_tree(*v), key@) is None,
        },
{
    let x = match field(v, key) {
        None => { return None; },
        Some(x) => x,
    };
    let items = match x.as_array() {
        None => { return None; },
        Some(items) => items,
    };
    let ghost ts = items@.map_values(|y| json_tree(y));
    let mut out: Vec<Choice> = Vec::new();
    let mut i: usize = 0;
    while i < items.len()
        invariant
            0 <= i <= items@.len(),
            ts == items@.map_values(|y| json_tree(y)),
            json_tree(*x) == JsonTree::Array(ts),
            member(json_tree(*v), key@) == Some(json_tree(*x)),
            out@.len() == i,
            forall|j: int| 0 <= j < i ==> (#[trigger] choice_of(ts[j])) == Some(out@[j]@),
        decreases items@.len() - i,
    {
        match read_choice(&items[i]) {
            Some(c) => { out.push(c); },
            None => {
                assert(choice_of(ts[i as int]) is None);
                return None;
            },
        }
        i = i + 1;
    }
    assert(out@.map_values(|c: Choice| c@) =~= ts.map_values(|y: JsonTree| choice_of(y)->Some_0));
    Some(out)
}

fn read_usage(v: &serde_json::Value, key: &str) -> (r: Option<Option<Usage>>)
    ensures
        r == optional_usage(json_tree(*v), key@),
{
    let u = match field(v, key) {
        None => { return Some(None); },
        Some(u) => u,
    };
    if u.is_null() {
        return Some(None);
    }
    let prompt_tokens = match read_u64(u, "prompt_tokens") {
        Some(n) => n,
        None => { return None; },
    };
    let completion_tokens = match read_u64(u, "completion_tokens") {
        Some(n) => n,
        None => { return None; },
    };
    let total_tokens = match read_u64(u, "total_tokens") {
        Some(n) => n,
        None => { return None; },
    };
    Some(Some(Usage { prompt_tokens, completion_tokens, total_tokens }))
}

/// Reads a document as a response, when it matches the response schema.
pub fn read_response(v: &serde_json::Value) -> (r: Option<DecodedResponse>)
    ensures
        match r {
            Some(d) => response_of(json_tree(*v)) == Some(d@),
            None => response_of(json_tree(*v)) is None,
        },
{
    let id = match read_optional_text(v, "id") {
        Some(x) => x,
        None => { return None; },
    };
    let provider = match read_optional_text(v, "provider") {
        Some(x) => x,
        None => { return None; },
    };
    let model = match read_text(v, "model") {
        Some(x) => x,
        None => { return None; },
    };
    let object = match read_text(v, "object") {
        Some(x) => x,
        None => { return None; },
    };
    let created = match read_u64(v, "created") {
        Some(x) => x,
        None => { return None; },
    };
    let choices = match read_choices(v, "choices") {
        Some(x) => x,
        None => { return None; },
    };
    let system_fingerprint = match read_optional_text(v, "system_fingerprint") {
        Some(x) => x,
        None => { return None; },
    };
    let usage = match read_usage(v, "usage") {
        Some(x) => x,
        None => { return None; },
    };
    Some(DecodedResponse { id, provider, model, object, created, choices, system_fingerprint, usage })
}

/// Classifies a document: a response when it matches the response schema,
/// else a provider error when it matches the error envelope, else neither.
pub fn classify_document(v: &serde_json::Value) -> (r: Document)
    ensures
        r@ == document_of(json_tree(*v)),
{
    if let Some(resp) = read_response(v) {
        return Document::Response(resp);
    }
    match field(v, "error") {
        Some(e) => match read_error_body(e) {
            Some(b) => Document::Failure(b),
            None => Document::Unrecognized,
        },
        None => Document::Unrecognized,
    }
}

} // verus!
