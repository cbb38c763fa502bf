//! Turning decoded documents into text fragments, and the failures a
//! completion call can end in.
use vstd::prelude::*;
use crate::json::{json_tree, parsed_json, parse_json, json_error_text};
use crate::schema::{
    ChoiceModel, Choice, DecodedResponse, Document, DocumentModel, ErrorBodyModel, ResponseModel,
    classify_document, document_of,
};

verus! {

/// Every way a completion call can fail. All of them end the call.
#[derive(Debug)]
pub enum CompletionError {
    /// A local image attachment could not be read.
    ImageRead { path: String, reason: String },
    /// The transport failed, or the server answered with a non-success status.
    Transport { status: u16, body: String },
    /// The provider answered with an error envelope.
    Api { code: i32, message: String, metadata: Option<serde_json::Value> },
    /// The document matched neither the response schema nor the error envelope.
    MalformedResponse { raw_body: String, diagnostic: String },
    /// A delta-shaped choice arrived where only complete choices are allowed.
    UnexpectedStreamingShape,
}

/// What a failure records, as far as contracts speak of it (diagnostic texts
/// are left out).
pub enum FailureModel {
    ImageRead { path: Seq<char> },
    Transport { status: u16, body: Seq<char> },
    Api(ErrorBodyModel),
    MalformedResponse { raw_body: Seq<char> },
    UnexpectedStreamingShape,
}

impl View for CompletionError {
    type V = FailureModel;

    open spec fn view(&self) -> FailureModel {
        match self {
            CompletionError::ImageRead { path, .. } => FailureModel::ImageRead { path: path@ },
            CompletionError::Transport { status, body } => FailureModel::Transport {
                status: *status,
                body: body@,
            },
            CompletionError::Api { code, message, metadata } => FailureModel::Api(
                ErrorBodyModel {
                    code: *code,
                    message: message@,
                    metadata: match *metadata {
                        Some(m) => Some(json_tree(m)),
                        None => None,
                    },
                },
            ),
            CompletionError::MalformedResponse { raw_body, .. } => FailureModel::MalformedResponse {
                raw_body: raw_body@,
            },
            CompletionError::UnexpectedStreamingShape => FailureModel::UnexpectedStreamingShape,
        }
    }
}

pub open spec fn texts_view(v: Seq<String>) -> Seq<Seq<char>> {
    v.map_values(|s: String| s@)
}

pub open spec fn outcome_view(r: Result<Vec<String>, CompletionError>) -> Result<
    Seq<Seq<char>>,
    FailureModel,
> {
    match r {
        Ok(v) => Ok(texts_view(v@)),
        Err(e) => Err(e@),
    }
}

/// The fragment of a single-document response: the text of the first choice
/// (a full message without content gives the empty text), nothing when there
/// is no choice, and a failure for a delta.
pub open spec fn once_fragments_spec(r: ResponseModel) -> Result<Seq<Seq<char>>, FailureModel> {
    if r.choices.len() == 0 {
        Ok(seq![])
    } else {
        match r.choices[0] {
            ChoiceModel::Plain { text, .. } => Ok(seq![text]),
            ChoiceModel::Message { content, .. } => Ok(
                seq![
                    match content {
                        Some(c) => c,
                        None => seq![],
                    },
                ],
            ),
            ChoiceModel::Delta { .. } => Err(FailureModel::UnexpectedStreamingShape),
        }
    }
}

/// The fragment a choice contributes to a stream: a plain text always, the
/// content of a message or a delta when it has one.
pub open spec fn stream_fragment(c: ChoiceModel) -> Option<Seq<char>> {
    match c {
        ChoiceModel::Plain { text, .. } => Some(text),
        ChoiceModel::Message { content, .. } => content,
        ChoiceModel::Delta { content, .. } => content,
    }
}

/// The fragments of one streamed document, in the order of its choices.
pub open spec fn stream_fragments_spec(cs: Seq<ChoiceModel>) -> Seq<Seq<char>>
    decreases cs.len(),
{
    if cs.len() == 0 {
        seq![]
    } else {
        stream_fragments_spec(cs.drop_last()) + match stream_fragment(cs.last()) {
            Some(f) => seq![f],
            None => seq![],
        }
    }
}

/// The outcome of a classified document, with `raw` its text; `streaming`
/// picks which fragments a response yields.
pub open spec fn classified_outcome(
    d: DocumentModel,
    raw: Seq<char>,
    streaming: bool,
) -> Result<Seq<Seq<char>>, FailureModel> {
    match d {
        DocumentModel::Response(r) => if streaming {
            Ok(stream_fragments_spec(r.choices))
        } else {
            once_fragments_spec(r)
        },
        DocumentModel::Failure(e) => Err(FailureModel::Api(e)),
        DocumentModel::Unrecognized => Err(FailureModel::MalformedResponse { raw_body: raw }),
    }
}

/// The outcome of decoding the text of one document.
pub open spec fn text_outcome(raw: Seq<char>, streaming: bool) -> Result<
    Seq<Seq<char>>,
    FailureModel,
> {
    match parsed_json(raw) {
        None => Err(FailureModel::MalformedResponse { raw_body: raw }),
        Some(t) => classified_outcome(document_of(t), raw, streaming),
    }
}

/// The fragment of a single-document response.
pub fn once_fragments(resp: &DecodedResponse) -> (r: Result<Vec<String>, CompletionError>)
    ensures
        outcome_view(r) == once_fragments_spec(resp@),
{
    let mut out: Vec<String> = Vec::new();
    if resp.choices.len() == 0 {
        proof {
            assert(texts_view(out@) =~= seq![]);
        }
        return Ok(out);
    }
    match &resp.choices[0] {
        Choice::Plain { text, .. } => {
            out.push(text.clone());
        },
        Choice::Message { content, .. } => {
            match content {
                Some(c) => out.push(c.clone()),
                None => out.push(String::new()),
            }
        },
        Choice::Delta { .. } => {
            return Err(CompletionError::UnexpectedStreamingShape);
        },
    }
    proof {
        assert(texts_view(out@) =~= seq![out@[0]@]);
    }
    Ok(out)
}

/// The fragments of one streamed document, appended to `out` in the order of
/// its choices.
pub fn push_stream_fragments(resp: &DecodedResponse, out: &mut Vec<String>)
    ensures
        texts_view(final(out)@) == texts_view(old(out)@) + stream_fragments_spec(resp@.choices),
{
    let ghost cs = resp@.choices;
    let ghost start = texts_view(out@);
    let mut i: usize = 0;
    while i < resp.choices.len()
        invariant
            0 <= i <= resp.choices@.len(),
            cs == resp@.choices,
            cs.len() == resp.choices@.len(),
            texts_view(out@) == start + stream_fragments_spec(cs.subrange(0, i as int)),
        decreases resp.choices@.len() - i,
    {
        let ghost before = out@;
        proof {
            assert(cs.subrange(0, i + 1).drop_last() =~= cs.subrange(0, i as int));
            assert(cs.subrange(0, i + 1).last() == cs[i as int]);
            assert(cs[i as int] == resp.choices@[i as int]@);
        }
        match &resp.choices[i] {
            Choice::Plain { text, .. } => {
                out.push(text.clone());
            },
            Choice::Message { content, .. } => {
                if let Some(c) = content {
                    out.push(c.clone());
                }
            },
            Choice::Delta { content, .. } => {
                if let Some(c) = content {
                    out.push(c.clone());
                }
            },
        }
        proof {
            assert(texts_view(out@) =~= texts_view(before) + match stream_fragment(cs[i as int]) {
                Some(f) => seq![f],
                None => seq![],
            });
        }
        i = i + 1;
    }
    proof {
        assert(cs.subrange(0, cs.len() as int) =~= cs);
    }
}

/// Decodes a parsed document, with `raw` its text, kept in the failure when
/// the document matches no schema. A stream takes the fragments of every
/// choice; a single-document response takes the first choice only.
pub fn document_outcome(doc: &serde_json::Value, raw: &str, streaming: bool) -> (r: Result<
    Vec<String>,
    CompletionError,
>)
    ensures
        outcome_view(r) == classified_outcome(document_of(json_tree(*doc)), raw@, streaming),
{
    match classify_document(doc) {
        Document::Response(resp) => {
            if streaming {
                let mut out: Vec<String> = Vec::new();
                push_stream_fragments(&resp, &mut out);
                proof {
                    assert(texts_view(seq![]) =~= seq![]);
                    assert(texts_view(out@) =~= stream_fragments_spec(resp@.choices));
                }
                Ok(out)
            } else {
                once_fragments(&resp)
            }
        },
        Document::Failure(e) => Err(
            CompletionError::Api { code: e.code, message: e.message, metadata: e.metadata },
        ),
        Document::Unrecognized => Err(
            CompletionError::MalformedResponse {
                raw_body: raw.to_owned(),
                diagnostic: "the document matches neither the response schema nor the error envelope".to_owned(),
            },
        ),
    }
}

/// Decodes the text of one document.
pub fn text_document_outcome(raw: &str, streaming: bool) -> (r: Result<Vec<String>, CompletionError>)
    ensures
        outcome_view(r) == text_outcome(raw@, streaming),
{
    match parse_json(raw) {
        Ok(doc) => document_outcome(&doc, raw, streaming),
        Err(e) => Err(
            CompletionError::MalformedResponse {
                raw_body: raw.to_owned(),
                diagnostic: json_error_text(&e),
            },
        ),
    }
}

/// Decodes a complete single-document response body into its fragment.
pub fn decode_once(body: &str) -> (r: Result<Vec<String>, CompletionError>)
    ensures
        outcome_view(r) == text_outcome(body@, false),
{
    text_document_outcome(body, false)
}

/// The failure for a transport answer, if its status is not a success
/// (200 to 299).
pub fn check_status(status: u16, body: String) -> (r: Result<(), CompletionError>)
    ensures
        200 <= status <= 299 ==> r is Ok,
        !(200 <= status <= 299) ==> (r matches Err(e) && e@ == (FailureModel::Transport {
            status,
            body: body@,
        })),
{
    if 200 <= status && status <= 299 {
        Ok(())
    } else {
        Err(CompletionError::Transport { status, body })
    }
}

} // verus!
