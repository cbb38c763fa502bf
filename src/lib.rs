//! Building requests for an OpenAI-compatible completion API and decoding its
//! single-document and streamed responses.
//!
//! - `json`: a model of JSON documents and the `serde_json` calls that read one.
//! - `schema`: the response schema and the structural matching of a document.
//! - `decode`: fragments of a decoded document, and the failures of a call.
//! - `text`: Unicode whitespace and trimming.
//! - `stream`: line framing of a streamed response.
//! - `request`: the request payload and image attachments.
pub mod json;
pub mod schema;
pub mod decode;
pub mod text;
pub mod stream;
pub mod request;
