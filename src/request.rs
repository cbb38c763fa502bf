//! Building the request payload from the generation parameters, and the image
//! attachment of a chat request.
use vstd::prelude::*;
use base64::Engine;
use crate::schema::opt_view;
use crate::text::occurs_at;

verus! {

/// An IEEE-754 single-precision number, held as its bit pattern so that it is
/// copied into the payload exactly.
#[derive(Clone, Copy, Debug, PartialEq, Eq, Structural)]
pub struct Real32 {
    pub bits: u32,
}

/// What one completion request asks for.
#[derive(Debug)]
pub struct GenerationParameters {
    pub model_id: String,
    /// Whether the response is to be streamed.
    pub stream: bool,
    /// Whether the plain (non-chat) completion format is used.
    pub plain: bool,
    pub max_tokens: Option<u32>,
    pub temperature: Option<Real32>,
    pub top_p: Option<Real32>,
    pub min_p: Option<Real32>,
    pub top_k: Option<u32>,
    pub repetition_penalty: Option<Real32>,
    pub seed: Option<i64>,
    /// An image to attach to a chat request: a URL or a local path.
    pub image_file: Option<String>,
}

/// The content of a chat message.
#[derive(Debug)]
pub enum MessageContent {
    /// Plain text.
    Text(String),
    /// A single image part, referenced by a URL (possibly a `data:` URL).
    ImageUrl(String),
}

/// One message of a chat request.
#[derive(Debug)]
pub struct ChatMessage {
    pub role: String,
    pub content: MessageContent,
}

/// The value of one member of the payload.
#[derive(Debug)]
pub enum PayloadValue {
    Text(String),
    Flag(bool),
    Count(u32),
    Integer(i64),
    Real(Real32),
    Messages(Vec<ChatMessage>),
}

/// A request payload: a JSON object, its members in order.
#[derive(Debug)]
pub struct RequestPayload {
    pub fields: Vec<(String, PayloadValue)>,
}

pub enum ContentModel {
    Text(Seq<char>),
    ImageUrl(Seq<char>),
}

pub struct MessageModel {
    pub role: Seq<char>,
    pub content: ContentModel,
}

pub enum ValueModel {
    Text(Seq<char>),
    Flag(bool),
    Count(u32),
    Integer(i64),
    Real(Real32),
    Messages(Seq<MessageModel>),
}

impl View for ChatMessage {
    type V = MessageModel;

    open spec fn view(&self) -> MessageModel {
        MessageModel {
            role: self.role@,
            content: match self.content {
                MessageContent::Text(t) => ContentModel::Text(t@),
                MessageContent::ImageUrl(u) => ContentModel::ImageUrl(u@),
            },
        }
    }
}

impl View for PayloadValue {
    type V = ValueModel;

    open spec fn view(&self) -> ValueModel {
        match self {
            PayloadValue::Text(t) => ValueModel::Text(t@),
            PayloadValue::Flag(b) => ValueModel::Flag(*b),
            PayloadValue::Count(n) => ValueModel::Count(*n),
            PayloadValue::Integer(n) => ValueModel::Integer(*n),
            PayloadValue::Real(x) => ValueModel::Real(*x),
            PayloadValue::Messages(ms) => ValueModel::Messages(ms@.map_values(|m: ChatMessage| m@)),
        }
    }
}

pub open spec fn fields_view(fs: Seq<(String, PayloadValue)>) -> Seq<(Seq<char>, ValueModel)> {
    fs.map_values(|f: (String, PayloadValue)| (f.0@, f.1@))
}

impl View for RequestPayload {
    type V = Seq<(Seq<char>, ValueModel)>;

    open spec fn view(&self) -> Seq<(Seq<char>, ValueModel)> {
        fields_view(self.fields@)
    }
}

/// A member that is present only when its value is.
pub open spec fn opt_entry(key: Seq<char>, v: Option<ValueModel>) -> Seq<(Seq<char>, ValueModel)> {
    match v {
        Some(x) => seq![(key, x)],
        None => seq![],
    }
}

pub open spec fn count_value(o: Option<u32>) -> Option<ValueModel> {
    match o {
        Some(n) => Some(ValueModel::Count(n)),
        None => None,
    }
}

pub open spec fn real_value(o: Option<Real32>) -> Option<ValueModel> {
    match o {
        Some(x) => Some(ValueModel::Real(x)),
        None => None,
    }
}

pub open spec fn integer_value(o: Option<i64>) -> Option<ValueModel> {
    match o {
        Some(n) => Some(ValueModel::Integer(n)),
        None => None,
    }
}

/// The messages of a chat request: the image part first when there is one,
/// then the prompt, both from the user.
pub open spec fn messages_spec(prompt: Seq<char>, image: Option<Seq<char>>) -> Seq<MessageModel> {
    let text = MessageModel { role: "user"@, content: ContentModel::Text(prompt) };
    match image {
        Some(u) => seq![MessageModel { role: "user"@, content: ContentModel::ImageUrl(u) }, text],
        None => seq![text],
    }
}

/// The leading members: `{model, prompt, stream}` in plain mode, `{model,
/// messages, stream}` in chat mode.
pub open spec fn base_fields(
    p: GenerationParameters,
    prompt: Seq<char>,
    image: Option<Seq<char>>,
) -> Seq<(Seq<char>, ValueModel)> {
    seq![
        ("model"@, ValueModel::Text(p.model_id@)),
        if p.plain {
            ("prompt"@, ValueModel::Text(prompt))
        } else {
            ("messages"@, ValueModel::Messages(messages_spec(prompt, image)))
        },
        ("stream"@, ValueModel::Flag(p.stream)),
    ]
}

/// The payload: the leading members, then each sampling member that is set,
/// with the value it is set to.
pub open spec fn payload_spec(
    p: GenerationParameters,
    prompt: Seq<char>,
    image: Option<Seq<char>>,
) -> Seq<(Seq<char>, ValueModel)> {
    base_fields(p, prompt, image) + opt_entry("max_tokens"@, count_value(p.max_tokens)) + opt_entry(
        "temperature"@,
        real_value(p.temperature),
    ) + opt_entry("top_k"@, count_value(p.top_k)) + opt_entry("top_p"@, real_value(p.top_p))
        + opt_entry("min_p"@, real_value(p.min_p)) + opt_entry(
        "repetition_penalty"@,
        real_value(p.repetition_penalty),
    ) + opt_entry("seed"@, integer_value(p.seed))
}

pub open spec fn has_key(fs: Seq<(Seq<char>, ValueModel)>, k: Seq<char>) -> bool {
    exists|i: int| 0 <= i < fs.len() && (#[trigger] fs[i]).0 == k
}

pub open spec fn has_entry(fs: Seq<(Seq<char>, ValueModel)>, k: Seq<char>, v: ValueModel) -> bool {
    exists|i: int| 0 <= i < fs.len() && #[trigger] fs[i] == (k, v)
}

fn push_field(fields: &mut Vec<(String, PayloadValue)>, key: &str, v: Option<PayloadValue>)
    ensures
        fields_view(final(fields)@) == fields_view(old(fields)@) + opt_entry(
            key@,
            match v {
                Some(x) => Some(x@),
                None => None,
            },
        ),
{
    match v {
        Some(x) => {
            fields.push((key.to_owned(), x));
            assert(fields_view(fields@) =~= fields_view(old(fields)@) + seq![(key@, x@)]);
        },
        None => {
            assert(fields_view(fields@) =~= fields_view(old(fields)@) + seq![]);
        },
    }
}

/// Builds the payload of a request. `image` is the content of the image part
/// of a chat request (see `attachment_content`); plain requests carry none.
pub fn build_request_body(params: &GenerationParameters, prompt: &str, image: Option<String>) -> (r:
    RequestPayload)
    ensures
        r@ == payload_spec(*params, prompt@, opt_view(image)),
{
    let ghost image_view = opt_view(image);
    let mut fields: Vec<(String, PayloadValue)> = Vec::new();
    fields.push(("model".to_owned(), PayloadValue::Text(params.model_id.clone())));
    if params.plain {
        fields.push(("prompt".to_owned(), PayloadValue::Text(prompt.to_owned())));
    } else {
        let mut messages: Vec<ChatMessage> = Vec::new();
        if let Some(u) = image {
            messages.push(ChatMessage { role: "user".to_owned(), content: MessageContent::ImageUrl(u) });
        }
        messages.push(
            ChatMessage { role: "user".to_owned(), content: MessageContent::Text(prompt.to_owned()) },
        );
        assert(messages@.map_values(|m: ChatMessage| m@) =~= messages_spec(prompt@, image_view));
        fields.push(("messages".to_owned(), PayloadValue::Messages(messages)));
    }
    fields.push(("stream".to_owned(), PayloadValue::Flag(params.stream)));
    assert(fields_view(fields@) =~= base_fields(*params, prompt@, image_view));
    push_field(
        &mut fields,
        "max_tokens",
        match params.max_tokens {
            Some(n) => Some(PayloadValue::Count(n)),
            None => None,
        },
    );
    push_field(
        &mut fields,
        "temperature",
        match params.temperature {
            Some(x) => Some(PayloadValue::Real(x)),
            None => None,
        },
    );
    push_field(
        &mut fields,
        "top_k",
        match params.top_k {
            Some(n) => Some(PayloadValue::Count(n)),
            None => None,
        },
    );
    push_field(
        &mut fields,
        "top_p",
        match params.top_p {
            Some(x) => Some(PayloadValue::Real(x)),
            None => None,
        },
    );
    push_field(
        &mut fields,
        "min_p",
        match params.min_p {
            Some(x) => Some(PayloadValue::Real(x)),
            None => None,
        },
    );
    push_field(
        &mut fields,
        "repetition_penalty",
        match params.repetition_penalty {
            Some(x) => Some(PayloadValue::Real(x)),
            None => None,
        },
    );
    push_field(
        &mut fields,
        "seed",
        match params.seed {
            Some(n) => Some(PayloadValue::Integer(n)),
            None => None,
        },
    );
    RequestPayload { fields }
}

/// Whether a text parses as an absolute URL.
pub uninterp spec fn is_absolute_url(s: Seq<char>) -> bool;

/// The standard, padded base64 encoding of some bytes.
pub uninterp spec fn base64_standard(b: Seq<u8>) -> Seq<char>;

/// Relies on `reqwest::Url::parse` (the `url` crate's parser): whether the
/// text is an absolute URL; the answer depends on the text alone.
#[verifier::external_body]
fn parses_as_url(s: &str) -> (r: bool)
    ensures
        r == is_absolute_url(s@),
{
    reqwest::Url::parse(s).is_ok()
}

/// Relies on `base64::Engine::encode` of `BASE64_STANDARD`: the padded
/// standard encoding. It panics only when the encoded length overflows.
#[verifier::external_body]
fn encode_base64(b: &[u8]) -> (r: String)
    requires
        b@.len() <= usize::MAX / 2,
    ensures
        r@ == base64_standard(b@),
{
    base64::prelude::BASE64_STANDARD.encode(b)
}

/// The image formats that a local attachment may have.
#[derive(Clone, Copy, Debug, PartialEq, Eq, Structural)]
pub enum ImageKind {
    Jpeg,
    Png,
    Webp,
}

/// Where the content of an image attachment comes from.
#[derive(Clone, Copy, Debug, PartialEq, Eq, Structural)]
pub enum ImageSource {
    /// The reference is a URL and is sent as it is.
    Url,
    /// The reference is a local file of a known format, sent inline.
    File(ImageKind),
    /// The reference is a local file of another format: the content is empty.
    Unsupported,
}

pub open spec fn mime_type(k: ImageKind) -> Seq<char> {
    match k {
        ImageKind::Jpeg => "image/jpeg"@,
        ImageKind::Png => "image/png"@,
        ImageKind::Webp => "image/webp"@,
    }
}

/// What follows the last `.` of a path (all of it when there is none).
pub open spec fn extension(s: Seq<char>) -> Seq<char>
    decreases s.len(),
{
    if s.len() == 0 {
        s
    } else if s.last() == '.' {
        seq![]
    } else {
        extension(s.drop_last()).push(s.last())
    }
}

pub open spec fn kind_of_extension(e: Seq<char>) -> Option<ImageKind> {
    if e == "jpg"@ || e == "jpeg"@ {
        Some(ImageKind::Jpeg)
    } else if e == "png"@ {
        Some(ImageKind::Png)
    } else if e == "webp"@ {
        Some(ImageKind::Webp)
    } else {
        None
    }
}

/// Where the content of an attachment that is not a URL comes from.
pub open spec fn local_source_spec(reference: Seq<char>) -> ImageSource {
    match kind_of_extension(extension(reference)) {
        Some(k) => ImageSource::File(k),
        None => ImageSource::Unsupported,
    }
}

pub open spec fn image_source_spec(reference: Seq<char>) -> ImageSource {
    if is_absolute_url(reference) {
        ImageSource::Url
    } else {
        local_source_spec(reference)
    }
}

/// The content of the image part: the reference itself for a URL, a `data:`
/// URL holding the file's bytes for a file of a known format, and the empty
/// text otherwise.
pub open spec fn attachment_spec(reference: Seq<char>, source: ImageSource, bytes: Seq<u8>) -> Seq<
    char,
> {
    match source {
        ImageSource::Url => reference,
        ImageSource::File(k) => "data:"@ + mime_type(k) + ";base64,"@ + base64_standard(bytes),
        ImageSource::Unsupported => seq![],
    }
}

/// The character index where the extension of a path starts.
fn extension_start(s: &str) -> (r: usize)
    ensures
        r <= s@.len(),
        s@.subrange(r as int, s@.len() as int) == extension(s@),
{
    let n = s.unicode_len();
    let mut j: usize = n;
    proof {
        assert(s@.subrange(0, n as int) =~= s@);
        assert(s@.subrange(n as int, n as int) =~= Seq::<char>::empty());
    }
    while j > 0 && s.get_char(j - 1) != '.'
        invariant
            n == s@.len(),
            0 <= j <= n,
            extension(s@) == extension(s@.subrange(0, j as int)) + s@.subrange(j as int, n as int),
        decreases j,
    {
        proof {
            let t = s@.subrange(0, j as int);
            assert(t.drop_last() =~= s@.subrange(0, j - 1));
            assert(t.last() == s@[j - 1]);
            assert(extension(t) == extension(s@.subrange(0, j - 1)).push(s@[j - 1]));
            assert(extension(s@.subrange(0, j - 1)).push(s@[j - 1]) + s@.subrange(j as int, n as int)
                =~= extension(s@.subrange(0, j - 1)) + s@.subrange(j - 1, n as int));
        }
        j = j - 1;
    }
    proof {
        let t = s@.subrange(0, j as int);
        if j > 0 {
            assert(t.last() == s@[j - 1]);
        }
        assert(extension(t) =~= Seq::<char>::empty());
        assert(extension(s@) =~= s@.subrange(j as int, n as int));
    }
    j
}

/// Whether the extension of a path, starting at `start`, is exactly `e`.
fn extension_is(s: &str, start: usize, e: &str) -> (r: bool)
    requires
        start <= s@.len(),
    ensures
        r == (s@.subrange(start as int, s@.len() as int) == e@),
{
    let n = s.unicode_len();
    let m = e.unicode_len();
    if n - start != m {
        proof {
            assert(s@.subrange(start as int, n as int).len() != e@.len());
        }
        return false;
    }
    let r = occurs_at(s, start, e);
    proof {
        assert(start + e@.len() == n);
    }
    r
}

/// Tells where the content of an image attachment comes from: a URL when the
/// reference parses as one, else a local file whose format follows from its
/// extension (`jpg`, `jpeg`, `png`, `webp`).
pub fn classify_image_reference(reference: &str) -> (r: ImageSource)
    ensures
        r == image_source_spec(reference@),
{
    if parses_as_url(reference) {
        ImageSource::Url
    } else {
        local_image_source(reference)
    }
}

/// Where the content of an attachment that is not a URL comes from: a local
/// file whose format follows from its extension (`jpg`, `jpeg`, `png`,
/// `webp`), or no content for any other extension.
pub fn local_image_source(reference: &str) -> (r: ImageSource)
    ensures
        r == local_source_spec(reference@),
{
    let start = extension_start(reference);
    if extension_is(reference, start, "jpg") || extension_is(reference, start, "jpeg") {
        ImageSource::File(ImageKind::Jpeg)
    } else if extension_is(reference, start, "png") {
        ImageSource::File(ImageKind::Png)
    } else if extension_is(reference, start, "webp") {
        ImageSource::File(ImageKind::Webp)
    } else {
        ImageSource::Unsupported
    }
}

/// A `data:` URL of an image, given its base64 encoding.
pub fn data_url(kind: ImageKind, encoded: &str) -> (r: String)
    ensures
        r@ == "data:"@ + mime_type(kind) + ";base64,"@ + encoded@,
{
    let mime = match kind {
        ImageKind::Jpeg => "image/jpeg",
        ImageKind::Png => "image/png",
        ImageKind::Webp => "image/webp",
    };
    "data:".to_owned().concat(mime).concat(";base64,").concat(encoded)
}

/// The image to attach to a request, if any: only chat requests with an image
/// reference carry one.
pub fn attachment_source(params: &GenerationParameters) -> (r: Option<ImageSource>)
    ensures
        r == (if !params.plain && params.image_file is Some {
            Some(image_source_spec(params.image_file->Some_0@))
        } else {
            None
        }),
{
    if params.plain {
        return None;
    }
    match &params.image_file {
        Some(path) => Some(classify_image_reference(path.as_str())),
        None => None,
    }
}

/// The content of the image part, given where it comes from and, for a file,
/// the file's bytes (ignored otherwise).
pub fn attachment_content(reference: &str, source: ImageSource, bytes: &[u8]) -> (r: String)
    requires
        bytes@.len() <= usize::MAX / 2,
    ensures
        r@ == attachment_spec(reference@, source, bytes@),
{
    match source {
        ImageSource::Url => reference.to_owned(),
        ImageSource::File(k) => {
            let encoded = encode_base64(bytes);
            data_url(k, encoded.as_str())
        },
        ImageSource::Unsupported => String::new(),
    }
}

/// The path of the completion endpoint under the API base URL.
pub fn endpoint_url(api: &str, plain: bool) -> (r: String)
    ensures
        r@ == api@ + if plain {
            "/v1/completions"@
        } else {
            "/v1/chat/completions"@
        },
{
    let base = api.to_owned();
    if plain {
        base.concat("/v1/completions")
    } else {
        base.concat("/v1/chat/completions")
    }
}

} // verus!

verus! {

/// A member is in a concatenation exactly when it is in one of its parts.
pub broadcast proof fn lemma_has_key_concat(
    a: Seq<(Seq<char>, ValueModel)>,
    b: Seq<(Seq<char>, ValueModel)>,
    k: Seq<char>,
)
    ensures
        #[trigger] has_key(a + b, k) <==> has_key(a, k) || has_key(b, k),
{
    let c = a + b;
    if has_key(c, k) {
        let i = choose|i: int| 0 <= i < c.len() && (#[trigger] c[i]).0 == k;
        if i < a.len() {
            assert(a[i] == c[i]);
        } else {
            assert(b[i - a.len()] == c[i]);
        }
    }
    if has_key(a, k) {
        let i = choose|i: int| 0 <= i < a.len() && (#[trigger] a[i]).0 == k;
        assert(c[i] == a[i]);
    }
    if has_key(b, k) {
        let i = choose|i: int| 0 <= i < b.len() && (#[trigger] b[i]).0 == k;
        assert(c[a.len() + i] == b[i]);
    }
}

/// An entry is in a concatenation exactly when it is in one of its parts.
pub broadcast proof fn lemma_has_entry_concat(
    a: Seq<(Seq<char>, ValueModel)>,
    b: Seq<(Seq<char>, ValueModel)>,
    k: Seq<char>,
    v: ValueModel,
)
    ensures
        #[trigger] has_entry(a + b, k, v) <==> has_entry(a, k, v) || has_entry(b, k, v),
{
    let c = a + b;
    if has_entry(c, k, v) {
        let i = choose|i: int| 0 <= i < c.len() && #[trigger] c[i] == (k, v);
        if i < a.len() {
            assert(a[i] == c[i]);
        } else {
            assert(b[i - a.len()] == c[i]);
        }
    }
    if has_entry(a, k, v) {
        let i = choose|i: int| 0 <= i < a.len() && #[trigger] a[i] == (k, v);
        assert(c[i] == a[i]);
    }
    if has_entry(b, k, v) {
        let i = choose|i: int| 0 <= i < b.len() && #[trigger] b[i] == (k, v);
        assert(c[a.len() + i] == b[i]);
    }
}

/// An optional member holds exactly its own key, when its value is present.
pub broadcast proof fn lemma_opt_entry(key: Seq<char>, v: Option<ValueModel>, k: Seq<char>, x: ValueModel)
    ensures
        #[trigger] has_key(opt_entry(key, v), k) <==> (v is Some && key == k),
        #[trigger] has_entry(opt_entry(key, v), k, x) <==> (v == Some(x) && key == k),
{
    if v is Some {
        assert(opt_entry(key, v)[0] == (key, v->Some_0));
    }
}

proof fn lemma_base_keys(p: GenerationParameters, prompt: Seq<char>, image: Option<Seq<char>>, k: Seq<char>)
    ensures
        has_key(base_fields(p, prompt, image), k) <==> (k == "model"@ || k == "stream"@ || (p.plain
            && k == "prompt"@) || (!p.plain && k == "messages"@)),
{
    let b = base_fields(p, prompt, image);
    if k == "model"@ {
        assert(b[0].0 == k);
    }
    if k == "stream"@ {
        assert(b[2].0 == k);
    }
    if (p.plain && k == "prompt"@) || (!p.plain && k == "messages"@) {
        assert(b[1].0 == k);
    }
}

proof fn reveal_keys()
    ensures
        "model"@.len() == 5,
        "prompt"@.len() == 6,
        "messages"@.len() == 8,
        "stream"@.len() == 6,
        "max_tokens"@.len() == 10,
        "temperature"@.len() == 11,
        "top_k"@.len() == 5,
        "top_p"@.len() == 5,
        "min_p"@.len() == 5,
        "repetition_penalty"@.len() == 18,
        "seed"@.len() == 4,
        "prompt"@ != "stream"@,
        "model"@ != "top_k"@,
        "model"@ != "top_p"@,
        "model"@ != "min_p"@,
        "top_k"@ != "top_p"@,
        "top_k"@ != "min_p"@,
        "top_p"@ != "min_p"@,
{
    reveal_strlit("model");
    reveal_strlit("prompt");
    reveal_strlit("messages");
    reveal_strlit("stream");
    reveal_strlit("max_tokens");
    reveal_strlit("temperature");
    reveal_strlit("top_k");
    reveal_strlit("top_p");
    reveal_strlit("min_p");
    reveal_strlit("repetition_penalty");
    reveal_strlit("seed");
    assert("prompt"@[0] != "stream"@[0]);
    assert("model"@[0] != "top_k"@[0]);
    assert("model"@[0] != "top_p"@[0]);
    assert("model"@[1] != "min_p"@[1]);
    assert("top_k"@[4] != "top_p"@[4]);
    assert("top_k"@[0] != "min_p"@[0]);
    assert("top_p"@[0] != "min_p"@[0]);
}

proof fn lemma_payload_key(p: GenerationParameters, prompt: Seq<char>, image: Option<Seq<char>>, k: Seq<char>)
    ensures
        has_key(payload_spec(p, prompt, image), k) <==> (has_key(base_fields(p, prompt, image), k)
            || (p.max_tokens is Some && k == "max_tokens"@) || (p.temperature is Some && k
            == "temperature"@) || (p.top_k is Some && k == "top_k"@) || (p.top_p is Some && k
            == "top_p"@) || (p.min_p is Some && k == "min_p"@) || (p.repetition_penalty is Some
            && k == "repetition_penalty"@) || (p.seed is Some && k == "seed"@)),
{
    let x = ValueModel::Flag(true);
    let a0 = base_fields(p, prompt, image);
    let o1 = opt_entry("max_tokens"@, count_value(p.max_tokens));
    let o2 = opt_entry("temperature"@, real_value(p.temperature));
    let o3 = opt_entry("top_k"@, count_value(p.top_k));
    let o4 = opt_entry("top_p"@, real_value(p.top_p));
    let o5 = opt_entry("min_p"@, real_value(p.min_p));
    let o6 = opt_entry("repetition_penalty"@, real_value(p.repetition_penalty));
    let o7 = opt_entry("seed"@, integer_value(p.seed));
    lemma_opt_entry("max_tokens"@, count_value(p.max_tokens), k, x);
    lemma_opt_entry("temperature"@, real_value(p.temperature), k, x);
    lemma_opt_entry("top_k"@, count_value(p.top_k), k, x);
    lemma_opt_entry("top_p"@, real_value(p.top_p), k, x);
    lemma_opt_entry("min_p"@, real_value(p.min_p), k, x);
    lemma_opt_entry("repetition_penalty"@, real_value(p.repetition_penalty), k, x);
    lemma_opt_entry("seed"@, integer_value(p.seed), k, x);
    lemma_has_key_concat(a0, o1, k);
    lemma_has_key_concat(a0 + o1, o2, k);
    lemma_has_key_concat(a0 + o1 + o2, o3, k);
    lemma_has_key_concat(a0 + o1 + o2 + o3, o4, k);
    lemma_has_key_concat(a0 + o1 + o2 + o3 + o4, o5, k);
    lemma_has_key_concat(a0 + o1 + o2 + o3 + o4 + o5, o6, k);
    lemma_has_key_concat(a0 + o1 + o2 + o3 + o4 + o5 + o6, o7, k);
}

/// A plain request carries the prompt as a `prompt` member and has no
/// `messages` member; a chat request carries `messages` and no `prompt`.
pub proof fn lemma_mode_selects_prompt_or_messages(
    p: GenerationParameters,
    prompt: Seq<char>,
    image: Option<Seq<char>>,
)
    ensures
        p.plain ==> has_entry(payload_spec(p, prompt, image), "prompt"@, ValueModel::Text(prompt)),
        p.plain ==> !has_key(payload_spec(p, prompt, image), "messages"@),
        !p.plain ==> has_entry(
            payload_spec(p, prompt, image),
            "messages"@,
            ValueModel::Messages(messages_spec(prompt, image)),
        ),
        !p.plain ==> !has_key(payload_spec(p, prompt, image), "prompt"@),
{
    broadcast use lemma_has_key_concat, lemma_has_entry_concat, lemma_opt_entry;

    reveal_keys();
    lemma_base_keys(p, prompt, image, "prompt"@);
    lemma_base_keys(p, prompt, image, "messages"@);
    let b = base_fields(p, prompt, image);
    assert(b[1] == (if p.plain {
        ("prompt"@, ValueModel::Text(prompt))
    } else {
        ("messages"@, ValueModel::Messages(messages_spec(prompt, image)))
    }));
    assert(has_entry(b, b[1].0, b[1].1));
}

/// Every sampling member is in the payload exactly when its parameter is
/// set, and then with the value it is set to.
pub proof fn lemma_sampling_members_follow_parameters(
    p: GenerationParameters,
    prompt: Seq<char>,
    image: Option<Seq<char>>,
)
    ensures
        has_key(payload_spec(p, prompt, image), "max_tokens"@) <==> p.max_tokens is Some,
        has_key(payload_spec(p, prompt, image), "temperature"@) <==> p.temperature is Some,
        has_key(payload_spec(p, prompt, image), "top_k"@) <==> p.top_k is Some,
        has_key(payload_spec(p, prompt, image), "top_p"@) <==> p.top_p is Some,
        has_key(payload_spec(p, prompt, image), "min_p"@) <==> p.min_p is Some,
        has_key(payload_spec(p, prompt, image), "repetition_penalty"@)
            <==> p.repetition_penalty is Some,
        has_key(payload_spec(p, prompt, image), "seed"@) <==> p.seed is Some,
        p.max_tokens matches Some(n) ==> has_entry(
            payload_spec(p, prompt, image),
            "max_tokens"@,
            ValueModel::Count(n),
        ),
        p.temperature matches Some(x) ==> has_entry(
            payload_spec(p, prompt, image),
            "temperature"@,
            ValueModel::Real(x),
        ),
        p.top_k matches Some(n) ==> has_entry(
            payload_spec(p, prompt, image),
            "top_k"@,
            ValueModel::Count(n),
        ),
        p.top_p matches Some(x) ==> has_entry(
            payload_spec(p, prompt, image),
            "top_p"@,
            ValueModel::Real(x),
        ),
        p.min_p matches Some(x) ==> has_entry(
            payload_spec(p, prompt, image),
            "min_p"@,
            ValueModel::Real(x),
        ),
        p.repetition_penalty matches Some(x) ==> has_entry(
            payload_spec(p, prompt, image),
            "repetition_penalty"@,
            ValueModel::Real(x),
        ),
        p.seed matches Some(n) ==> has_entry(
            payload_spec(p, prompt, image),
            "seed"@,
            ValueModel::Integer(n),
        ),
{
    broadcast use lemma_has_key_concat, lemma_has_entry_concat, lemma_opt_entry;

    reveal_keys();
    lemma_base_keys(p, prompt, image, "max_tokens"@);
    lemma_base_keys(p, prompt, image, "temperature"@);
    lemma_base_keys(p, prompt, image, "top_k"@);
    lemma_base_keys(p, prompt, image, "top_p"@);
    lemma_base_keys(p, prompt, image, "min_p"@);
    lemma_base_keys(p, prompt, image, "repetition_penalty"@);
    lemma_base_keys(p, prompt, image, "seed"@);
    lemma_payload_key(p, prompt, image, "max_tokens"@);
    lemma_payload_key(p, prompt, image, "temperature"@);
    lemma_payload_key(p, prompt, image, "top_k"@);
    lemma_payload_key(p, prompt, image, "top_p"@);
    lemma_payload_key(p, prompt, image, "min_p"@);
    lemma_payload_key(p, prompt, image, "repetition_penalty"@);
    lemma_payload_key(p, prompt, image, "seed"@);
}

/// Building twice from the same parameters, prompt and image gives the same
/// payload.
pub proof fn lemma_build_is_deterministic(
    p: GenerationParameters,
    prompt: Seq<char>,
    image: Option<Seq<char>>,
    first: RequestPayload,
    second: RequestPayload,
)
    requires
        first@ == payload_spec(p, prompt, image),
        second@ == payload_spec(p, prompt, image),
    ensures
        first@ == second@,
{
}

} // verus!
