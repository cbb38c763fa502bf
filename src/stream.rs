//! Decoding a streamed response: bytes arrive in chunks that split lines (and
//! characters) anywhere; complete lines are taken out as they form, and each
//! `data: ` line carries one JSON document.
//!
//! Bytes are held until their line is complete and a line is decoded as UTF-8
//! (invalid sequences replaced) only then, so a character split between two
//! chunks is decoded whole. A newline byte never occurs inside a multi-byte
//! character, so lines are found in the bytes.
use vstd::prelude::*;
use crate::decode::{CompletionError, FailureModel, texts_view, text_outcome, text_document_outcome};
use crate::text::{trim, trim_bounds, occurs_at};

verus! {

/// The characters that `String::from_utf8_lossy` decodes from some bytes.
pub uninterp spec fn utf8_lossy(b: Seq<u8>) -> Seq<char>;

/// Relies on `String::from_utf8_lossy`: UTF-8 decoding with every invalid
/// sequence replaced; the result depends on the bytes alone.
#[verifier::external_body]
fn decode_utf8_lossy(b: &[u8]) -> (r: String)
    ensures
        r@ == utf8_lossy(b@),
{
    String::from_utf8_lossy(b).into_owned()
}

/// The prefix of a payload line.
pub open spec fn data_prefix() -> Seq<char> {
    "data: "@
}

/// The sentinel that ends a stream.
pub open spec fn done_sentinel() -> Seq<char> {
    "[DONE]"@
}

/// What follows the `data: ` prefix of a trimmed line, if it has that prefix.
pub open spec fn payload_of(t: Seq<char>) -> Option<Seq<char>> {
    let n = data_prefix().len();
    if n <= t.len() && t.subrange(0, n as int) == data_prefix() {
        Some(t.subrange(n as int, t.len() as int))
    } else {
        None
    }
}

/// What one complete line (without its newline) amounts to.
pub enum LineModel {
    /// Empty, or not a payload line: ignored.
    Skip,
    /// The end-of-stream sentinel.
    Done,
    /// A payload, decoded.
    Outcome(Result<Seq<Seq<char>>, FailureModel>),
}

/// What one decoded line amounts to.
pub open spec fn text_line_event(text: Seq<char>) -> LineModel {
    match payload_of(trim(text)) {
        None => LineModel::Skip,
        Some(p) => if trim(p) == done_sentinel() {
            LineModel::Done
        } else {
            LineModel::Outcome(text_outcome(p, true))
        },
    }
}

/// What one complete line of bytes amounts to.
pub open spec fn line_event(line: Seq<u8>) -> LineModel {
    text_line_event(utf8_lossy(line))
}

/// The index of the first newline byte.
pub open spec fn first_newline(b: Seq<u8>) -> Option<int> {
    if exists|i: int| 0 <= i < b.len() && b[i] == 10u8 {
        Some(
            choose|i: int|
                0 <= i < b.len() && b[i] == 10u8 && forall|j: int| 0 <= j < i ==> b[j] != 10u8,
        )
    } else {
        None
    }
}

/// The effect of taking every complete line out of some bytes, in order,
/// until none is left, the sentinel comes, or a line fails.
pub struct DrainModel {
    /// The fragments of the lines taken out, in order.
    pub fragments: Seq<Seq<char>>,
    /// The failure a line ended in, if one did.
    pub failure: Option<FailureModel>,
    /// The bytes after the last line taken out.
    pub rest: Seq<u8>,
    /// Whether the stream ended (sentinel or failure).
    pub finished: bool,
}

#[verifier::opaque]
pub open spec fn drain(b: Seq<u8>) -> DrainModel
    decreases b.len(),
{
    match first_newline(b) {
        Some(i) => if 0 <= i < b.len() {
            let remain = b.subrange(i + 1, b.len() as int);
            match line_event(b.subrange(0, i)) {
                LineModel::Skip => drain(remain),
                LineModel::Done => DrainModel {
                    fragments: seq![],
                    failure: None,
                    rest: remain,
                    finished: true,
                },
                LineModel::Outcome(Ok(f)) => DrainModel {
                    fragments: f + drain(remain).fragments,
                    failure: drain(remain).failure,
                    rest: drain(remain).rest,
                    finished: drain(remain).finished,
                },
                LineModel::Outcome(Err(e)) => DrainModel {
                    fragments: seq![],
                    failure: Some(e),
                    rest: remain,
                    finished: true,
                },
            }
        } else {
            DrainModel { fragments: seq![], failure: None, rest: b, finished: false }
        },
        None => DrainModel { fragments: seq![], failure: None, rest: b, finished: false },
    }
}

/// What one complete line amounts to.
#[derive(Debug)]
pub enum LineEvent {
    Skip,
    Done,
    Fragments(Vec<String>),
    Failed(CompletionError),
}

impl View for LineEvent {
    type V = LineModel;

    open spec fn view(&self) -> LineModel {
        match self {
            LineEvent::Skip => LineModel::Skip,
            LineEvent::Done => LineModel::Done,
            LineEvent::Fragments(v) => LineModel::Outcome(Ok(texts_view(v@))),
            LineEvent::Failed(e) => LineModel::Outcome(Err(e@)),
        }
    }
}

proof fn lemma_first_newline(b: Seq<u8>, i: int)
    requires
        0 <= i <= b.len(),
        forall|j: int| 0 <= j < i ==> b[j] != 10u8,
        i < b.len() ==> b[i] == 10u8,
    ensures
        i == b.len() ==> first_newline(b) is None,
        i < b.len() ==> first_newline(b) == Some(i),
{
    if i < b.len() {
        let c = choose|c: int|
            0 <= c < b.len() && b[c] == 10u8 && forall|j: int| 0 <= j < c ==> b[j] != 10u8;
        assert(0 <= c < b.len() && b[c] == 10u8 && forall|j: int| 0 <= j < c ==> b[j] != 10u8);
        if c < i {
            assert(b[c] != 10u8);
        }
        if c > i {
            assert(b[i] != 10u8);
        }
    }
}

proof fn lemma_drain_idle(b: Seq<u8>)
    requires
        first_newline(b) is None,
    ensures
        drain(b) == (DrainModel { fragments: seq![], failure: None, rest: b, finished: false }),
{
    reveal(drain);
}

proof fn lemma_drain_line(b: Seq<u8>, i: int)
    requires
        0 <= i < b.len(),
        first_newline(b) == Some(i),
    ensures
        ({
            let remain = b.subrange(i + 1, b.len() as int);
            match line_event(b.subrange(0, i)) {
                LineModel::Skip => drain(b) == drain(remain),
                LineModel::Done => drain(b) == (DrainModel {
                    fragments: seq![],
                    failure: None,
                    rest: remain,
                    finished: true,
                }),
                LineModel::Outcome(Ok(f)) => drain(b) == (DrainModel {
                    fragments: f + drain(remain).fragments,
                    failure: drain(remain).failure,
                    rest: drain(remain).rest,
                    finished: drain(remain).finished,
                }),
                LineModel::Outcome(Err(e)) => drain(b) == (DrainModel {
                    fragments: seq![],
                    failure: Some(e),
                    rest: remain,
                    finished: true,
                }),
            }
        }),
{
    reveal(drain);
}

/// Decodes one complete line, given without its newline.
pub fn decode_line(line: &[u8]) -> (r: LineEvent)
    ensures
        r@ == line_event(line@),
{
    let text = decode_utf8_lossy(line);
    decode_line_text(text.as_str())
}

/// Decodes the text of one complete line: a payload line is one with the
/// prefix `data: ` once trimmed, and its payload is either the sentinel
/// `[DONE]` (trimmed) or a document.
pub fn decode_line_text(text: &str) -> (r: LineEvent)
    ensures
        r@ == text_line_event(text@),
{
    let (a, b) = trim_bounds(text);
    let t = text.substring_char(a, b);
    let prefix = "data: ";
    if !occurs_at(t, 0, prefix) {
        return LineEvent::Skip;
    }
    let n = prefix.unicode_len();
    let payload = t.substring_char(n, t.unicode_len());
    let (c, d) = trim_bounds(payload);
    let sentinel = "[DONE]";
    if d - c == sentinel.unicode_len() && occurs_at(payload, c, sentinel) {
        proof {
            assert(payload@.subrange(c as int, d as int) =~= payload@.subrange(
                c as int,
                c + sentinel@.len(),
            ));
        }
        return LineEvent::Done;
    }
    match text_document_outcome(payload, true) {
        Ok(f) => LineEvent::Fragments(f),
        Err(e) => LineEvent::Failed(e),
    }
}

fn find_newline(b: &Vec<u8>) -> (r: usize)
    ensures
        r <= b@.len(),
        forall|j: int| 0 <= j < r ==> b@[j] != 10u8,
        r < b@.len() ==> b@[r as int] == 10u8,
{
    let mut i: usize = 0;
    while i < b.len() && b[i] != 10u8
        invariant
            0 <= i <= b@.len(),
            forall|j: int| 0 <= j < i ==> b@[j] != 10u8,
        decreases b@.len() - i,
    {
        i = i + 1;
    }
    i
}

/// The state of one streamed response: the bytes of the line not yet
/// complete, and whether the stream has ended.
pub struct StreamDecoder {
    pending: Vec<u8>,
    finished: bool,
}

/// The view of a `StreamDecoder`: the bytes held back and whether the stream
/// has ended.
pub struct StreamState {
    pub pending: Seq<u8>,
    pub finished: bool,
}

impl View for StreamDecoder {
    type V = StreamState;

    closed spec fn view(&self) -> StreamState {
        StreamState { pending: self.pending@, finished: self.finished }
    }
}

impl StreamDecoder {
    /// A decoder before the first chunk.
    pub fn new() -> (r: StreamDecoder)
        ensures
            r@.pending == Seq::<u8>::empty(),
            !r@.finished,
    {
        StreamDecoder { pending: Vec::new(), finished: false }
    }

    /// Whether the stream has ended, by the sentinel or by a failure.
    pub fn is_finished(&self) -> (r: bool)
        ensures
            r == self@.finished,
    {
        self.finished
    }

    /// Takes in one chunk and decodes every line it completes, appending their
    /// fragments to `out` in order. A decoder that has finished ignores
    /// further chunks. Bytes after the last newline wait for the next chunk.
    pub fn feed(&mut self, chunk: &[u8], out: &mut Vec<String>) -> (r: Result<(), CompletionError>)
        ensures
            old(self)@.finished ==> final(self)@ == old(self)@ && final(out)@ == old(out)@ && r is Ok,
            !old(self)@.finished ==> ({
                let d = drain(old(self)@.pending + chunk@);
                &&& texts_view(final(out)@) == texts_view(old(out)@) + d.fragments
                &&& r is Ok <==> d.failure is None
                &&& (r matches Err(e) ==> d.failure == Some(e@))
                &&& final(self)@.finished == d.finished
                &&& final(self)@.pending == d.rest
            }),
            !final(self)@.finished ==> !final(self)@.pending.contains(10u8),
    {
        if self.finished {
            return Ok(());
        }
        let mut buf: Vec<u8> = Vec::new();
        buf.append(&mut self.pending);
        let mut k: usize = 0;
        while k < chunk.len()
            invariant
                0 <= k <= chunk@.len(),
                buf@ == old(self)@.pending + chunk@.subrange(0, k as int),
            decreases chunk@.len() - k,
        {
            buf.push(chunk[k]);
            proof {
                assert(buf@ =~= old(self)@.pending + chunk@.subrange(0, k + 1));
            }
            k = k + 1;
        }
        let ghost total = buf@;
        let ghost out0 = texts_view(out@);
        proof {
            assert(chunk@.subrange(0, chunk@.len() as int) =~= chunk@);
        }
        loop
            invariant
                !self.finished,
                !old(self)@.finished,
                total == old(self)@.pending + chunk@,
                out0 == texts_view(old(out)@),
                out0 + drain(total).fragments == texts_view(out@) + drain(buf@).fragments,
                drain(total).failure == drain(buf@).failure,
                drain(total).rest == drain(buf@).rest,
                drain(total).finished == drain(buf@).finished,
            decreases buf@.len(),
        {
            let i = find_newline(&buf);
            let ghost before = buf@;
            proof {
                lemma_first_newline(before, i as int);
            }
            if i == buf.len() {
                proof {
                    lemma_drain_idle(before);
                    assert(!before.contains(10u8));
                    assert(texts_view(out@) + seq![] =~= texts_view(out@));
                }
                self.pending = buf;
                return Ok(());
            }
            proof {
                lemma_drain_line(before, i as int);
            }
            let remain = buf.split_off(i + 1);
            buf.truncate(i);
            let line = buf;
            buf = remain;
            proof {
                assert(line@ =~= before.subrange(0, i as int));
            }
            match decode_line(line.as_slice()) {
                LineEvent::Skip => {},
                LineEvent::Done => {
                    proof {
                        assert(texts_view(out@) + seq![] =~= texts_view(out@));
                    }
                    self.finished = true;
                    self.pending = buf;
                    return Ok(());
                },
                LineEvent::Fragments(f) => {
                    let mut f = f;
                    let ghost prev = texts_view(out@);
                    let ghost fv = texts_view(f@);
                    out.append(&mut f);
                    proof {
                        assert(texts_view(out@) =~= prev + fv);
                        assert(prev + (fv + drain(buf@).fragments) =~= (prev + fv) + drain(
                            buf@,
                        ).fragments);
                    }
                },
                LineEvent::Failed(e) => {
                    proof {
                        assert(texts_view(out@) + seq![] =~= texts_view(out@));
                    }
                    self.finished = true;
                    self.pending = buf;
                    return Err(e);
                },
            }
        }
    }
}

} // verus!

verus! {

proof fn lemma_least_newline(b: Seq<u8>, k: int)
    requires
        0 <= k < b.len(),
        b[k] == 10u8,
    ensures
        exists|i: int| 0 <= i < b.len() && b[i] == 10u8 && forall|j: int| 0 <= j < i ==> b[j] != 10u8,
    decreases k,
{
    if exists|j: int| 0 <= j < k && b[j] == 10u8 {
        let j = choose|j: int| 0 <= j < k && b[j] == 10u8;
        lemma_least_newline(b, j);
    } else {
        assert(forall|j: int| 0 <= j < k ==> b[j] != 10u8);
    }
}

/// `first_newline` finds the first newline, and `None` means there is none.
proof fn lemma_first_newline_found(b: Seq<u8>)
    ensures
        match first_newline(b) {
            Some(i) => 0 <= i < b.len() && b[i] == 10u8 && forall|j: int| 0 <= j < i ==> b[j] != 10u8,
            None => forall|j: int| 0 <= j < b.len() ==> b[j] != 10u8,
        },
{
    if exists|i: int| 0 <= i < b.len() && b[i] == 10u8 {
        let k = choose|i: int| 0 <= i < b.len() && b[i] == 10u8;
        lemma_least_newline(b, k);
    }
}

/// Splitting the bytes of a stream into two chunks anywhere changes nothing
/// of what is decoded: what the first part gives, followed by what its
/// leftover bytes and the second part give, is what the whole gives. Once the
/// first part ends the stream, the second part adds nothing.
pub proof fn lemma_drain_split(a: Seq<u8>, b: Seq<u8>)
    ensures
        !drain(a).finished ==> drain(a + b) == (DrainModel {
            fragments: drain(a).fragments + drain(drain(a).rest + b).fragments,
            failure: drain(drain(a).rest + b).failure,
            rest: drain(drain(a).rest + b).rest,
            finished: drain(drain(a).rest + b).finished,
        }),
        drain(a).finished ==> drain(a + b).finished && drain(a + b).fragments == drain(a).fragments
            && drain(a + b).failure == drain(a).failure,
    decreases a.len(),
{
    lemma_first_newline_found(a);
    match first_newline(a) {
        None => {
            lemma_drain_idle(a);
            assert(drain(a).fragments + drain(a + b).fragments =~= drain(a + b).fragments);
        },
        Some(i) => {
            let ab = a + b;
            assert(ab[i] == a[i]);
            assert forall|j: int| 0 <= j < i implies ab[j] != 10u8 by {
                assert(ab[j] == a[j]);
            }
            lemma_first_newline(ab, i);
            lemma_drain_line(a, i);
            lemma_drain_line(ab, i);
            let ra = a.subrange(i + 1, a.len() as int);
            assert(ab.subrange(0, i) =~= a.subrange(0, i));
            assert(ab.subrange(i + 1, ab.len() as int) =~= ra + b);
            lemma_drain_split(ra, b);
            match line_event(a.subrange(0, i)) {
                LineModel::Outcome(Ok(f)) => {
                    if !drain(ra).finished {
                        assert(f + (drain(ra).fragments + drain(drain(ra).rest + b).fragments) =~= (f
                            + drain(ra).fragments) + drain(drain(ra).rest + b).fragments);
                    }
                },
                _ => {},
            }
        },
    }
}

/// A complete line that is not a payload line (a comment, a keep-alive) is
/// dropped: it yields no fragment and no failure, and decoding goes on with
/// the bytes after it.
pub proof fn lemma_non_payload_line_skipped(line: Seq<u8>, rest: Seq<u8>)
    requires
        forall|j: int| 0 <= j < line.len() ==> line[j] != 10u8,
        payload_of(trim(utf8_lossy(line))) is None,
    ensures
        drain(line.push(10u8) + rest) == drain(rest),
{
    let b = line.push(10u8) + rest;
    let n = line.len() as int;
    assert(b[n] == 10u8);
    assert forall|j: int| 0 <= j < n implies b[j] != 10u8 by {
        assert(b[j] == line[j]);
    }
    lemma_first_newline(b, n);
    lemma_drain_line(b, n);
    assert(b.subrange(0, n) =~= line);
    assert(b.subrange(n + 1, b.len() as int) =~= rest);
}

} // verus!
