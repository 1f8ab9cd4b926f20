//! Length-prefixed JSON framing: four bytes of length, the most significant
//! first, and then the document as UTF-8.

use crate::json;
use crate::json::Json;
use crate::text;
use crate::text::decimal_of;
use vstd::prelude::*;
use vstd::string::*;
use vstd::utf8::*;

verus! {

/// The largest message: 64 MiB. It bounds what a malformed length prefix can
/// have allocated.
pub const MAX_MESSAGE_SIZE: u32 = 67_108_864;

/// Why no message could be read.
#[derive(Debug)]
pub enum FrameError {
    /// The stream ended before the message did.
    UnexpectedEof,
    /// The message announces more bytes than a message may have.
    TooLarge(u32),
    /// The message is no JSON document.
    NotJson(String),
}

pub ghost enum FrameErrorView {
    UnexpectedEof,
    TooLarge(u32),
    NotJson(Seq<char>),
}

impl DeepView for FrameError {
    type V = FrameErrorView;

    open spec fn deep_view(&self) -> FrameErrorView {
        match self {
            FrameError::UnexpectedEof => FrameErrorView::UnexpectedEof,
            FrameError::TooLarge(n) => FrameErrorView::TooLarge(*n),
            FrameError::NotJson(e) => FrameErrorView::NotJson(e@),
        }
    }
}

impl FrameErrorView {
    /// The message of the error.
    pub open spec fn message(self) -> Seq<char> {
        match self {
            FrameErrorView::UnexpectedEof => "failed to fill whole buffer"@,
            FrameErrorView::TooLarge(n) => "message too large: "@ + text::decimal(n as nat)
                + " bytes (max "@ + text::decimal(MAX_MESSAGE_SIZE as nat) + ")"@,
            FrameErrorView::NotJson(e) => e,
        }
    }
}

impl FrameError {
    /// The message of the error.
    pub fn message(&self) -> (r: String)
        ensures
            r@ == self.deep_view().message(),
    {
        match self {
            FrameError::UnexpectedEof => "failed to fill whole buffer".to_owned(),
            FrameError::TooLarge(n) => {
                let mut r = "message too large: ".to_owned();
                r.push_str(decimal_of(*n as u64).as_str());
                r.push_str(" bytes (max ");
                r.push_str(decimal_of(MAX_MESSAGE_SIZE as u64).as_str());
                r.push_str(")");
                r
            },
            FrameError::NotJson(e) => e.clone(),
        }
    }
}

/// The four bytes of a length, the most significant first.
pub open spec fn be_bytes(n: int) -> Seq<u8> {
    seq![
        (n / 16777216 % 256) as u8,
        (n / 65536 % 256) as u8,
        (n / 256 % 256) as u8,
        (n % 256) as u8,
    ]
}

/// The number that four bytes stand for, the most significant first.
pub open spec fn be_number(b: Seq<u8>) -> int {
    b[0] * 16777216 + b[1] * 65536 + b[2] * 256 + b[3]
}

/// A message on the wire. A length that does not fit in four bytes is cut off.
pub open spec fn frame(payload: Seq<u8>) -> Seq<u8> {
    be_bytes(payload.len() as int) + payload
}

/// The bytes of a document.
pub open spec fn document_bytes(doc: json::JsonView) -> Seq<u8> {
    encode_utf8(json::json_text(doc))
}

/// Appends a message to the bytes written so far.
pub fn write_message(out: &mut Vec<u8>, msg: &Json)
    ensures
        final(out)@ == old(out)@ + frame(document_bytes(msg.deep_view())),
        json::plain(msg.deep_view(), json::read_depth()) ==> json::reads_as(
            json::json_text(msg.deep_view()),
            msg.deep_view(),
        ),
{
    let ghost start = out@;
    let text = msg.to_text();
    let payload = text.as_str().as_bytes();
    let n: u64 = payload.len() as u64;
    out.push((n / 16777216 % 256) as u8);
    out.push((n / 65536 % 256) as u8);
    out.push((n / 256 % 256) as u8);
    out.push((n % 256) as u8);
    assert(out@ =~= start + be_bytes(n as int));
    let mut i: usize = 0;
    assert(payload@.take(0) =~= Seq::empty());
    while i < payload.len()
        invariant
            i <= payload@.len(),
            out@ == start + be_bytes(n as int) + payload@.take(i as int),
        decreases payload@.len() - i,
    {
        out.push(payload[i]);
        assert(payload@.take(i + 1) =~= payload@.take(i as int).push(payload@[i as int]));
        assert(out@ =~= start + be_bytes(n as int) + payload@.take(i + 1));
        i += 1;
    }
    assert(payload@.take(i as int) =~= payload@);
    assert(out@ =~= start + frame(payload@));
}

/// The number of bytes that a message announces, where it is not too large.
pub open spec fn announced(header: Seq<u8>) -> Result<int, FrameErrorView> {
    let n = be_number(header);
    if n > MAX_MESSAGE_SIZE {
        Err(FrameErrorView::TooLarge(n as u32))
    } else {
        Ok(n)
    }
}

/// The number of bytes that follow the four that a message starts with.
pub fn message_len(header: [u8; 4]) -> (r: Result<usize, FrameError>)
    ensures
        match r {
            Ok(n) => announced(header@) == Ok::<int, FrameErrorView>(n as int),
            Err(e) => announced(header@) == Err::<int, FrameErrorView>(e.deep_view()),
        },
{
    let n: u32 = header[0] as u32 * 16777216 + header[1] as u32 * 65536 + header[2] as u32 * 256
        + header[3] as u32;
    if n > MAX_MESSAGE_SIZE {
        Err(FrameError::TooLarge(n))
    } else {
        Ok(n as usize)
    }
}

/// The document that the bytes of a message hold: what their text holds, or, of
/// bytes that are no UTF-8, the error in them.
pub open spec fn document(payload: Seq<u8>) -> Result<json::JsonView, FrameErrorView> {
    let read = if valid_utf8(payload) {
        json::json_parsed(decode_utf8(payload))
    } else {
        json::json_read(payload)
    };
    match read {
        Ok(doc) => Ok(doc),
        Err(e) => Err(FrameErrorView::NotJson(e)),
    }
}

/// The document that the bytes of a message hold.
pub fn document_of(payload: &[u8]) -> (r: Result<Json, FrameError>)
    ensures
        match r {
            Ok(doc) => document(payload@) == Ok::<json::JsonView, FrameErrorView>(doc.deep_view()),
            Err(e) => document(payload@) == Err::<json::JsonView, FrameErrorView>(e.deep_view()),
        },
        !valid_utf8(payload@) ==> r is Err,
{
    match Json::read(payload) {
        Ok(doc) => Ok(doc),
        Err(e) => Err(FrameError::NotJson(e)),
    }
}

/// The message at position `at` of a stream, and the position after it.
pub open spec fn message_at(stream: Seq<u8>, at: int) -> Result<
    (json::JsonView, int),
    FrameErrorView,
> {
    if at + 4 > stream.len() {
        Err(FrameErrorView::UnexpectedEof)
    } else {
        match announced(stream.subrange(at, at + 4)) {
            Err(e) => Err(e),
            Ok(n) => if at + 4 + n > stream.len() {
                Err(FrameErrorView::UnexpectedEof)
            } else {
                match document(stream.subrange(at + 4, at + 4 + n)) {
                    Err(e) => Err(e),
                    Ok(doc) => Ok((doc, at + 4 + n)),
                }
            },
        }
    }
}

/// Reads the message at position `at` of a stream. Returns it with the
/// position after it.
pub fn read_message(stream: &Vec<u8>, at: usize) -> (r: Result<(Json, usize), FrameError>)
    requires
        at <= stream@.len(),
    ensures
        match r {
            Ok(found) => message_at(stream@, at as int) == Ok::<
                (json::JsonView, int),
                FrameErrorView,
            >((found.0.deep_view(), found.1 as int)),
            Err(e) => message_at(stream@, at as int) == Err::<
                (json::JsonView, int),
                FrameErrorView,
            >(e.deep_view()),
        },
{
    let left: usize = stream.len() - at;
    if left < 4 {
        return Err(FrameError::UnexpectedEof);
    }
    let header: [u8; 4] = [stream[at], stream[at + 1], stream[at + 2], stream[at + 3]];
    assert(header@ =~= stream@.subrange(at as int, at + 4));
    let n: usize = match message_len(header) {
        Ok(n) => n,
        Err(e) => {
            return Err(e);
        },
    };
    if left - 4 < n {
        return Err(FrameError::UnexpectedEof);
    }
    let payload = vstd::slice::slice_subrange(stream.as_slice(), at + 4, at + 4 + n);
    match document_of(payload) {
        Ok(doc) => Ok((doc, at + 4 + n)),
        Err(e) => Err(e),
    }
}

// ---------------------------------------------------------------------------
// Laws
// ---------------------------------------------------------------------------

proof fn lemma_be(n: int)
    requires
        0 <= n < 4294967296,
    ensures
        be_number(be_bytes(n)) == n,
{
    let b = be_bytes(n);
    assert(b[0] == n / 16777216 % 256);
    assert(b[1] == n / 65536 % 256);
    assert(b[2] == n / 256 % 256);
    assert(b[3] == n % 256);
}

/// A message that is written to a stream, with whatever before it and after it,
/// is read back, and reading goes on behind it. This holds of every document
/// whose own text reads back as it, which is all that a message can keep of it.
pub proof fn law_a_message_reads_back(before: Seq<u8>, doc: json::JsonView, after: Seq<u8>)
    requires
        document_bytes(doc).len() <= MAX_MESSAGE_SIZE,
        json::reads_as(json::json_text(doc), doc),
    ensures
        message_at(before + frame(document_bytes(doc)) + after, before.len() as int) == Ok::<
            (json::JsonView, int),
            FrameErrorView,
        >((doc, (before.len() + frame(document_bytes(doc)).len()) as int)),
{
    let payload = document_bytes(doc);
    let stream = before + frame(payload) + after;
    let at = before.len() as int;
    let n = payload.len() as int;
    lemma_be(n);
    assert(stream.subrange(at, at + 4) =~= be_bytes(n));
    assert(stream.subrange(at + 4, at + 4 + n) =~= payload);
    encode_utf8_valid_utf8(json::json_text(doc));
    encode_utf8_decode_utf8(json::json_text(doc));
}

/// Some messages on the wire, one after the other.
pub open spec fn frames(docs: Seq<json::JsonView>) -> Seq<u8>
    decreases docs.len(),
{
    if docs.len() == 0 {
        Seq::empty()
    } else {
        frame(document_bytes(docs[0])) + frames(docs.drop_first())
    }
}

/// Whether reading on from position `at` of a stream gives exactly some
/// documents and then finds the end of the stream.
pub open spec fn reads_on(stream: Seq<u8>, at: int, docs: Seq<json::JsonView>) -> bool
    decreases docs.len(),
{
    if docs.len() == 0 {
        message_at(stream, at) == Err::<(json::JsonView, int), FrameErrorView>(
            FrameErrorView::UnexpectedEof,
        )
    } else {
        match message_at(stream, at) {
            Ok(found) => found.0 == docs[0] && reads_on(stream, found.1, docs.drop_first()),
            Err(_) => false,
        }
    }
}

/// Several messages on one stream are read back in the order in which they were
/// written, and one more read finds the end of the stream.
pub proof fn law_messages_read_back(before: Seq<u8>, docs: Seq<json::JsonView>)
    requires
        forall|i: int|
            0 <= i < docs.len() ==> document_bytes(#[trigger] docs[i]).len() <= MAX_MESSAGE_SIZE
                && json::reads_as(json::json_text(docs[i]), docs[i]),
    ensures
        reads_on(before + frames(docs), before.len() as int, docs),
    decreases docs.len(),
{
    if docs.len() > 0 {
        let first = frame(document_bytes(docs[0]));
        let rest = docs.drop_first();
        law_a_message_reads_back(before, docs[0], frames(rest));
        assert forall|i: int| 0 <= i < rest.len() implies document_bytes(#[trigger] rest[i]).len()
            <= MAX_MESSAGE_SIZE && json::reads_as(json::json_text(rest[i]), rest[i]) by {
            assert(rest[i] == docs[i + 1]);
        }
        law_messages_read_back(before + first, rest);
        assert(before + frames(docs) =~= before + first + frames(rest));
    }
}

/// A message that announces more bytes than a message may have is refused,
/// whatever follows.
pub proof fn law_oversized_messages_are_refused(stream: Seq<u8>, n: int, after: Seq<u8>)
    requires
        MAX_MESSAGE_SIZE < n < 4294967296,
    ensures
        message_at(stream + be_bytes(n) + after, stream.len() as int) == Err::<
            (json::JsonView, int),
            FrameErrorView,
        >(FrameErrorView::TooLarge(n as u32)),
{
    lemma_be(n);
    let at = stream.len() as int;
    assert((stream + be_bytes(n) + after).subrange(at, at + 4) =~= be_bytes(n));
}

/// The length stands before the message in four bytes, the most significant first,
/// and the message follows as it is.
pub proof fn law_the_length_stands_first(payload: Seq<u8>, n: int, d: int)
    requires
        0 <= n < 16777216,
        0 <= d < 256,
    ensures
        frame(payload).len() == payload.len() + 4,
        frame(payload).take(4) == be_bytes(payload.len() as int),
        frame(payload).skip(4) == payload,
        be_bytes(d) == seq![0u8, 0u8, 0u8, d as u8],
        be_bytes(n * 256 + d) == be_bytes(n).skip(1).push(d as u8),
        MAX_MESSAGE_SIZE == 64 * 1024 * 1024,
{
    assert(frame(payload).take(4) =~= be_bytes(payload.len() as int));
    assert(frame(payload).skip(4) =~= payload);
    assert(be_bytes(d) =~= seq![0u8, 0u8, 0u8, d as u8]);
    let m = n * 256 + d;
    assert(m / 256 == n);
    assert(m % 256 == d);
    assert(m / 65536 == n / 256);
    assert(m / 16777216 == n / 65536);
    assert(be_bytes(m) =~= be_bytes(n).skip(1).push(d as u8));
}

/// A stream that ends within a message has no further message in it.
pub proof fn law_messages_cut_off_are_refused(stream: Seq<u8>, payload: Seq<u8>, n: int)
    requires
        payload.len() <= MAX_MESSAGE_SIZE,
        0 <= n < payload.len() + 4,
    ensures
        message_at(stream + frame(payload).take(n), stream.len() as int) == Err::<
            (json::JsonView, int),
            FrameErrorView,
        >(FrameErrorView::UnexpectedEof),
{
    let whole = stream + frame(payload).take(n);
    if n >= 4 {
        assert(whole.subrange(stream.len() as int, stream.len() as int + 4) =~= be_bytes(
            payload.len() as int,
        ));
        lemma_be(payload.len() as int);
    }
}

/// The message of an error says what is wrong, and how large a message was.
pub proof fn law_errors_are_told(n: u32, e: Seq<char>)
    ensures
        FrameErrorView::UnexpectedEof.message() == "failed to fill whole buffer"@,
        FrameErrorView::TooLarge(n).message() == "message too large: "@ + text::decimal(n as nat)
            + " bytes (max "@ + text::decimal(67_108_864) + ")"@,
        FrameErrorView::NotJson(e).message() == e,
{
}

} // verus!
