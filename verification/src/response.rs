//! Typed extraction of responses, and body buffers that never grow beyond their limit.
//!
//! | Extractor | Accepts | Body on success |
//! | :--- | :--- | :--- |
//! | [`Json`] | 2xx | read up to the body limit, then decoded |
//! | [`Xml`] | 2xx | read up to the body limit, then decoded |
//! | [`Raw`] | 2xx | not read: the response is handed on |
//! | `()` | 2xx and 3xx | not read |
//!
//! Whatever is not accepted becomes [`MoonError::ApiError`] with the body as its message, of which
//! at most [`DEFAULT_ERROR_BODY_LIMIT`] bytes are read.

use vstd::prelude::*;

use crate::error::MoonError;

verus! {

/// How much of the body of an error response is read: 64 KiB.
pub const DEFAULT_ERROR_BODY_LIMIT: usize = 65_536;

/// How much of the body of a successful response is read unless set otherwise: 16 MiB.
pub const DEFAULT_BODY_LIMIT: usize = 16_777_216;

/// The first `limit` bytes of a stream, or all of it if it is shorter.
pub open spec fn bounded(stream: Seq<u8>, limit: nat) -> Seq<u8> {
    if stream.len() <= limit {
        stream
    } else {
        stream.take(limit as int)
    }
}

/// The text that [`String::from_utf8_lossy`] makes of bytes.
pub uninterp spec fn utf8_lossy(bytes: Seq<u8>) -> Seq<char>;

/// Calls [`String::from_utf8_lossy`]: bytes that are valid UTF-8 become the text they encode;
/// what is not valid in others becomes a replacement character.
#[verifier::external_body]
fn decode_lossy(bytes: &Vec<u8>) -> (text: String)
    ensures
        text@ == utf8_lossy(bytes@),
        vstd::utf8::valid_utf8(bytes@) ==> text@ == vstd::utf8::decode_utf8(bytes@),
{
    String::from_utf8_lossy(bytes).into_owned()
}

/// Collects a body chunk by chunk, up to a limit.
#[derive(Debug)]
pub struct BodyBuffer {
    bytes: Vec<u8>,
    limit: usize,
    full: bool,
}

impl BodyBuffer {
    #[verifier::type_invariant]
    spec fn stays_within_limit(self) -> bool {
        self.bytes@.len() <= self.limit && (self.full ==> self.bytes@.len() == self.limit)
    }

    /// The bytes kept so far.
    pub closed spec fn bytes(&self) -> Seq<u8> {
        self.bytes@
    }

    /// The most bytes that are kept.
    pub closed spec fn limit(&self) -> nat {
        self.limit as nat
    }

    /// Whether bytes had to be left out. No more chunks are wanted then.
    pub closed spec fn is_full(&self) -> bool {
        self.full
    }

    /// An empty buffer that keeps at most `limit` bytes.
    pub fn new(limit: usize) -> (buffer: BodyBuffer)
        ensures
            buffer.bytes() == Seq::<u8>::empty(),
            buffer.limit() == limit,
            !buffer.is_full(),
    {
        BodyBuffer { bytes: Vec::new(), limit, full: false }
    }

    /// Takes the next chunk, as far as the limit allows. The result says whether more chunks are
    /// wanted: they are until one does not fit.
    pub fn push_chunk(&mut self, chunk: &[u8]) -> (more: bool)
        ensures
            final(self).limit() == old(self).limit(),
            final(self).bytes().len() <= final(self).limit(),
            final(self).bytes() == (if old(self).is_full() {
                old(self).bytes()
            } else {
                bounded(old(self).bytes() + chunk@, old(self).limit())
            }),
            final(self).is_full() == (old(self).is_full() || old(self).bytes().len() + chunk@.len()
                > old(self).limit()),
            more == !final(self).is_full(),
    {
        proof {
            use_type_invariant(&*self);
        }
        if self.full {
            return false;
        }
        let limit: usize = self.limit;
        let mut bytes: Vec<u8> = Vec::new();
        std::mem::swap(&mut bytes, &mut self.bytes);
        let ghost before = bytes@;
        let remaining: usize = limit - bytes.len();
        if chunk.len() > remaining {
            let part = vstd::slice::slice_subrange(chunk, 0, remaining);
            bytes.extend_from_slice(part);
            proof {
                assert(bytes@ =~= before + part@);
                assert(bytes@ =~= (before + chunk@).take(limit as int));
            }
            self.bytes = bytes;
            self.full = true;
            false
        } else {
            bytes.extend_from_slice(chunk);
            assert(bytes@ =~= before + chunk@);
            self.bytes = bytes;
            true
        }
    }

    /// The text of what was kept.
    pub fn into_text(self) -> (text: String)
        ensures
            text@ == utf8_lossy(self.bytes()),
            vstd::utf8::valid_utf8(self.bytes()) ==> text@ == vstd::utf8::decode_utf8(
                self.bytes(),
            ),
    {
        decode_lossy(&self.bytes)
    }
}

/// What the transport yields for one read: a chunk, or the text of an error.
pub type ChunkResult = Result<Vec<u8>, String>;

/// The bytes that arrive before the first failure, or before the end.
pub open spec fn stream_of(chunks: Seq<ChunkResult>) -> Seq<u8>
    decreases chunks.len(),
{
    if chunks.len() == 0 {
        Seq::empty()
    } else {
        match chunks[0] {
            Ok(chunk) => chunk@ + stream_of(chunks.skip(1)),
            Err(_) => Seq::empty(),
        }
    }
}

/// The first failure.
pub open spec fn failure_of(chunks: Seq<ChunkResult>) -> Option<String>
    decreases chunks.len(),
{
    if chunks.len() == 0 {
        None
    } else {
        match chunks[0] {
            Ok(_) => failure_of(chunks.skip(1)),
            Err(text) => Some(text),
        }
    }
}

/// Reads a body from what the transport yields, up to `max_size` bytes, and turns it into text.
///
/// Reading stops at the first chunk that does not fit: what comes after it, a failure included, is
/// not looked at. A failure before that becomes [`MoonError::Network`].
pub fn read_response_text_bounded(chunks: Vec<ChunkResult>, max_size: usize) -> (text: Result<
    String,
    MoonError,
>)
    ensures
        text is Ok <==> (stream_of(chunks@).len() > max_size || failure_of(chunks@) is None),
        match text {
            Ok(text) => text@ == utf8_lossy(bounded(stream_of(chunks@), max_size as nat)) && (
            vstd::utf8::valid_utf8(bounded(stream_of(chunks@), max_size as nat)) ==> text@
                == vstd::utf8::decode_utf8(bounded(stream_of(chunks@), max_size as nat))),
            Err(error) => failure_of(chunks@) matches Some(failure) && error == MoonError::Network(
                failure,
            ),
        },
{
    let mut buffer = BodyBuffer::new(max_size);
    let ghost all = chunks@;
    assert(all.skip(0) =~= all);
    let mut i: usize = 0;
    let mut more = true;
    while i < chunks.len() && more
        invariant
            all == chunks@,
            i <= all.len(),
            buffer.limit() == max_size,
            more == !buffer.is_full(),
            more ==> buffer.bytes().len() <= max_size,
            more ==> stream_of(all) == buffer.bytes() + stream_of(all.skip(i as int)),
            more ==> failure_of(all) == failure_of(all.skip(i as int)),
            !more ==> stream_of(all).len() > max_size && buffer.bytes() == bounded(
                stream_of(all),
                max_size as nat,
            ),
        decreases chunks.len() - i,
    {
        let ghost rest = all.skip(i as int);
        let ghost before = buffer.bytes();
        assert(rest[0] == all[i as int]);
        assert(rest.skip(1) =~= all.skip(i + 1));
        match &chunks[i] {
            Ok(chunk) => {
                more = buffer.push_chunk(chunk.as_slice());
                proof {
                    let after = stream_of(all.skip(i + 1));
                    assert(before + (chunk@ + after) =~= (before + chunk@) + after);
                    if !more {
                        assert(stream_of(all).take(max_size as int) =~= (before + chunk@).take(
                            max_size as int,
                        ));
                    }
                }
            },
            Err(failure) => {
                proof {
                    assert(stream_of(rest) =~= Seq::<u8>::empty());
                    assert(stream_of(all) =~= before);
                }
                return Err(MoonError::Network(failure.clone()));
            },
        }
        i = i + 1;
    }
    proof {
        if more {
            assert(all.skip(i as int) =~= Seq::<ChunkResult>::empty());
            assert(stream_of(all) =~= buffer.bytes());
        }
    }
    Ok(buffer.into_text())
}

/// Cutting a stream into parts does not change what is kept of it: what is kept of the first part
/// decides, together with the second part, what is kept of both.
pub proof fn law_parts_are_read_as_a_whole(first: Seq<u8>, second: Seq<u8>, limit: nat)
    ensures
        bounded(bounded(first, limit) + second, limit) == bounded(first + second, limit),
{
    if first.len() > limit {
        assert((first.take(limit as int) + second).take(limit as int) =~= (first + second).take(
            limit as int,
        ));
    }
}

/// A read never keeps more than the limit, and keeps a prefix of the stream: all of it if it fits, and
/// as much as the limit allows if it does not.
pub proof fn law_read_is_bounded(stream: Seq<u8>, limit: nat)
    ensures
        bounded(stream, limit).len() <= limit,
        bounded(stream, limit).is_prefix_of(stream),
        stream.len() <= limit ==> bounded(stream, limit) == stream,
        stream.len() >= limit ==> bounded(stream, limit).len() == limit,
        forall|i: int|
            0 <= i < bounded(stream, limit).len() ==> bounded(stream, limit)[i] == stream[i],
{
    assert(stream.take(stream.len() as int) =~= stream);
}

/// A status from 200 to 299.
pub open spec fn is_success(status: u16) -> bool {
    200 <= status < 300
}

/// A status from 300 to 399.
pub open spec fn is_redirection(status: u16) -> bool {
    300 <= status < 400
}

/// A status from 400 to 499.
pub open spec fn is_client_error(status: u16) -> bool {
    400 <= status < 500
}

/// A status from 500 to 599.
pub open spec fn is_server_error(status: u16) -> bool {
    500 <= status < 600
}

/// What to do with the body of a response.
#[derive(Clone, Copy, Debug, PartialEq, Eq, Structural)]
pub enum BodyPlan {
    /// Leave it unread.
    Skip,
    /// Read it as text, up to this many bytes.
    Read { limit: usize },
}

/// The plan for the body of a response: error bodies are read under their own limit, accepted ones
/// under `body_limit`, and only if the extractor looks at them.
pub open spec fn planned(accepted: bool, reads_body: bool, body_limit: usize) -> BodyPlan {
    if !accepted {
        BodyPlan::Read { limit: DEFAULT_ERROR_BODY_LIMIT }
    } else if reads_body {
        BodyPlan::Read { limit: body_limit }
    } else {
        BodyPlan::Skip
    }
}

/// A value that can be extracted from a response.
pub trait FromResponse: Sized {
    /// What is supplied from outside for an accepted response, such as the outcome of decoding its
    /// text.
    type Supply;

    /// Whether a response with this status is accepted.
    spec fn accepts(status: u16) -> bool;

    /// Whether the body of an accepted response is looked at.
    spec fn reads_body() -> bool;

    /// `out` is what comes of the text of an accepted response and of what was supplied for it.
    spec fn is_assembled(text: String, supply: Self::Supply, out: Result<Self, MoonError>) -> bool;

    /// Whether a response with this status is accepted.
    fn accepts_status(status: u16) -> (accepted: bool)
        ensures
            accepted == Self::accepts(status),
    ;

    /// Puts together the text of an accepted response and what was supplied for it.
    fn assemble(text: String, supply: Self::Supply) -> (out: Result<Self, MoonError>)
        ensures
            Self::is_assembled(text, supply, out),
    ;

    /// What to do with the body of a response that has this status.
    fn body_plan(status: u16, body_limit: usize) -> (plan: BodyPlan)
        ensures
            plan == planned(Self::accepts(status), Self::reads_body(), body_limit),
    ;

    /// Extracts the value from the status of a response and from its body as text. `supply` is
    /// asked, with that text, only if the status is accepted; any other becomes
    /// [`MoonError::ApiError`] with the text as its message.
    fn from_response<F: FnOnce(&String) -> Self::Supply>(
        status: u16,
        text: String,
        supply: F,
    ) -> (out: Result<Self, MoonError>)
        requires
            Self::accepts(status) ==> supply.requires((&text,)),
        ensures
            !Self::accepts(status) ==> out == Err::<Self, MoonError>(
                MoonError::ApiError { code: status, message: text },
            ),
            Self::accepts(status) ==> exists|supplied: Self::Supply| #[trigger]
                supply.ensures((&text,), supplied) && Self::is_assembled(text, supplied, out),
    {
        if Self::accepts_status(status) {
            let supplied = supply(&text);
            Self::assemble(text, supplied)
        } else {
            Err(MoonError::ApiError { code: status, message: text })
        }
    }
}

/// Chooses the plan for a body.
fn choose_plan(accepted: bool, reads_body: bool, body_limit: usize) -> (plan: BodyPlan)
    ensures
        plan == planned(accepted, reads_body, body_limit),
{
    if !accepted {
        BodyPlan::Read { limit: DEFAULT_ERROR_BODY_LIMIT }
    } else if reads_body {
        BodyPlan::Read { limit: body_limit }
    } else {
        BodyPlan::Skip
    }
}

impl FromResponse for () {
    type Supply = ();

    open spec fn accepts(status: u16) -> bool {
        is_success(status) || is_redirection(status)
    }

    open spec fn reads_body() -> bool {
        false
    }

    open spec fn is_assembled(text: String, supply: (), out: Result<(), MoonError>) -> bool {
        out == Ok::<(), MoonError>(())
    }

    fn accepts_status(status: u16) -> (accepted: bool) {
        200 <= status && status < 400
    }

    fn assemble(text: String, supply: ()) -> (out: Result<(), MoonError>) {
        Ok(())
    }

    fn body_plan(status: u16, body_limit: usize) -> (plan: BodyPlan) {
        choose_plan(Self::accepts_status(status), false, body_limit)
    }
}

/// The response itself, for callers that read its body on their own.
#[derive(Debug)]
pub struct Raw<R>(pub R);

impl<R> FromResponse for Raw<R> {
    type Supply = R;

    open spec fn accepts(status: u16) -> bool {
        is_success(status)
    }

    open spec fn reads_body() -> bool {
        false
    }

    open spec fn is_assembled(text: String, supply: R, out: Result<Raw<R>, MoonError>) -> bool {
        out == Ok::<Raw<R>, MoonError>(Raw(supply))
    }

    fn accepts_status(status: u16) -> (accepted: bool) {
        200 <= status && status < 300
    }

    fn assemble(text: String, supply: R) -> (out: Result<Raw<R>, MoonError>) {
        Ok(Raw(supply))
    }

    fn body_plan(status: u16, body_limit: usize) -> (plan: BodyPlan) {
        choose_plan(Self::accepts_status(status), false, body_limit)
    }
}

/// The outcome of decoding a text, given the value or what the decoder said about the text.
pub open spec fn is_decoded<T, E>(
    text: String,
    outcome: Result<T, String>,
    out: Result<E, MoonError>,
    wrap: spec_fn(T) -> E,
) -> bool {
    match outcome {
        Ok(value) => out == Ok::<E, MoonError>(wrap(value)),
        Err(error_message) => out == Err::<E, MoonError>(
            MoonError::ResponseDecode { error_message, raw: text },
        ),
    }
}

/// A value decoded from a JSON body.
#[derive(Debug)]
pub struct Json<T>(pub T);

impl<T> FromResponse for Json<T> {
    type Supply = Result<T, String>;

    open spec fn accepts(status: u16) -> bool {
        is_success(status)
    }

    open spec fn reads_body() -> bool {
        true
    }

    open spec fn is_assembled(
        text: String,
        supply: Result<T, String>,
        out: Result<Json<T>, MoonError>,
    ) -> bool {
        is_decoded(text, supply, out, |value: T| Json(value))
    }

    fn accepts_status(status: u16) -> (accepted: bool) {
        200 <= status && status < 300
    }

    fn assemble(text: String, supply: Result<T, String>) -> (out: Result<Json<T>, MoonError>) {
        match supply {
            Ok(value) => Ok(Json(value)),
            Err(error_message) => Err(MoonError::ResponseDecode { error_message, raw: text }),
        }
    }

    fn body_plan(status: u16, body_limit: usize) -> (plan: BodyPlan) {
        choose_plan(Self::accepts_status(status), true, body_limit)
    }
}

/// A value decoded from an XML body.
#[derive(Debug)]
pub struct Xml<T>(pub T);

impl<T> FromResponse for Xml<T> {
    type Supply = Result<T, String>;

    open spec fn accepts(status: u16) -> bool {
        is_success(status)
    }

    open spec fn reads_body() -> bool {
        true
    }

    open spec fn is_assembled(
        text: String,
        supply: Result<T, String>,
        out: Result<Xml<T>, MoonError>,
    ) -> bool {
        is_decoded(text, supply, out, |value: T| Xml(value))
    }

    fn accepts_status(status: u16) -> (accepted: bool) {
        200 <= status && status < 300
    }

    fn assemble(text: String, supply: Result<T, String>) -> (out: Result<Xml<T>, MoonError>) {
        match supply {
            Ok(value) => Ok(Xml(value)),
            Err(error_message) => Err(MoonError::ResponseDecode { error_message, raw: text }),
        }
    }

    fn body_plan(status: u16, body_limit: usize) -> (plan: BodyPlan) {
        choose_plan(Self::accepts_status(status), true, body_limit)
    }
}

/// No extractor accepts an error status: whatever is extracted, the caller of a request that was
/// answered with 4xx or 5xx gets [`MoonError::ApiError`].
pub proof fn law_error_statuses_are_refused<T>(status: u16)
    requires
        is_client_error(status) || is_server_error(status),
    ensures
        !<() as FromResponse>::accepts(status),
        !<Raw<T> as FromResponse>::accepts(status),
        !<Json<T> as FromResponse>::accepts(status),
        !<Xml<T> as FromResponse>::accepts(status),
{
}

/// Every extractor accepts every status from 200 to 299. Nothing but the empty extractor accepts
/// another: it takes every status from 300 to 399 too.
pub proof fn law_successes_are_accepted<T>(status: u16)
    ensures
        <() as FromResponse>::accepts(status) <==> 200 <= status <= 399,
        <Raw<T> as FromResponse>::accepts(status) <==> 200 <= status <= 299,
        <Json<T> as FromResponse>::accepts(status) <==> 200 <= status <= 299,
        <Xml<T> as FromResponse>::accepts(status) <==> 200 <= status <= 299,
{
}

/// Of a refused response at most 65 536 bytes are read, whatever the extractor and the limit for
/// accepted ones. Of an accepted one as much is read as its own limit says by the extractors that
/// decode, and nothing by the others.
pub proof fn law_bodies_are_read_under_their_limit<T>(status: u16, body_limit: usize)
    ensures
        ({
            let json = planned(
                <Json<T> as FromResponse>::accepts(status),
                <Json<T> as FromResponse>::reads_body(),
                body_limit,
            );
            let xml = planned(
                <Xml<T> as FromResponse>::accepts(status),
                <Xml<T> as FromResponse>::reads_body(),
                body_limit,
            );
            let raw = planned(
                <Raw<T> as FromResponse>::accepts(status),
                <Raw<T> as FromResponse>::reads_body(),
                body_limit,
            );
            let nothing = planned(
                <() as FromResponse>::accepts(status),
                <() as FromResponse>::reads_body(),
                body_limit,
            );
            &&& 200 <= status <= 299 ==> json == (BodyPlan::Read { limit: body_limit })
            &&& 200 <= status <= 299 ==> xml == (BodyPlan::Read { limit: body_limit })
            &&& 200 <= status <= 299 ==> raw == BodyPlan::Skip
            &&& 200 <= status <= 399 ==> nothing == BodyPlan::Skip
            &&& !(200 <= status <= 299) ==> json == (BodyPlan::Read { limit: 65_536 })
            &&& !(200 <= status <= 299) ==> xml == (BodyPlan::Read { limit: 65_536 })
            &&& !(200 <= status <= 299) ==> raw == (BodyPlan::Read { limit: 65_536 })
            &&& !(200 <= status <= 399) ==> nothing == (BodyPlan::Read { limit: 65_536 })
        }),
{
}

/// What is decoded is handed on as it is. What cannot be decoded is reported in the decoder's words
/// together with the whole text. The raw response is handed on as it is.
pub proof fn law_extraction_hands_on<T>(
    text: String,
    outcome: Result<T, String>,
    response: T,
    json: Result<Json<T>, MoonError>,
    xml: Result<Xml<T>, MoonError>,
    raw: Result<Raw<T>, MoonError>,
    nothing: Result<(), MoonError>,
)
    requires
        <Json<T> as FromResponse>::is_assembled(text, outcome, json),
        <Xml<T> as FromResponse>::is_assembled(text, outcome, xml),
        <Raw<T> as FromResponse>::is_assembled(text, response, raw),
        <() as FromResponse>::is_assembled(text, (), nothing),
    ensures
        json is Ok <==> outcome is Ok,
        xml is Ok <==> outcome is Ok,
        json matches Ok(Json(value)) ==> outcome == Ok::<T, String>(value),
        xml matches Ok(Xml(value)) ==> outcome == Ok::<T, String>(value),
        json matches Err(error) ==> (error matches MoonError::ResponseDecode { error_message, raw }
            && outcome == Err::<T, String>(error_message) && raw == text),
        xml matches Err(error) ==> (error matches MoonError::ResponseDecode { error_message, raw }
            && outcome == Err::<T, String>(error_message) && raw == text),
        raw matches Ok(Raw(value)) && value == response,
        nothing is Ok,
{
}

/// A body is its chunks in order, up to the first failure: a further chunk comes last, and what comes
/// after a failure is not part of it.
pub proof fn law_body_is_its_chunks(chunks: Seq<ChunkResult>, next: ChunkResult)
    ensures
        stream_of(Seq::<ChunkResult>::empty()) == Seq::<u8>::empty(),
        failure_of(Seq::<ChunkResult>::empty()) is None,
        failure_of(chunks) is Some ==> stream_of(chunks.push(next)) == stream_of(chunks)
            && failure_of(chunks.push(next)) == failure_of(chunks),
        failure_of(chunks) is None ==> match next {
            Ok(chunk) => stream_of(chunks.push(next)) == stream_of(chunks) + chunk@ && failure_of(
                chunks.push(next),
            ) is None,
            Err(text) => stream_of(chunks.push(next)) == stream_of(chunks) && failure_of(
                chunks.push(next),
            ) == Some(text),
        },
    decreases chunks.len(),
{
    let longer = chunks.push(next);
    if chunks.len() == 0 {
        assert(longer.skip(1) =~= Seq::<ChunkResult>::empty());
        assert(stream_of(longer.skip(1)) =~= Seq::<u8>::empty());
        assert(longer[0] == next);
        assert(stream_of(chunks) =~= Seq::<u8>::empty());
        if let Ok(chunk) = next {
            assert(stream_of(longer) =~= stream_of(chunks) + chunk@);
        }
    } else {
        law_body_is_its_chunks(chunks.skip(1), next);
        assert(longer.skip(1) =~= chunks.skip(1).push(next));
        assert(longer[0] == chunks[0]);
        if let Ok(first) = chunks[0] {
            if let Ok(chunk) = next {
                assert(first@ + (stream_of(chunks.skip(1)) + chunk@) =~= (first@ + stream_of(
                    chunks.skip(1),
                )) + chunk@);
            }
        }
    }
}

/// What the extractors answer about a status, and what they plan to read.
pub proof fn law_extractors_answer_by_status<T>(
    status: u16,
    limit: usize,
    nothing: bool,
    raw: bool,
    json: bool,
    xml: bool,
    json_plan: BodyPlan,
    nothing_plan: BodyPlan,
)
    requires
        call_ensures(<() as FromResponse>::accepts_status, (status,), nothing),
        call_ensures(<Raw<T> as FromResponse>::accepts_status, (status,), raw),
        call_ensures(<Json<T> as FromResponse>::accepts_status, (status,), json),
        call_ensures(<Xml<T> as FromResponse>::accepts_status, (status,), xml),
        call_ensures(<Json<T> as FromResponse>::body_plan, (status, limit), json_plan),
        call_ensures(<() as FromResponse>::body_plan, (status, limit), nothing_plan),
    ensures
        nothing <==> 200 <= status <= 399,
        raw <==> 200 <= status <= 299,
        json <==> 200 <= status <= 299,
        xml <==> 200 <= status <= 299,
        json_plan == (BodyPlan::Read {
            limit: if 200 <= status <= 299 {
                limit
            } else {
                65_536
            },
        }),
        nothing_plan == if 200 <= status <= 399 {
            BodyPlan::Skip
        } else {
            BodyPlan::Read { limit: 65_536 }
        },
{
}

/// A buffer keeps what it is given, byte by byte, until its limit is reached, and wants more exactly
/// as long as everything has fit.
pub proof fn law_buffer_keeps_what_fits(buffer: &mut BodyBuffer, chunk: &[u8], more: bool)
    requires
        call_ensures(BodyBuffer::push_chunk, (buffer, chunk), more),
        !old(buffer).is_full(),
        old(buffer).bytes().len() <= old(buffer).limit(),
    ensures
        ({
            let whole = old(buffer).bytes() + chunk@;
            &&& more <==> whole.len() <= old(buffer).limit()
            &&& more ==> final(buffer).bytes() == whole
            &&& !more ==> final(buffer).bytes() == whole.take(old(buffer).limit() as int)
            &&& final(buffer).limit() == old(buffer).limit()
        }),
{
}

} // verus!
