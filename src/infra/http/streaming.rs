//! A size-bounded response body: what to do with each chunk that arrives.
//!
//! The transport performs the request and hands every event of the body
//! (a chunk, a failure, the end) to a `ResponseStream`, which counts bytes
//! against the cap and says whether to deliver, fail or stop.

use crate::domain::fetch::error::FetchError;
use vstd::prelude::*;
use vstd::utf8::{decode_utf8, valid_utf8};

verus! {

/// Byte counter of one response body, with its cap and terminal flag.
#[derive(Debug, Clone, Copy, PartialEq, Eq)]
pub struct ResponseStream {
    bytes_received: usize,
    max_size: usize,
    finished: bool,
}

/// What the transport produced next.
#[derive(Debug)]
pub enum Upstream {
    /// A chunk of the body
    Chunk(Vec<u8>),
    /// The transport failed
    Failed(FetchError),
    /// The body ended
    End,
}

/// What to hand to the consumer.
#[derive(Debug)]
pub enum StreamStep {
    /// The chunk, within the cap
    Deliver(Vec<u8>),
    /// The terminal error of the stream
    Fail(FetchError),
    /// Nothing more: the stream has ended
    Done,
}

/// The outcome of a chunk, as the consumer sees it.
pub enum ChunkOutcome {
    Deliver,
    TooLarge,
    Ended,
}

impl ResponseStream {
    /// Bytes counted so far (saturating at the largest `usize`).
    pub closed spec fn received(self) -> nat {
        self.bytes_received as nat
    }

    pub closed spec fn cap(self) -> nat {
        self.max_size as nat
    }

    pub closed spec fn terminal(self) -> bool {
        self.finished
    }

    /// A live stream has not gone over its cap.
    pub open spec fn inv(self) -> bool {
        !self.terminal() ==> self.received() <= self.cap()
    }

    /// A fresh stream with cap `max_size`.
    pub closed spec fn spec_new(max_size: usize) -> ResponseStream {
        ResponseStream { bytes_received: 0, max_size, finished: false }
    }

    /// The stream after a chunk of `len` bytes arrives.
    pub closed spec fn after_chunk(self, len: nat) -> ResponseStream {
        if self.finished {
            self
        } else if self.bytes_received + len > self.max_size {
            ResponseStream {
                bytes_received: if self.bytes_received + len > usize::MAX {
                    usize::MAX
                } else {
                    (self.bytes_received + len) as usize
                },
                max_size: self.max_size,
                finished: true,
            }
        } else {
            ResponseStream {
                bytes_received: (self.bytes_received + len) as usize,
                max_size: self.max_size,
                finished: false,
            }
        }
    }

    /// The stream after a failure or the end of the body.
    pub closed spec fn after_stop(self) -> ResponseStream {
        ResponseStream { finished: true, ..self }
    }

    /// Creates a stream that allows at most `max_size` bytes.
    pub fn new(max_size: usize) -> (r: ResponseStream)
        ensures
            r == ResponseStream::spec_new(max_size),
            r.received() == 0,
            r.cap() == max_size,
            !r.terminal(),
            r.inv(),
    {
        ResponseStream { bytes_received: 0, max_size, finished: false }
    }

    /// Total bytes received so far.
    pub fn bytes_received(&self) -> (r: usize)
        ensures
            r == self.received(),
    {
        self.bytes_received
    }

    /// Whether more bytes than the cap have arrived.
    pub fn is_size_exceeded(&self) -> (r: bool)
        ensures
            r == (self.received() > self.cap()),
    {
        self.bytes_received > self.max_size
    }

    /// Whether the stream has ended; once it has, it yields nothing more.
    pub fn is_finished(&self) -> (r: bool)
        ensures
            r == self.terminal(),
    {
        self.finished
    }

    /// Decides what a transport event becomes. A chunk that brings the
    /// running total over the cap ends the stream with `ContentTooLarge`; a
    /// transport failure ends it with that failure; once ended, the stream
    /// answers `Done` to everything.
    pub fn advance(&mut self, up: Upstream) -> (r: StreamStep)
        requires
            old(self).inv(),
        ensures
            final(self).inv(),
            final(self).cap() == old(self).cap(),
            old(self).terminal() ==> r is Done && *final(self) == *old(self),
            !old(self).terminal() ==> match up {
                Upstream::Chunk(c) => {
                    &&& *final(self) == old(self).after_chunk(c@.len())
                    &&& chunk_outcome(*old(self), c@.len()) == outcome_of(r)
                    &&& old(self).received() + c@.len() <= old(self).cap() ==> {
                        &&& r matches StreamStep::Deliver(d) && d@ == c@
                        &&& !final(self).terminal()
                        &&& final(self).received() == old(self).received() + c@.len()
                    }
                    &&& old(self).received() + c@.len() > old(self).cap() ==> {
                        &&& r matches StreamStep::Fail(e) && e is ContentTooLarge
                        &&& final(self).terminal()
                        &&& final(self).received() == if old(self).received() + c@.len() > usize::MAX {
                            usize::MAX as nat
                        } else {
                            old(self).received() + c@.len()
                        }
                    }
                },
                Upstream::Failed(e) => {
                    &&& *final(self) == old(self).after_stop()
                    &&& r == StreamStep::Fail(e)
                    &&& final(self).terminal()
                    &&& final(self).received() == old(self).received()
                },
                Upstream::End => {
                    &&& *final(self) == old(self).after_stop()
                    &&& r is Done
                    &&& final(self).terminal()
                    &&& final(self).received() == old(self).received()
                },
            },
    {
        if self.finished {
            return StreamStep::Done;
        }
        match up {
            Upstream::Chunk(c) => {
                let len = c.len();
                if len > self.max_size - self.bytes_received {
                    self.bytes_received = self.bytes_received.saturating_add(len);
                    self.finished = true;
                    StreamStep::Fail(FetchError::ContentTooLarge("content exceeded the size limit".to_string()))
                } else {
                    self.bytes_received = self.bytes_received + len;
                    StreamStep::Deliver(c)
                }
            },
            Upstream::Failed(e) => {
                self.finished = true;
                StreamStep::Fail(e)
            },
            Upstream::End => {
                self.finished = true;
                StreamStep::Done
            },
        }
    }
}

/// The consumer-visible outcome of a chunk of `len` bytes.
pub open spec fn chunk_outcome(s: ResponseStream, len: nat) -> ChunkOutcome {
    if s.terminal() {
        ChunkOutcome::Ended
    } else if s.received() + len > s.cap() {
        ChunkOutcome::TooLarge
    } else {
        ChunkOutcome::Deliver
    }
}

/// The outcome that a step shows.
pub open spec fn outcome_of(r: StreamStep) -> ChunkOutcome {
    match r {
        StreamStep::Deliver(_) => ChunkOutcome::Deliver,
        StreamStep::Fail(e) => if e is ContentTooLarge { ChunkOutcome::TooLarge } else { ChunkOutcome::Ended },
        StreamStep::Done => ChunkOutcome::Ended,
    }
}

/// The sum of a list of chunk sizes.
pub open spec fn total(cs: Seq<nat>) -> nat
    decreases cs.len(),
{
    if cs.len() == 0 {
        0
    } else {
        cs[0] + total(cs.drop_first())
    }
}

/// The outcomes of feeding chunks of the given sizes to a stream, in order.
pub open spec fn outcomes(s: ResponseStream, cs: Seq<nat>) -> Seq<ChunkOutcome>
    decreases cs.len(),
{
    if cs.len() == 0 {
        Seq::empty()
    } else {
        seq![chunk_outcome(s, cs[0])] + outcomes(s.after_chunk(cs[0]), cs.drop_first())
    }
}

proof fn lemma_outcomes_len(s: ResponseStream, cs: Seq<nat>)
    ensures
        outcomes(s, cs).len() == cs.len(),
    decreases cs.len(),
{
    if cs.len() > 0 {
        lemma_outcomes_len(s.after_chunk(cs[0]), cs.drop_first());
    }
}

proof fn lemma_terminal_stays(s: ResponseStream, cs: Seq<nat>)
    requires
        s.terminal(),
    ensures
        forall|i: int| 0 <= i < cs.len() ==> #[trigger] outcomes(s, cs)[i] == ChunkOutcome::Ended,
    decreases cs.len(),
{
    lemma_outcomes_len(s, cs);
    if cs.len() > 0 {
        let rest = cs.drop_first();
        let tail = outcomes(s.after_chunk(cs[0]), rest);
        lemma_terminal_stays(s.after_chunk(cs[0]), rest);
        lemma_outcomes_len(s.after_chunk(cs[0]), rest);
        let o = outcomes(s, cs);
        assert(o == seq![chunk_outcome(s, cs[0])] + tail);
        assert forall|i: int| 0 <= i < cs.len() implies #[trigger] o[i] == ChunkOutcome::Ended by {
            if i > 0 {
                assert(o[i] == tail[i - 1]);
            }
        }
    }
}

/// The outcomes deliver up to position `k`, fail there for size, and show
/// nothing but the end after it.
pub open spec fn fails_for_size_at(o: Seq<ChunkOutcome>, k: int) -> bool {
    &&& 0 <= k < o.len()
    &&& o[k] == ChunkOutcome::TooLarge
    &&& forall|i: int| 0 <= i < k ==> #[trigger] o[i] == ChunkOutcome::Deliver
    &&& forall|i: int| k < i < o.len() ==> #[trigger] o[i] == ChunkOutcome::Ended
}

/// What a chunk and a stop do to a stream: a chunk within the cap leaves it
/// live with the counter raised; one that crosses the cap ends it with the
/// counter raised (saturating); a failure or the end ends it with the counter
/// unchanged; an ended stream stays as it is.
pub proof fn lemma_stream_steps(s: ResponseStream, len: nat, max: usize)
    ensures
        s.after_chunk(len).cap() == s.cap(),
        s.terminal() ==> s.after_chunk(len) == s,
        !s.terminal() && s.received() + len <= s.cap() ==> !s.after_chunk(len).terminal()
            && s.after_chunk(len).received() == s.received() + len,
        !s.terminal() && s.received() + len > s.cap() ==> s.after_chunk(len).terminal()
            && s.after_chunk(len).received() == if s.received() + len > usize::MAX {
                usize::MAX as nat
            } else {
                s.received() + len
            },
        s.after_stop().terminal(),
        s.after_stop().received() == s.received(),
        s.after_stop().cap() == s.cap(),
        ResponseStream::spec_new(max).received() == 0,
        !ResponseStream::spec_new(max).terminal(),
        ResponseStream::spec_new(max).cap() == max,
        ResponseStream::spec_new(max).inv(),
{
}

/// From any live stream within its cap, chunks that bring the total over
/// the cap end it with `ContentTooLarge` at one position: every chunk before
/// is delivered, and none after.
pub proof fn lemma_over_cap(s: ResponseStream, cs: Seq<nat>) -> (k: int)
    requires
        s.inv(),
        !s.terminal(),
        s.received() + total(cs) > s.cap(),
    ensures
        fails_for_size_at(outcomes(s, cs), k),
    decreases cs.len(),
{
    lemma_outcomes_len(s, cs);
    let o = outcomes(s, cs);
    let next = s.after_chunk(cs[0]);
    let rest = cs.drop_first();
    let tail = outcomes(next, rest);
    lemma_outcomes_len(next, rest);
    assert(o == seq![chunk_outcome(s, cs[0])] + tail);
    if s.received() + cs[0] > s.cap() {
        lemma_terminal_stays(next, rest);
        assert forall|i: int| 0 < i < o.len() implies #[trigger] o[i] == ChunkOutcome::Ended by {
            assert(o[i] == tail[i - 1]);
        }
        0
    } else {
        let k2 = lemma_over_cap(next, rest);
        assert(o[k2 + 1] == tail[k2]);
        assert forall|i: int| 0 <= i < k2 + 1 implies #[trigger] o[i] == ChunkOutcome::Deliver by {
            if i > 0 {
                assert(o[i] == tail[i - 1]);
            }
        }
        assert forall|i: int| k2 + 1 < i < o.len() implies #[trigger] o[i] == ChunkOutcome::Ended by {
            assert(o[i] == tail[i - 1]);
        }
        k2 + 1
    }
}

/// A body of exactly `max_size + 1` bytes, split into chunks of any sizes,
/// ends the stream with `ContentTooLarge`: the chunks before it are all
/// delivered, and no chunk is delivered after it.
pub proof fn lemma_one_byte_over_cap_fails(max_size: usize, cs: Seq<nat>)
    requires
        total(cs) == max_size + 1,
    ensures
        exists|k: int| #[trigger] fails_for_size_at(outcomes(ResponseStream::spec_new(max_size), cs), k),
{
    let k = lemma_over_cap(ResponseStream::spec_new(max_size), cs);
}

/// Whether an HTTP status code is a success (2xx).
pub open spec fn is_success(status: u16) -> bool {
    200 <= status <= 299
}

/// Whether a declared body length is over the cap.
pub open spec fn declared_too_large(content_length: Option<u64>, max_size: usize) -> bool {
    content_length matches Some(len) && len > max_size
}

/// Checks a declared body length against the cap, before any body byte is
/// read.
pub fn check_declared_length(content_length: Option<u64>, max_size: usize) -> (r: Result<(), FetchError>)
    ensures
        r is Err <==> declared_too_large(content_length, max_size),
        r matches Err(e) ==> e is ContentTooLarge,
{
    match content_length {
        Some(len) => {
            if len > max_size as u64 {
                Err(FetchError::ContentTooLarge("declared content length exceeds the limit".to_string()))
            } else {
                Ok(())
            }
        },
        None => Ok(()),
    }
}

/// Opens the body of a response once its head has arrived: a non-2xx
/// status fails with `ServerError`, then a declared length over the cap
/// fails with `ContentTooLarge`; otherwise the body is read through a fresh
/// stream with that cap.
pub fn open_stream(status: u16, content_length: Option<u64>, max_size: usize) -> (r: Result<ResponseStream, FetchError>)
    ensures
        !is_success(status) ==> (r matches Err(e) && e is ServerError),
        is_success(status) && declared_too_large(content_length, max_size) ==> (r matches Err(e) && e is ContentTooLarge),
        is_success(status) && !declared_too_large(content_length, max_size) ==> r == Ok::<ResponseStream, FetchError>(ResponseStream::spec_new(max_size)),
        r matches Ok(s) ==> s.received() == 0 && !s.terminal() && s.cap() == max_size && s.inv(),
{
    if status < 200 || status > 299 {
        return Err(FetchError::ServerError("unsuccessful HTTP status".to_string()));
    }
    match check_declared_length(content_length, max_size) {
        Ok(()) => Ok(ResponseStream::new(max_size)),
        Err(e) => Err(e),
    }
}

/// The capacity to reserve for a buffered body: the declared length,
/// bounded by `max_size`, or one default chunk when no length is declared.
pub fn initial_capacity(content_length: Option<u64>, max_size: usize) -> (r: usize)
    ensures
        content_length matches Some(len) ==> r == if len > max_size { max_size as int } else { len as int },
        content_length is None ==> r == crate::domain::fetch::config::DEFAULT_STREAM_BUFFER_SIZE,
{
    match content_length {
        Some(len) => {
            if len > max_size as u64 {
                max_size
            } else {
                len as usize
            }
        },
        None => crate::domain::fetch::config::default_stream_buffer_size(),
    }
}

/// Fetch metadata, without the content.
#[derive(Debug, Clone)]
pub struct FetchMetadata {
    pub length: usize,
    pub status_code: u16,
    pub final_url: String,
}

/// Relies on `String::from_utf8`: it accepts exactly the byte sequences that
/// are valid UTF-8, and the text it returns is what they encode.
#[verifier::external_body]
fn utf8_text(bytes: Vec<u8>) -> (r: Option<String>)
    ensures
        r is Some <==> valid_utf8(bytes@),
        r matches Some(s) ==> s@ == decode_utf8(bytes@),
{
    String::from_utf8(bytes).ok()
}

/// A body accumulated in memory, chunk by chunk, under the stream's cap.
#[derive(Debug)]
pub struct BufferedBody {
    stream: ResponseStream,
    bytes: Vec<u8>,
    failed: bool,
}

impl BufferedBody {
    pub closed spec fn stream_state(self) -> ResponseStream {
        self.stream
    }

    /// The bytes accumulated so far.
    pub closed spec fn content(self) -> Seq<u8> {
        self.bytes@
    }

    /// Whether a feed has failed.
    pub closed spec fn has_failed(self) -> bool {
        self.failed
    }

    /// Until a feed fails, the buffer holds every byte counted, within the
    /// cap.
    pub open spec fn inv(self) -> bool {
        &&& self.stream_state().inv()
        &&& !self.has_failed() ==> self.content().len() == self.stream_state().received()
            && self.stream_state().received() <= self.stream_state().cap()
    }

    /// Starts accumulating the body of a fresh `stream`.
    pub fn new(stream: ResponseStream, content_length: Option<u64>) -> (r: BufferedBody)
        requires
            stream.inv(),
            stream.received() == 0,
        ensures
            r.inv(),
            r.stream_state() == stream,
            r.content() == Seq::<u8>::empty(),
            !r.has_failed(),
    {
        let cap = initial_capacity(content_length, stream.max_size);
        BufferedBody { stream, bytes: Vec::with_capacity(cap), failed: false }
    }

    /// Whether the body has ended, one way or the other.
    pub fn is_finished(&self) -> (r: bool)
        ensures
            r == self.stream_state().terminal(),
    {
        self.stream.is_finished()
    }

    /// Takes the next transport event. A delivered chunk is appended; a
    /// failure (the cap, or the transport's own) is returned.
    pub fn feed(&mut self, up: Upstream) -> (r: Result<(), FetchError>)
        requires
            old(self).inv(),
        ensures
            final(self).inv(),
            final(self).has_failed() == (old(self).has_failed() || r is Err),
            old(self).stream_state().terminal() ==> r is Ok && *final(self) == *old(self),
            !old(self).stream_state().terminal() ==> match up {
                Upstream::Chunk(c) => {
                    &&& final(self).stream_state() == old(self).stream_state().after_chunk(c@.len())
                    &&& (r is Ok <==> chunk_outcome(old(self).stream_state(), c@.len()) == ChunkOutcome::Deliver)
                    &&& r is Ok ==> final(self).content() == old(self).content() + c@
                    &&& r matches Err(e) ==> e is ContentTooLarge && final(self).content() == old(self).content()
                },
                Upstream::Failed(e) => {
                    &&& final(self).stream_state() == old(self).stream_state().after_stop()
                    &&& r == Err::<(), FetchError>(e)
                    &&& final(self).content() == old(self).content()
                },
                Upstream::End => {
                    &&& final(self).stream_state() == old(self).stream_state().after_stop()
                    &&& r is Ok
                    &&& final(self).content() == old(self).content()
                },
            },
    {
        match self.stream.advance(up) {
            StreamStep::Deliver(chunk) => {
                let mut i: usize = 0;
                let ghost start = self.bytes@;
                let ghost after = self.stream;
                while i < chunk.len()
                    invariant
                        self.stream == after,
                        self.failed == old(self).failed,
                        i <= chunk@.len(),
                        self.bytes@ == start + chunk@.subrange(0, i as int),
                    decreases chunk@.len() - i,
                {
                    self.bytes.push(chunk[i]);
                    proof {
                        assert(chunk@.subrange(0, i + 1) =~= chunk@.subrange(0, i as int).push(chunk@[i as int]));
                    }
                    i += 1;
                }
                proof {
                    assert(chunk@.subrange(0, chunk@.len() as int) =~= chunk@);
                }
                Ok(())
            },
            StreamStep::Fail(e) => {
                self.failed = true;
                Err(e)
            },
            StreamStep::Done => Ok(()),
        }
    }

    /// Decodes the accumulated body as text, with its metadata. Fails with
    /// `EncodingError` exactly when the bytes are not valid UTF-8.
    pub fn finish(self, status_code: u16, final_url: String) -> (r: Result<(String, FetchMetadata), FetchError>)
        requires
            self.inv(),
        ensures
            !self.has_failed() ==> self.content().len() == self.stream_state().received(),
            r is Ok <==> valid_utf8(self.content()),
            r matches Ok((text, meta)) ==> {
                &&& text@ == decode_utf8(self.content())
                &&& meta.length == self.stream_state().received()
                &&& meta.status_code == status_code
                &&& meta.final_url@ == final_url@
            },
            r matches Err(e) ==> e is EncodingError,
    {
        let length = self.stream.bytes_received();
        match utf8_text(self.bytes) {
            Some(text) => Ok((text, FetchMetadata { length, status_code, final_url })),
            None => Err(FetchError::EncodingError("body is not valid UTF-8".to_string())),
        }
    }
}

} // verus!
