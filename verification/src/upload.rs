//! The media-upload pipeline: the choice between the single-request and
//! the chunked path, the chunking itself, and the session state machine
//! that drives initiate, append, finalize and the processing poll loop.
//!
//! The machine decides; the surrounding (unverified) shell performs each
//! returned action against the network and feeds the observed outcome
//! back in as the next event.
use vstd::prelude::*;

verus! {

use crate::error::Error;
use crate::{MediaStatus, TwitterMediaResponse, media_status_of};

/// Payload sizes up to this many bytes go out in one request; larger
/// payloads are split into chunks of exactly this size (the last chunk
/// may be shorter).
pub const CHUNK_SIZE: usize = 1048576;

/// Which path a payload takes.
#[derive(Debug, Clone, Copy, PartialEq, Eq, Structural)]
pub enum UploadPlan {
    Simple,
    Chunked,
}

/// Chooses the upload path: anything up to `CHUNK_SIZE` bytes goes out
/// in a single request, anything larger is chunked.
pub fn choose_upload_path(len: usize) -> (p: UploadPlan)
    ensures
        p == UploadPlan::Simple <==> len <= CHUNK_SIZE,
{
    if len <= CHUNK_SIZE {
        UploadPlan::Simple
    } else {
        UploadPlan::Chunked
    }
}

/// The number of chunks a payload of `len` bytes is split into.
pub open spec fn chunk_count_of(len: nat) -> nat {
    ((len + CHUNK_SIZE - 1) / CHUNK_SIZE as int) as nat
}

/// Where chunk `i` of a payload of `len` bytes ends.
pub open spec fn chunk_end(len: nat, i: int) -> int {
    if (i + 1) * (CHUNK_SIZE as int) <= len {
        (i + 1) * (CHUNK_SIZE as int)
    } else {
        len as int
    }
}

pub proof fn lemma_chunk_count_bounds(len: nat)
    ensures
        len == 0 ==> chunk_count_of(len) == 0,
        len > 0 ==> (chunk_count_of(len) - 1) * (CHUNK_SIZE as int) < len,
        len <= chunk_count_of(len) * (CHUNK_SIZE as int),
{
    vstd::arithmetic::div_mod::lemma_fundamental_div_mod(
        (len + CHUNK_SIZE - 1) as int,
        CHUNK_SIZE as int,
    );
}

/// Computes `chunk_count_of`, the ceiling of `len / CHUNK_SIZE`.
pub fn chunk_count(len: usize) -> (n: usize)
    ensures
        n == chunk_count_of(len as nat),
{
    proof {
        vstd::arithmetic::div_mod::lemma_fundamental_div_mod(len as int, CHUNK_SIZE as int);
        vstd::arithmetic::div_mod::lemma_fundamental_div_mod(
            (len + CHUNK_SIZE - 1) as int,
            CHUNK_SIZE as int,
        );
    }
    len / CHUNK_SIZE + (if len % CHUNK_SIZE != 0 {
        1
    } else {
        0
    })
}

/// Splits the payload into successive chunks of `CHUNK_SIZE` bytes, the
/// last possibly shorter. Chunk `i` is exactly the payload bytes from
/// `i * CHUNK_SIZE` up to `chunk_end`.
pub fn split_chunks(payload: &Vec<u8>) -> (chunks: Vec<Vec<u8>>)
    ensures
        chunks@.len() == chunk_count_of(payload@.len() as nat),
        forall|i: int|
            0 <= i < chunks@.len() ==> #[trigger] chunks@[i]@ == payload@.subrange(
                i * (CHUNK_SIZE as int),
                chunk_end(payload@.len() as nat, i),
            ),
{
    let len = payload.len();
    let n = chunk_count(len);
    let mut chunks: Vec<Vec<u8>> = Vec::new();
    let mut k: usize = 0;
    while k < n
        invariant
            k <= n,
            n == chunk_count_of(len as nat),
            len == payload@.len(),
            chunks@.len() == k,
            forall|i: int|
                0 <= i < k ==> #[trigger] chunks@[i]@ == payload@.subrange(
                    i * (CHUNK_SIZE as int),
                    chunk_end(len as nat, i),
                ),
        decreases n - k,
    {
        proof {
            lemma_chunk_count_bounds(len as nat);
            assert(k * (CHUNK_SIZE as int) <= (n - 1) * (CHUNK_SIZE as int)) by (nonlinear_arith)
                requires
                    0 <= k <= n - 1,
            ;
        }
        let start = k * CHUNK_SIZE;
        let remaining = len - start;
        let size = if remaining > CHUNK_SIZE {
            CHUNK_SIZE
        } else {
            remaining
        };
        let mut chunk: Vec<u8> = Vec::new();
        let mut j: usize = 0;
        while j < size
            invariant
                j <= size,
                start + size <= len,
                len == payload@.len(),
                chunk@ == payload@.subrange(start as int, start + j),
            decreases size - j,
        {
            chunk.push(payload[start + j]);
            proof {
                assert(payload@.subrange(start as int, start + j + 1) =~= payload@.subrange(
                    start as int,
                    start + j,
                ).push(payload@[start + j]));
            }
            j += 1;
        }
        proof {
            assert(start + size == chunk_end(len as nat, k as int));
        }
        chunks.push(chunk);
        k += 1;
    }
    chunks
}

/// Concatenating a tail of the chunks yields the matching tail of the
/// payload.
proof fn lemma_chunks_flatten_from(payload: Seq<u8>, chunks: Seq<Seq<u8>>, k: int)
    requires
        chunks.len() == chunk_count_of(payload.len()),
        forall|i: int|
            0 <= i < chunks.len() ==> #[trigger] chunks[i] == payload.subrange(
                i * (CHUNK_SIZE as int),
                chunk_end(payload.len(), i),
            ),
        0 <= k <= chunks.len(),
    ensures
        chunks.skip(k).flatten() == payload.skip(
            if k * (CHUNK_SIZE as int) <= payload.len() {
                k * (CHUNK_SIZE as int)
            } else {
                payload.len() as int
            },
        ),
    decreases chunks.len() - k,
{
    let len = payload.len();
    lemma_chunk_count_bounds(len);
    if k == chunks.len() {
        assert(chunks.skip(k) =~= Seq::<Seq<u8>>::empty());
        assert(Seq::<Seq<u8>>::empty().flatten() =~= Seq::<u8>::empty());
        assert(k * (CHUNK_SIZE as int) >= len || k * (CHUNK_SIZE as int) <= len) by (nonlinear_arith);
        if k * CHUNK_SIZE <= len {
            assert(len <= k * (CHUNK_SIZE as int));
            assert(payload.skip(len as int) =~= Seq::<u8>::empty());
        }
        assert(payload.skip(len as int) =~= Seq::<u8>::empty());
    } else {
        assert((chunks.len() - 1) * (CHUNK_SIZE as int) < len);
        assert(k * (CHUNK_SIZE as int) <= (chunks.len() - 1) * (CHUNK_SIZE as int)) by (nonlinear_arith)
            requires
                0 <= k <= chunks.len() - 1,
        ;
        lemma_chunks_flatten_from(payload, chunks, k + 1);
        assert(chunks.skip(k).first() == chunks[k]);
        assert(chunks.skip(k).drop_first() =~= chunks.skip(k + 1));
        let end_k = chunk_end(len, k);
        let next = if (k + 1) * (CHUNK_SIZE as int) <= len {
            (k + 1) * (CHUNK_SIZE as int)
        } else {
            len as int
        };
        assert(end_k == next);
        assert(chunks.skip(k).flatten() == chunks[k] + chunks.skip(k + 1).flatten());
        assert(payload.subrange(k * (CHUNK_SIZE as int), end_k) + payload.skip(next) =~= payload.skip(
            k * (CHUNK_SIZE as int),
        ));
    }
}

/// Concatenating all chunks in order reconstructs the payload bit-exactly.
pub proof fn lemma_chunks_reassemble(payload: Seq<u8>, chunks: Seq<Seq<u8>>)
    requires
        chunks.len() == chunk_count_of(payload.len()),
        forall|i: int|
            0 <= i < chunks.len() ==> #[trigger] chunks[i] == payload.subrange(
                i * (CHUNK_SIZE as int),
                chunk_end(payload.len(), i),
            ),
    ensures
        chunks.flatten() == payload,
{
    lemma_chunks_flatten_from(payload, chunks, 0);
    assert(chunks.skip(0) =~= chunks);
    assert(payload.skip(0) =~= payload);
}

/// Resolves the media type a chunked session is declared with: the
/// caller's declaration wins, otherwise the type inferred from the
/// content. A session with neither cannot start — that is a fatal
/// precondition of the pipeline, not a recoverable error — so the
/// caller must rule it out before asking.
pub fn resolve_media_type(declared: Option<String>, detected: Option<String>) -> (r: String)
    requires
        declared is Some || detected is Some,
    ensures
        declared matches Some(d) ==> r == d,
        declared is None ==> (detected matches Some(d) && r == d),
{
    match declared {
        Some(d) => d,
        None => detected.unwrap(),
    }
}

// ---------- the session state machine ----------

/// Phase of an in-flight chunked upload.
#[derive(Debug, Clone, Copy, PartialEq, Eq, Structural)]
pub enum SessionState {
    /// The initiate request is outstanding.
    AwaitingInit,
    /// Chunks are being appended, strictly one at a time.
    Appending,
    /// The finalize request is outstanding.
    Finalizing,
    /// The server is processing asynchronously; status polls are running.
    Polling,
    Done,
    Failed,
}

/// The observed outcome of the network call the machine last asked for.
#[derive(Debug)]
pub enum SessionEvent {
    /// The initiate request answered with a media response.
    InitOk(TwitterMediaResponse),
    /// The initiate request failed with this classified error.
    InitFailed(Error),
    /// An append request answered with this HTTP status code.
    AppendStatus(u16),
    /// The finalize request answered with a media response.
    FinalizeOk(TwitterMediaResponse),
    /// The finalize request failed with this classified error.
    FinalizeFailed(Error),
    /// A status poll answered with a media response.
    PollOk(TwitterMediaResponse),
    /// A status poll failed with this classified error.
    PollFailed(Error),
}

/// What the shell must do next.
#[derive(Debug)]
pub enum SessionAction {
    /// Send the append request for this chunk index.
    SendAppend { index: usize },
    /// Send the finalize request; chunked sessions always allow
    /// asynchronous completion.
    SendFinalize { allow_async: bool },
    /// Send a status poll at once.
    SendPoll,
    /// Suspend for this many seconds, then send a status poll.
    WaitThenPoll { seconds: u64 },
    /// The upload finished; hand this response to the caller.
    Succeed(TwitterMediaResponse),
    /// The session is over; surface this error.
    Fail(Error),
}

/// The indices `0 .. n-1`, in increasing order.
pub open spec fn index_seq(n: nat) -> Seq<int> {
    Seq::new(n, |i: int| i)
}

/// One in-flight chunked upload: total length, declared media type, the
/// server-assigned identifier once the initiate phase answered, and the
/// index of the next chunk to send. The ghost trace `requested` records
/// every chunk index an append was asked for, in order.
pub struct UploadSession {
    pub total_bytes: usize,
    pub media_type: String,
    pub media_id: String,
    pub chunk_total: usize,
    pub next_index: usize,
    pub state: SessionState,
    pub requested: Ghost<Seq<int>>,
}

impl UploadSession {
    /// Internal consistency of a session: only payloads over the
    /// threshold are chunked, the chunk total matches the length, the
    /// cursor never passes the end, and the appends asked for so far are
    /// exactly the chunk indices up to the cursor, in increasing order —
    /// all of them once the session has moved past the append phase.
    pub open spec fn wf(self) -> bool {
        &&& self.total_bytes > CHUNK_SIZE
        &&& self.chunk_total == chunk_count_of(self.total_bytes as nat)
        &&& self.next_index <= self.chunk_total
        &&& (self.state == SessionState::Appending ==> self.next_index < self.chunk_total)
        &&& (self.state == SessionState::AwaitingInit ==> self.requested@ == index_seq(0))
        &&& (self.state == SessionState::Appending ==> self.requested@ == index_seq(
            self.next_index as nat + 1,
        ))
        &&& (self.state == SessionState::Finalizing || self.state == SessionState::Polling
            || self.state == SessionState::Done ==> self.requested@ == index_seq(
            self.chunk_total as nat,
        ))
    }

    /// Opens a session for a payload that exceeds the single-request
    /// threshold. The shell then issues the initiate request declaring
    /// `total_bytes` and `media_type` and reports back the outcome.
    pub fn start(total_bytes: usize, media_type: String) -> (s: UploadSession)
        requires
            total_bytes > CHUNK_SIZE,
        ensures
            s.wf(),
            s.state == SessionState::AwaitingInit,
            s.total_bytes == total_bytes,
            s.media_type == media_type,
            s.next_index == 0,
    {
        let n = chunk_count(total_bytes);
        proof {
            assert(index_seq(0) =~= Seq::<int>::empty());
        }
        UploadSession {
            total_bytes,
            media_type,
            media_id: String::new(),
            chunk_total: n,
            next_index: 0,
            state: SessionState::AwaitingInit,
            requested: Ghost(Seq::empty()),
        }
    }

    /// Advances the session on the outcome of the last network call and
    /// says what to do next. Appends are strictly sequential: the next
    /// chunk is sent only after the previous one answered the no-content
    /// status, and any other status ends the whole session at once.
    pub fn step(&mut self, event: SessionEvent) -> (a: SessionAction)
        requires
            old(self).wf(),
            match event {
                SessionEvent::InitOk(_) | SessionEvent::InitFailed(_) => old(self).state
                    == SessionState::AwaitingInit,
                SessionEvent::AppendStatus(_) => old(self).state == SessionState::Appending,
                SessionEvent::FinalizeOk(_) | SessionEvent::FinalizeFailed(_) => old(self).state
                    == SessionState::Finalizing,
                SessionEvent::PollOk(_) | SessionEvent::PollFailed(_) => old(self).state
                    == SessionState::Polling,
            },
        ensures
            final(self).wf(),
            final(self).total_bytes == old(self).total_bytes,
            final(self).media_type == old(self).media_type,
            final(self).chunk_total == old(self).chunk_total,
            match event {
                SessionEvent::InitOk(resp) => {
                    &&& final(self).state == SessionState::Appending
                    &&& final(self).media_id == resp.media_id_string
                    &&& final(self).next_index == 0
                    &&& a matches SessionAction::SendAppend { index } && index == 0
                },
                SessionEvent::InitFailed(e) => {
                    &&& final(self).state == SessionState::Failed
                    &&& a == SessionAction::Fail(e)
                },
                SessionEvent::AppendStatus(status) => {
                    &&& final(self).media_id == old(self).media_id
                    &&& (status != 204 ==> final(self).state == SessionState::Failed && (
                    a matches SessionAction::Fail(e) && e is BadMedia))
                    &&& (status == 204 && old(self).next_index + 1 < old(self).chunk_total
                        ==> final(self).state == SessionState::Appending && final(self).next_index
                        == old(self).next_index + 1 && (a matches SessionAction::SendAppend {
                        index,
                    } && index == old(self).next_index + 1))
                    &&& (status == 204 && old(self).next_index + 1 == old(self).chunk_total
                        ==> final(self).state == SessionState::Finalizing && (
                    a matches SessionAction::SendFinalize { allow_async } && allow_async))
                },
                SessionEvent::FinalizeOk(resp) => {
                    &&& final(self).media_id == old(self).media_id
                    &&& (resp.processing_info is Some ==> final(self).state
                        == SessionState::Polling && a == SessionAction::SendPoll)
                    &&& (resp.processing_info is None ==> final(self).state == SessionState::Done
                        && a == SessionAction::Succeed(resp))
                },
                SessionEvent::FinalizeFailed(e) => {
                    &&& final(self).state == SessionState::Failed
                    &&& a == SessionAction::Fail(e)
                },
                SessionEvent::PollOk(resp) => {
                    &&& final(self).media_id == old(self).media_id
                    &&& (media_status_of(resp) == MediaStatus::InProgress ==> final(self).state
                        == SessionState::Polling && (a matches SessionAction::WaitThenPoll {
                        seconds,
                    } && seconds == (match resp.processing_info {
                        Some(info) => match info.check_after_secs {
                            Some(s) => s,
                            None => 1u64,
                        },
                        None => 1u64,
                    })))
                    &&& (media_status_of(resp) == MediaStatus::Succeeded ==> final(self).state
                        == SessionState::Done && a == SessionAction::Succeed(resp))
                    &&& (media_status_of(resp) == MediaStatus::Failed || media_status_of(resp)
                        == MediaStatus::Bad ==> final(self).state == SessionState::Failed && (
                    a matches SessionAction::Fail(e) && e is BadMedia))
                },
                SessionEvent::PollFailed(e) => {
                    &&& final(self).state == SessionState::Failed
                    &&& a == SessionAction::Fail(e)
                },
            },
    {
        match event {
            SessionEvent::InitOk(resp) => {
                self.media_id = resp.media_id_string;
                self.next_index = 0;
                self.state = SessionState::Appending;
                self.requested = Ghost(index_seq(1));
                proof {
                    lemma_chunk_count_bounds(self.total_bytes as nat);
                    assert((self.chunk_total - 1) * (CHUNK_SIZE as int) < self.total_bytes);
                    assert(self.chunk_total * (CHUNK_SIZE as int) >= self.total_bytes);
                    if self.chunk_total == 0 {
                        assert(self.total_bytes <= 0);
                    }
                }
                SessionAction::SendAppend { index: 0 }
            },
            SessionEvent::InitFailed(e) => {
                self.state = SessionState::Failed;
                SessionAction::Fail(e)
            },
            SessionEvent::AppendStatus(status) => {
                if status != 204 {
                    self.state = SessionState::Failed;
                    SessionAction::Fail(Error::BadMedia)
                } else if self.next_index + 1 < self.chunk_total {
                    self.next_index = self.next_index + 1;
                    self.requested = Ghost(self.requested@.push(self.next_index as int));
                    proof {
                        assert(self.requested@ =~= index_seq(self.next_index as nat + 1));
                    }
                    SessionAction::SendAppend { index: self.next_index }
                } else {
                    self.next_index = self.next_index + 1;
                    self.state = SessionState::Finalizing;
                    SessionAction::SendFinalize { allow_async: true }
                }
            },
            SessionEvent::FinalizeOk(resp) => {
                if resp.processing_info.is_some() {
                    self.state = SessionState::Polling;
                    SessionAction::SendPoll
                } else {
                    self.state = SessionState::Done;
                    SessionAction::Succeed(resp)
                }
            },
            SessionEvent::FinalizeFailed(e) => {
                self.state = SessionState::Failed;
                SessionAction::Fail(e)
            },
            SessionEvent::PollOk(resp) => {
                match resp.status() {
                    MediaStatus::InProgress => {
                        let seconds = resp.seconds_left();
                        SessionAction::WaitThenPoll { seconds }
                    },
                    MediaStatus::Succeeded => {
                        self.state = SessionState::Done;
                        SessionAction::Succeed(resp)
                    },
                    _ => {
                        self.state = SessionState::Failed;
                        SessionAction::Fail(Error::BadMedia)
                    },
                }
            },
            SessionEvent::PollFailed(e) => {
                self.state = SessionState::Failed;
                SessionAction::Fail(e)
            },
        }
    }
}

/// When the machine moves past the append phase, it has asked for
/// exactly one append per chunk — `chunk_count_of(total_bytes)` of them
/// — with indices `0 .. n-1` in strictly increasing order.
pub proof fn lemma_appends_complete(s: UploadSession)
    requires
        s.wf(),
        s.state == SessionState::Finalizing || s.state == SessionState::Polling || s.state
            == SessionState::Done,
    ensures
        s.requested@.len() == chunk_count_of(s.total_bytes as nat),
        forall|i: int| 0 <= i < s.requested@.len() ==> s.requested@[i] == i,
{
}

} // verus!
