use vstd::prelude::*;

use crate::error::Error;

verus! {

/// One outcome of polling a byte-frame source: a ready chunk, a ready
/// failure, ready exhaustion, or not ready yet.
pub enum FramePoll {
    Chunk(Vec<u8>),
    Failed(Error),
    Done,
    Pending,
}

/// The bytes of a sequence of chunks, concatenated in yield order.
pub open spec fn concat_chunks(chunks: Seq<Seq<u8>>) -> Seq<u8>
    decreases chunks.len(),
{
    if chunks.len() == 0 {
        Seq::empty()
    } else {
        chunks.first() + concat_chunks(chunks.drop_first())
    }
}

/// The sum of the lengths of a sequence of chunks.
pub open spec fn total_len(chunks: Seq<Seq<u8>>) -> nat
    decreases chunks.len(),
{
    if chunks.len() == 0 {
        0
    } else {
        chunks.first().len() + total_len(chunks.drop_first())
    }
}

/// The chunk views of a vector of frames, in order.
pub open spec fn chunks_view(frames: Seq<Vec<u8>>) -> Seq<Seq<u8>> {
    frames.map_values(|f: Vec<u8>| f@)
}

/// Concatenation distributes over appending one chunk at the end.
pub proof fn lemma_concat_push(chunks: Seq<Seq<u8>>, c: Seq<u8>)
    ensures
        concat_chunks(chunks.push(c)) == concat_chunks(chunks) + c,
    decreases chunks.len(),
{
    if chunks.len() == 0 {
        assert(chunks.push(c).drop_first() =~= Seq::<Seq<u8>>::empty());
        assert(concat_chunks(Seq::<Seq<u8>>::empty()) == Seq::<u8>::empty());
        assert(chunks.push(c).first() == c);
        assert(concat_chunks(chunks.push(c)) =~= concat_chunks(chunks) + c);
    } else {
        assert(chunks.push(c).drop_first() =~= chunks.drop_first().push(c));
        lemma_concat_push(chunks.drop_first(), c);
        assert(concat_chunks(chunks.push(c)) =~= concat_chunks(chunks) + c);
    }
}

/// Drain completeness: the buffer obtained by concatenating the chunks
/// of a finite byte-frame source in yield order has exactly the bytes
/// of those chunks, so its length is the sum of the chunk lengths — no
/// chunk is skipped or duplicated.
pub proof fn lemma_drain_completeness(chunks: Seq<Seq<u8>>)
    ensures
        concat_chunks(chunks).len() == total_len(chunks),
    decreases chunks.len(),
{
    if chunks.len() > 0 {
        lemma_drain_completeness(chunks.drop_first());
    }
}

/// A source with no chunks left concatenates to the empty buffer: an
/// already-exhausted byte-frame source drains to a zero-length buffer.
pub proof fn lemma_empty_drains_to_nothing(chunks: Seq<Seq<u8>>)
    requires
        chunks.len() == 0,
    ensures
        concat_chunks(chunks).len() == 0,
{
}

/// A byte-frame source whose frames are already materialized: the
/// chunks still to be yielded, in order, followed by either clean
/// exhaustion or a terminal failure. Host-backed producers feed such a
/// source once each of their items has been converted to owned bytes;
/// the bridge also uses it to hand a fully received response body back
/// to the RPC layer as a single pre-materialized chunk.
///
/// Exclusive ownership of the source is the polling discipline: only
/// the single owner of the value can poll it, so no lock is needed.
pub struct BodyStream {
    frames: Vec<Vec<u8>>,
    failure: Option<Error>,
    exhausted: bool,
}

impl BodyStream {
    /// The chunks this source has still to yield, in order.
    pub closed spec fn remaining(self) -> Seq<Seq<u8>> {
        chunks_view(self.frames@)
    }

    /// The terminal signal after the last chunk: `None` for clean
    /// exhaustion, `Some(e)` for a failure.
    pub closed spec fn failure(self) -> Option<Error> {
        self.failure
    }

    /// Whether the source has signaled exhaustion or failure. Once it
    /// has, it must not be polled again.
    pub closed spec fn is_exhausted(self) -> bool {
        self.exhausted
    }

    pub open spec fn wf(self) -> bool {
        self.is_exhausted() ==> self.remaining().len() == 0
    }

    /// A source that yields the given chunks in order and then signals
    /// clean exhaustion.
    pub fn new(frames: Vec<Vec<u8>>) -> (r: Self)
        ensures
            r.wf(),
            !r.is_exhausted(),
            r.remaining() == chunks_view(frames@),
            r.failure() is None,
    {
        BodyStream { frames, failure: None, exhausted: false }
    }

    /// A source with no chunks at all: it signals exhaustion on the
    /// first poll, without ever waiting.
    pub fn empty() -> (r: Self)
        ensures
            r.wf(),
            !r.is_exhausted(),
            r.remaining().len() == 0,
            r.failure() is None,
    {
        BodyStream { frames: Vec::new(), failure: None, exhausted: false }
    }

    /// A source that yields the given chunks in order and then signals
    /// the given failure, as a host stream does when it fails partway.
    pub fn with_failure(frames: Vec<Vec<u8>>, failure: Error) -> (r: Self)
        ensures
            r.wf(),
            !r.is_exhausted(),
            r.remaining() == chunks_view(frames@),
            r.failure() == Some(failure),
    {
        BodyStream { frames, failure: Some(failure), exhausted: false }
    }

    /// Whether the terminal signal has already been produced; a
    /// terminated source must not be polled or drained again.
    pub fn terminated(&self) -> (r: bool)
        ensures
            r == self.is_exhausted(),
    {
        self.exhausted
    }

    /// Produce the next item. A materialized source is always ready,
    /// so the result is never `FramePoll::Pending`: the next chunk in
    /// order, or the terminal signal, which also marks the source
    /// exhausted.
    pub fn poll_frame(&mut self) -> (r: FramePoll)
        requires
            old(self).wf(),
            !old(self).is_exhausted(),
        ensures
            final(self).wf(),
            final(self).failure() == old(self).failure(),
            old(self).remaining().len() > 0 ==> {
                &&& r matches FramePoll::Chunk(c) && c@ == old(self).remaining().first()
                &&& final(self).remaining() == old(self).remaining().drop_first()
                &&& !final(self).is_exhausted()
            },
            old(self).remaining().len() == 0 ==> {
                &&& final(self).is_exhausted()
                &&& final(self).remaining().len() == 0
                &&& match old(self).failure() {
                    Some(e) => r matches FramePoll::Failed(f) && f == e,
                    None => r is Done,
                }
            },
    {
        if self.frames.len() > 0 {
            let c = self.frames.remove(0);
            proof {
                assert(chunks_view(self.frames@) =~= chunks_view(old(self).frames@).drop_first());
            }
            FramePoll::Chunk(c)
        } else {
            self.exhausted = true;
            match self.failure {
                Some(e) => FramePoll::Failed(e),
                None => FramePoll::Done,
            }
        }
    }
}

/// Classify one incremental read from a host-native byte reader as a
/// frame event: a failed read carries the failure it was wrapped into,
/// a zero-length read signals exhaustion, and any other read yields
/// its bytes as the next chunk.
pub fn classify_read(read: Result<Vec<u8>, Error>) -> (r: FramePoll)
    ensures
        match read {
            Ok(bytes) => {
                if bytes@.len() == 0 {
                    r is Done
                } else {
                    r matches FramePoll::Chunk(c) && c@ == bytes@
                }
            },
            Err(e) => r matches FramePoll::Failed(f) && f == e,
        },
{
    match read {
        Ok(bytes) => {
            if bytes.len() == 0 {
                FramePoll::Done
            } else {
                FramePoll::Chunk(bytes)
            }
        },
        Err(e) => FramePoll::Failed(e),
    }
}

/// Fully consume a byte-frame source into one contiguous buffer. On
/// success the buffer holds exactly the source's chunks concatenated in
/// yield order; if the source signals a failure after its last chunk,
/// that failure is returned instead and no buffer is produced.
pub fn drain(source: &mut BodyStream) -> (r: Result<Vec<u8>, Error>)
    requires
        old(source).wf(),
        !old(source).is_exhausted(),
    ensures
        final(source).wf(),
        final(source).is_exhausted(),
        match r {
            Ok(buf) => old(source).failure() is None && buf@ == concat_chunks(
                old(source).remaining(),
            ),
            Err(e) => old(source).failure() == Some(e),
        },
{
    let mut buf: Vec<u8> = Vec::new();
    let ghost mut yielded: Seq<Seq<u8>> = Seq::empty();
    proof {
        assert(Seq::<u8>::empty() + concat_chunks(source.remaining()) =~= concat_chunks(
            source.remaining(),
        ));
    }
    loop
        invariant
            source.wf(),
            !source.is_exhausted(),
            source.failure() == old(source).failure(),
            buf@ == concat_chunks(yielded),
            concat_chunks(old(source).remaining()) == concat_chunks(yielded) + concat_chunks(
                source.remaining(),
            ),
        decreases source.remaining().len(),
    {
        match source.poll_frame() {
            FramePoll::Chunk(mut c) => {
                proof {
                    lemma_concat_push(yielded, c@);
                    assert((concat_chunks(yielded) + c@) + concat_chunks(
                        source.remaining(),
                    ) =~= concat_chunks(yielded) + (c@ + concat_chunks(source.remaining())));
                }
                let ghost c_view = c@;
                buf.append(&mut c);
                proof {
                    yielded = yielded.push(c_view);
                }
            },
            FramePoll::Done => {
                proof {
                    assert(concat_chunks(old(source).remaining()) =~= concat_chunks(yielded));
                }
                return Ok(buf);
            },
            FramePoll::Failed(e) => {
                return Err(e);
            },
            FramePoll::Pending => {
                return Err(Error::HostStream);  // unreachable: a materialized source is always ready
            },
        }
    }
}

} // verus!
