//! The state behind a naive shared reader, which copies a whole source into
//! one growing vector: the baseline that the rope-based store is measured against.
use crate::catcher::share;
use crate::transform::{classify, io_error, IoFailure, Source, StreamError};
use std::sync::Arc;
use vstd::prelude::*;
use vstd::rwlock::{RwLock, RwLockPredicate};

verus! {

/// Size of the scratch buffer used when drawing bytes from the source.
pub const COPY_BUFFER_LEN: usize = 8192;

/// The most reads that one fill makes before giving up on a source that keeps
/// asking to be retried.
pub const MAX_COPY_STEPS: u64 = 0xffff_ffff_ffff_ffff;

/// Bytes read so far from a source, and the source itself while it may produce more.
pub struct ReadCore<T> {
    data: Vec<u8>,
    source: Option<T>,
    finished: bool,
}

impl<T> View for ReadCore<T> {
    type V = Seq<u8>;

    /// The bytes read from the source so far.
    closed spec fn view(&self) -> Seq<u8> {
        self.data@
    }
}

impl<T> ReadCore<T> {
    /// Whether the source has reported its end.
    pub closed spec fn spec_finished(&self) -> bool {
        self.finished
    }

    /// Whether the source is still held.
    pub closed spec fn has_source(&self) -> bool {
        self.source is Some
    }

    /// Wraps a fresh source, with nothing read yet.
    pub fn new(source: T) -> (r: Self)
        ensures
            r@ == Seq::<u8>::empty(),
            !r.spec_finished(),
            r.has_source(),
    {
        ReadCore { data: Vec::new(), source: Some(source), finished: false }
    }

    /// Returns the number of bytes read from the source so far.
    pub fn len(&self) -> (r: usize)
        ensures
            r == self@.len(),
    {
        self.data.len()
    }

    /// Returns whether the source has reported its end.
    pub fn is_finished(&self) -> (r: bool)
        ensures
            r == self.spec_finished(),
    {
        self.finished
    }
}

impl<T: Source> ReadCore<T> {
    /// Appends up to `limit` bytes from `src` to the stored bytes, stopping early
    /// at the end of the source; returns how many were appended.
    fn copy_from(&mut self, src: &mut T, limit: usize) -> (r: Result<usize, StreamError>)
        ensures
            old(self)@.is_prefix_of(final(self)@),
            final(self).source == old(self).source,
            final(self).finished == old(self).finished,
            r matches Ok(got) ==> got <= limit && final(self)@.len() == old(self)@.len() + got,
            r matches Err(e) ==> e.kind != IoFailure::Interrupted,
            (limit == 0 || old(self)@.len() == usize::MAX) ==> (r matches Ok(0)),
    {
        let mut scratch: Vec<u8> = vec![0u8; COPY_BUFFER_LEN];
        let mut got: usize = 0;
        let mut done = false;
        let mut failure: Option<StreamError> = None;
        let mut steps_left: u64 = MAX_COPY_STEPS;
        while !done && failure.is_none() && got < limit && steps_left > 0
            invariant
                old(self)@.is_prefix_of(self@),
                self.source == old(self).source,
                self.finished == old(self).finished,
                got <= limit,
                self@.len() == old(self)@.len() + got,
                scratch@.len() == COPY_BUFFER_LEN,
                (limit == 0 || old(self)@.len() == usize::MAX) ==> (failure is None && got == 0),
                failure matches Some(e) ==> e.kind != IoFailure::Interrupted,
            decreases steps_left,
        {
            steps_left = steps_left - 1;
            let room = usize::MAX - self.data.len();
            let mut want = if limit - got < COPY_BUFFER_LEN {
                limit - got
            } else {
                COPY_BUFFER_LEN
            };
            if room < want {
                want = room;
            }
            if want == 0 {
                done = true;
            } else {
                let (head, _rest) = scratch.as_mut_slice().split_at_mut(want);
                match src.read_into(head) {
                    Ok(0) => {
                        done = true;
                    },
                    Ok(n) => {
                        let mut k: usize = 0;
                        let ghost before = self@;
                        while k < n
                            invariant
                                0 <= k <= n,
                                n <= head@.len(),
                                n <= room,
                                room == usize::MAX - before.len(),
                                self@ == before + head@.subrange(0, k as int),
                                self.source == old(self).source,
                                self.finished == old(self).finished,
                            decreases n - k,
                        {
                            self.data.push(head[k]);
                            k = k + 1;
                            assert(self@ =~= before + head@.subrange(0, k as int));
                        }
                        proof {
                            assert(before.is_prefix_of(self@));
                        }
                        got = got + n;
                    },
                    Err(e) => {
                        let failed = classify(e);
                        if failed.kind != IoFailure::Interrupted {
                            failure = Some(failed);
                        }
                    },
                }
            }
        }
        match failure {
            Some(e) => Err(e),
            None => Ok(got),
        }
    }

    /// Reads from stream position `pos` into `buf`, first drawing from the source
    /// as many bytes as are missing to fill `buf`.
    ///
    /// A source that produces nothing more is dropped and the core marked
    /// finished; one that fails is dropped and its error returned.
    pub fn read_from_pos(&mut self, buf: &mut [u8], pos: usize) -> (r: Result<usize, StreamError>)
        requires
            pos <= old(self)@.len(),
        ensures
            old(self)@.is_prefix_of(final(self)@),
            final(buf)@.len() == old(buf)@.len(),
            old(self).spec_finished() ==> final(self)@ == old(self)@,
            (old(self).spec_finished() || old(buf)@.len() <= old(self)@.len() - pos) ==> r is Ok,
            r is Err ==> old(self).has_source() && !final(self).has_source()
                && !final(self).spec_finished(),
            r matches Err(e) ==> e.kind != IoFailure::Interrupted,
            r matches Ok(n) ==> {
                &&& pos + n <= final(self)@.len()
                &&& n <= old(buf)@.len()
                &&& final(buf)@.subrange(0, n as int) == final(self)@.subrange(pos as int, pos + n)
                &&& final(buf)@.subrange(n as int, old(buf)@.len() as int) == old(buf)@.subrange(
                    n as int,
                    old(buf)@.len() as int,
                )
                &&& (n == old(buf)@.len() || pos + n == final(self)@.len())
            },
    {
        let ghost buf0 = buf@;
        let len_lb = self.data.len();
        let done = self.finished;
        // Bytes beyond what is stored that this read would need.
        let new_bytes_needed = if buf.len() > len_lb - pos {
            buf.len() - (len_lb - pos)
        } else {
            0
        };
        if !done && new_bytes_needed > 0 {
            match self.source.take() {
                Some(src) => {
                    let mut src = src;
                    match self.copy_from(&mut src, new_bytes_needed) {
                        Ok(got) => {
                            self.finished = got == 0;
                            if got != 0 {
                                self.source = Some(src);
                            }
                        },
                        Err(e) => {
                            return Err(e);
                        },
                    }
                },
                None => {},
            }
        }
        let available = self.data.len() - pos;
        let to_use = if buf.len() < available {
            buf.len()
        } else {
            available
        };
        let mut k: usize = 0;
        while k < to_use
            invariant
                0 <= k <= to_use,
                to_use <= buf@.len(),
                pos + to_use <= self@.len(),
                pos + to_use <= usize::MAX,
                buf@.len() == buf0.len(),
                forall|m: int| 0 <= m < k ==> #[trigger] buf@[m] == self@[pos + m],
                forall|m: int| k <= m < buf@.len() ==> #[trigger] buf@[m] == buf0[m],
            decreases to_use - k,
        {
            buf[k] = self.data[pos + k];
            k = k + 1;
        }
        assert(buf@.subrange(0, to_use as int) =~= self@.subrange(pos as int, pos + to_use));
        assert(buf@.subrange(to_use as int, buf0.len() as int) =~= buf0.subrange(
            to_use as int,
            buf0.len() as int,
        ));
        Ok(to_use)
    }
}

/// The lock around a naive core asks nothing of it beyond its own type.
pub struct CorePred {}

impl<T> RwLockPredicate<ReadCore<T>> for CorePred {
    open spec fn inv(self, v: ReadCore<T>) -> bool {
        true
    }
}

/// A shared reader over a source, storing its bytes contiguously: every handle
/// reads one core, from its own position.
pub struct NaiveSharedRead<T> {
    core: Arc<RwLock<ReadCore<T>, CorePred>>,
    pos: usize,
    seen: Ghost<Seq<u8>>,
}

impl<T> NaiveSharedRead<T> {
    /// This handle's position in the stream.
    pub closed spec fn spec_pos(&self) -> usize {
        self.pos
    }

    /// Whether two handles share one core.
    pub closed spec fn shares_core(&self, other: &Self) -> bool {
        self.core == other.core
    }

    /// The bytes the shared core held when this handle last looked at it.
    pub closed spec fn spec_seen(&self) -> Seq<u8> {
        self.seen@
    }

    /// A reader over `source`, at the start of the stream.
    pub fn new(source: T) -> (r: Self)
        ensures
            r.spec_pos() == 0,
    {
        let lock = RwLock::new(ReadCore::new(source), Ghost(CorePred {}));
        NaiveSharedRead { core: Arc::new(lock), pos: 0, seen: Ghost(Seq::empty()) }
    }

    /// Another handle onto the same core, from the start of the stream.
    pub fn new_handle(&self) -> (r: Self)
        ensures
            r.spec_pos() == 0,
            r.shares_core(self),
    {
        NaiveSharedRead { core: share(&self.core), pos: 0, seen: self.seen }
    }

    /// Returns this handle's position.
    pub fn pos(&self) -> (r: usize)
        ensures
            r == self.spec_pos(),
    {
        self.pos
    }
}

impl<T> Clone for NaiveSharedRead<T> {
    /// Another handle onto the same core, at the same position.
    fn clone(&self) -> (r: Self)
        ensures
            r.spec_pos() == self.spec_pos(),
            r.shares_core(self),
    {
        NaiveSharedRead { core: share(&self.core), pos: self.pos, seen: self.seen }
    }
}

impl<T: Source> NaiveSharedRead<T> {
    /// Reads from this handle's position into `buf`, first drawing from the
    /// source as many bytes as are missing; advances the position by the
    /// number of bytes read, and `Ok(0)` means the stream has ended here.
    pub fn read(&mut self, buf: &mut [u8]) -> (r: Result<usize, StreamError>)
        ensures
            final(buf)@.len() == old(buf)@.len(),
            final(self).shares_core(old(self)),
            r matches Ok(n) ==> n <= old(buf)@.len() && final(self).spec_pos() == old(self).spec_pos() + n,
            r is Err ==> final(self).spec_pos() == old(self).spec_pos(),
            r matches Err(e) ==> e.kind != IoFailure::Interrupted,
            old(buf)@.len() == 0 ==> r matches Ok(0),
            r matches Ok(n) ==> {
                &&& n == old(buf)@.len() || old(self).spec_pos() + n == final(self).spec_seen().len()
                &&& 0 < n ==> old(self).spec_pos() + n <= final(self).spec_seen().len()
                    && final(buf)@.subrange(0, n as int) == final(self).spec_seen().subrange(
                    old(self).spec_pos() as int,
                    old(self).spec_pos() + n,
                ) && final(buf)@.subrange(n as int, old(buf)@.len() as int) == old(
                    buf,
                )@.subrange(n as int, old(buf)@.len() as int)
            },
    {
        let (mut core, handle) = self.core.acquire_write();
        if buf.len() == 0 {
            handle.release_write(core);
            return Ok(0);
        }
        if self.pos > core.len() {
            // A handle's position never passes the bytes stored.
            let ghost s = core@;
            handle.release_write(core);
            self.seen = Ghost(s);
            return Err(io_error(IoFailure::InvalidInput, "Position is past the stored stream."));
        }
        let r = core.read_from_pos(buf, self.pos);
        let stored = core.len();
        let ghost s = core@;
        handle.release_write(core);
        self.seen = Ghost(s);
        match r {
            Ok(n) => {
                assert(self.pos + n <= stored);
                self.pos = self.pos + n;
                Ok(n)
            },
            Err(e) => Err(e),
        }
    }
}

} // verus!
