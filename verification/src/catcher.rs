//! Handles onto a shared stream buffer: each handle has its own position, and
//! every handle made from the same stream shares one locked store.
use crate::config::{CatcherError, Config, Identity};
use crate::rope_state::CacheReadLocation;
use crate::store::{chosen_chunk_size, chosen_config, new_async_store, RawStore};
use crate::transform::{
    classify, io_error, AsyncSource, AsyncTransform, IoFailure, NeedsBytes, Progress, Source,
    read_amount, StateAccess, Stateful, StreamError, Transform,
};
use std::sync::Arc;
use vstd::prelude::*;
use vstd::rwlock::{RwLock, RwLockPredicate};

verus! {

/// The invariant that the lock around a shared store maintains: the store is
/// consistent, and keeps the configuration it was built with.
pub struct StorePred {
    pub config: Ghost<Config>,
}

impl<T, Tx> RwLockPredicate<RawStore<T, Tx>> for StorePred {
    open spec fn inv(self, v: RawStore<T, Tx>) -> bool {
        &&& v.wf()
        &&& v.spec_config() == self.config@
    }
}

/// Makes another pointer to the same shared allocation.
///
/// Calls `Arc::clone`, which the standard library documents as producing a new
/// `Arc` to the same allocation; the contract says the two are the same value.
#[verifier::external_body]
pub(crate) fn share<V>(a: &Arc<V>) -> (r: Arc<V>)
    ensures
        r == *a,
{
    a.clone()
}

/// Number of bytes that one step of `load_all` skips over.
pub const LOAD_ALL_STEP: usize = 7680;

/// Size of the scratch buffer that `skip` reads into.
pub const SKIP_BUFFER_LEN: usize = 8192;

/// The most steps that `load_all` or `skip` take before giving up on a
/// stream that keeps making no progress.
pub const MAX_STEPS: u64 = 0xffff_ffff_ffff_ffff;

/// Where a seek is measured from.
#[derive(Clone, Copy, Debug, Eq, PartialEq, Structural)]
pub enum SeekFrom {
    /// From the start of the stream.
    Start(u64),
    /// From the end of the (fully loaded) stream.
    End(i64),
    /// From the handle's current position.
    Current(i64),
}

/// `x` reduced into the range of a `u64`, as wrapping arithmetic does.
pub open spec fn wrap_u64(x: int) -> u64 {
    if x > u64::MAX {
        (x - 0x1_0000_0000_0000_0000) as u64
    } else if x < 0 {
        (x + 0x1_0000_0000_0000_0000) as u64
    } else {
        x as u64
    }
}

/// Whether moving by `adj` from `base` stays at or after the start of the
/// stream, and where (with wrapping arithmetic) it lands.
pub open spec fn offset_target(base: u64, adj: i64) -> (bool, u64) {
    (adj >= 0 || -adj <= base, wrap_u64(base + adj))
}

/// Moves by `adj` from `base`: whether that stays at or after the start,
/// and where (with wrapping arithmetic) it lands.
pub fn offset_from(base: u64, adj: i64) -> (r: (bool, u64))
    ensures
        r == offset_target(base, adj),
{
    if adj >= 0 {
        (true, base.wrapping_add(adj as u64))
    } else {
        let mag: u64 = (0i128 - (adj as i128)) as u64;
        (mag <= base, base.wrapping_sub(mag))
    }
}

/// Where a seek request lands for a handle at `old_pos` on a stream whose
/// end (once loaded) is at `end`: whether it is valid, and the target position.
pub open spec fn seek_target(from: SeekFrom, old_pos: u64, end: u64) -> (bool, u64) {
    match from {
        SeekFrom::Start(n) => (true, n),
        SeekFrom::Current(adj) => offset_target(old_pos, adj),
        SeekFrom::End(adj) => offset_target(end, adj),
    }
}

/// Computes where a seek request lands; see `seek_target`.
pub fn resolve_seek(from: SeekFrom, old_pos: u64, end: u64) -> (r: (bool, u64))
    ensures
        r == seek_target(from, old_pos, end),
{
    match from {
        SeekFrom::Start(n) => (true, n),
        SeekFrom::Current(adj) => offset_from(old_pos, adj),
        SeekFrom::End(adj) => offset_from(end, adj),
    }
}

/// A shared stream buffer, using an applied input data transform.
pub struct TxCatcher<T, Tx> {
    core: Arc<RwLock<RawStore<T, Tx>, StorePred>>,
    pos: usize,
    seen: Ghost<RawStore<T, Tx>>,
    faults: Ghost<nat>,
    stalls: Ghost<nat>,
}

/// A simple shared stream buffer, leaving data unchanged.
pub type Catcher<T> = TxCatcher<T, Identity>;

/// Whether a read of `n` bytes from stream position `pos`, into a buffer that
/// held `before` and now holds `after`, took its bytes from the store `s`:
/// the first `n` bytes of the buffer are the stored bytes at `pos`, and the
/// rest of the buffer is untouched.
pub open spec fn copied_from<T, Tx>(
    s: RawStore<T, Tx>,
    pos: int,
    before: Seq<u8>,
    after: Seq<u8>,
    n: int,
) -> bool {
    &&& 0 <= n <= before.len()
    &&& after.len() == before.len()
    &&& pos + n <= s.spec_len()
    &&& after.subrange(0, n) == s@.subrange(pos, pos + n)
    &&& after.subrange(n, before.len() as int) == before.subrange(n, before.len() as int)
}

/// Whether a read of `n` bytes from `pos` into a buffer of `want` bytes was
/// short only because it reached the end of the finished stream `s`.
pub open spec fn short_only_at_end<T, Tx>(s: RawStore<T, Tx>, pos: int, want: int, n: int) -> bool {
    n == want || (!(s.spec_state() is Live) && pos + n == s.spec_len())
}

impl<T, Tx> TxCatcher<T, Tx> {
    /// What a handle has seen of the shared store is a consistent store with
    /// the handle's configuration.
    #[verifier::type_invariant]
    spec fn handle_inv(self) -> bool {
        &&& self.seen@.wf()
        &&& self.seen@.spec_config() == self.core.pred().config@
    }

    /// This handle's position in the stream.
    pub closed spec fn spec_pos(&self) -> usize {
        self.pos
    }

    /// The configuration the shared store was built with.
    pub closed spec fn spec_config(&self) -> Config {
        self.core.pred().config@
    }

    /// The shared store as this handle last observed it under the lock.
    pub closed spec fn spec_seen(&self) -> RawStore<T, Tx> {
        self.seen@
    }

    /// Whether two handles share one store.
    pub closed spec fn shares_store(&self, other: &Self) -> bool {
        self.core == other.core
    }

    /// How many reads through this handle have failed.
    pub closed spec fn spec_faults(&self) -> nat {
        self.faults@
    }

    /// How many reads through this handle found the source not ready.
    pub closed spec fn spec_stalls(&self) -> nat {
        self.stalls@
    }

    /// The counts of failed and of stalled reads are those of `other`.
    pub open spec fn same_counts(&self, other: &Self) -> bool {
        &&& self.spec_faults() == other.spec_faults()
        &&& self.spec_stalls() == other.spec_stalls()
    }

    /// Acquire a new handle to this object, creating a new
    /// view of the existing cached data from the beginning.
    pub fn new_handle(&self) -> (r: Self)
        ensures
            r.spec_pos() == 0,
            r.shares_store(self),
            r.spec_config() == self.spec_config(),
            r.spec_seen() == self.spec_seen(),
    {
        proof {
            use_type_invariant(self);
        }
        TxCatcher { core: share(&self.core), pos: 0, seen: self.seen, faults: Ghost(0), stalls: Ghost(0) }
    }

    /// Moves this handle to `pos`.
    fn set_pos(&mut self, pos: usize)
        ensures
            final(self).spec_pos() == pos,
            final(self).shares_store(old(self)),
            final(self).spec_seen() == old(self).spec_seen(),
            final(self).spec_faults() == old(self).spec_faults(),
            final(self).spec_stalls() == old(self).spec_stalls(),
    {
        proof {
            use_type_invariant(&*self);
        }
        self.pos = pos;
    }

    /// Returns whether the underlying stream has been *finalised*, *i.e.*,
    /// whether all rope segments have been combined into a single contiguous backing store.
    ///
    /// According to `Config`, this may never become true if finalisation is disabled.
    pub fn is_finalised(&mut self) -> (r: bool)
        ensures
            final(self).same_counts(old(self)),
            final(self).spec_pos() == old(self).spec_pos(),
            final(self).shares_store(old(self)),
            r == (final(self).spec_seen().spec_state() is Finalised),
            r ==> old(self).spec_config().spec_use_backing(),
    {
        let handle = self.core.acquire_read();
        let store = handle.borrow();
        proof {
            store.lemma_inv_facts();
        }
        let ghost s = *store;
        let r = store.is_finalised();
        handle.release_read();
        self.seen = Ghost(s);
        r
    }

    /// Returns whether the underlying stream is *finished*, *i.e.*, all bytes it will
    /// produce have been stored in some fashion.
    pub fn is_finished(&mut self) -> (r: bool)
        ensures
            final(self).same_counts(old(self)),
            final(self).spec_pos() == old(self).spec_pos(),
            final(self).shares_store(old(self)),
            r == !(final(self).spec_seen().spec_state() is Live),
    {
        let handle = self.core.acquire_read();
        let store = handle.borrow();
        let ghost s = *store;
        let r = store.is_finished();
        handle.release_read();
        self.seen = Ghost(s);
        r
    }

    /// Returns this handle's position.
    pub fn pos(&self) -> (r: usize)
        ensures
            r == self.spec_pos(),
    {
        self.pos
    }

    /// Returns the number of bytes taken and stored from the transformed stream.
    pub fn len(&mut self) -> (r: usize)
        ensures
            final(self).same_counts(old(self)),
            final(self).spec_pos() == old(self).spec_pos(),
            final(self).shares_store(old(self)),
            r == final(self).spec_seen().spec_len(),
    {
        let handle = self.core.acquire_read();
        let store = handle.borrow();
        let ghost s = *store;
        let r = store.len();
        handle.release_read();
        self.seen = Ghost(s);
        r
    }

    /// Returns whether any bytes have been stored from the transformed source.
    pub fn is_empty(&mut self) -> (r: bool)
        ensures
            final(self).same_counts(old(self)),
            final(self).spec_pos() == old(self).spec_pos(),
            final(self).shares_store(old(self)),
            r == (final(self).spec_seen().spec_len() != 0),
    {
        self.len() != 0
    }

    /// Returns the number of bytes stored and whether the stream is finished,
    /// as one look at the store.
    fn observe_end(&mut self) -> (r: (usize, bool))
        ensures
            final(self).spec_pos() == old(self).spec_pos(),
            final(self).shares_store(old(self)),
            final(self).same_counts(old(self)),
            r.0 == final(self).spec_seen().spec_len(),
            r.1 == !(final(self).spec_seen().spec_state() is Live),
    {
        let handle = self.core.acquire_read();
        let store = handle.borrow();
        let ghost s = *store;
        let r = (store.len(), store.is_finished());
        handle.release_read();
        self.seen = Ghost(s);
        r
    }

    /// Returns a builder object to configure and construct a cache.
    pub fn builder() -> (r: Config)
        ensures
            r.is_default(),
    {
        Config::new()
    }

    /// Returns the configuration the shared store was built with.
    pub fn config(&self) -> (r: Config)
        ensures
            r == self.spec_config(),
    {
        let handle = self.core.acquire_read();
        let r = handle.borrow().config();
        handle.release_read();
        r
    }

    /// Builds the backing store now, if the stream has finished and it is not built yet.
    ///
    /// This is the work that a finaliser running elsewhere performs.
    pub fn finalise_now(&self) {
        let (mut store, handle) = self.core.acquire_write();
        store.do_finalise();
        handle.release_write(store);
    }
}

/// Whether `config` leaves the finaliser choice to a blocking stream buffer:
/// none given, or one whose finaliser is synchronous.
pub open spec fn finaliser_allowed(config: Option<Config>) -> bool {
    match config {
        Some(c) => c.spec_spawn_finaliser().spec_is_sync(),
        None => true,
    }
}

impl<T, Tx: NeedsBytes> TxCatcher<T, Tx> {
    /// Create a new stream buffer using a custom transform and configuration.
    ///
    /// Fails with `IllegalFinaliser` when the configured finaliser is not a
    /// synchronous one, and otherwise with `ChunkSize` exactly when the chunk
    /// size is below the transform's minimum contiguous byte count.
    pub fn with_tx(source: T, transform: Tx, config: Option<Config>) -> (r: Result<Self, CatcherError>)
        ensures
            !finaliser_allowed(config) ==> r == Err::<Self, CatcherError>(
                CatcherError::IllegalFinaliser,
            ),
            finaliser_allowed(config) ==> exists|m: usize|
                call_ensures(Tx::min_bytes_required, (&transform,), m) && ((r is Ok) == (m
                    <= chosen_chunk_size(config))),
            r matches Err(e) ==> (e == CatcherError::IllegalFinaliser || e == CatcherError::ChunkSize),
            r matches Ok(c) ==> {
                &&& c.spec_pos() == 0
                &&& chosen_config(config, c.spec_config())
                &&& c.spec_seen()@ == Seq::<u8>::empty()
                &&& c.spec_seen().spec_state() is Live
                &&& c.spec_seen().spec_transform() == transform
            },
    {
        match &config {
            Some(c) => {
                if !c.finaliser().is_sync() {
                    return Err(CatcherError::IllegalFinaliser);
                }
            },
            None => {},
        }
        match RawStore::new(source, transform, config) {
            Ok(store) => {
                let ghost s = store;
                let lock = RwLock::new(store, Ghost(StorePred { config: Ghost(store.spec_config()) }));
                Ok(
                    TxCatcher {
                        core: Arc::new(lock),
                        pos: 0,
                        seen: Ghost(s),
                        faults: Ghost(0),
                        stalls: Ghost(0),
                    },
                )
            },
            Err(e) => Err(e),
        }
    }
}

impl<T, Tx: NeedsBytes + Default> TxCatcher<T, Tx> {
    /// Create a new stream buffer using the default transform and
    /// the given configuration, or the default one.
    pub fn new(source: T, config: Option<Config>) -> (r: Result<Self, CatcherError>)
        ensures
            !finaliser_allowed(config) ==> r == Err::<Self, CatcherError>(
                CatcherError::IllegalFinaliser,
            ),
            finaliser_allowed(config) ==> exists|tx: Tx, m: usize|
                call_ensures(Tx::default, (), tx) && call_ensures(
                    Tx::min_bytes_required,
                    (&tx,),
                    m,
                ) && ((r is Ok) == (m <= chosen_chunk_size(config))),
            r matches Err(e) ==> (e == CatcherError::IllegalFinaliser || e == CatcherError::ChunkSize),
            r matches Ok(c) ==> {
                &&& c.spec_pos() == 0
                &&& chosen_config(config, c.spec_config())
                &&& c.spec_seen()@ == Seq::<u8>::empty()
                &&& c.spec_seen().spec_state() is Live
            },
    {
        let tx = Tx::default();
        Self::with_tx(source, tx, config)
    }

    /// Create a new stream buffer using the default transform and
    /// a custom configuration.
    pub fn with_config(source: T, config: Config) -> (r: Result<Self, CatcherError>)
        ensures
            !finaliser_allowed(Some(config)) ==> r == Err::<Self, CatcherError>(
                CatcherError::IllegalFinaliser,
            ),
            finaliser_allowed(Some(config)) ==> exists|tx: Tx, m: usize|
                call_ensures(Tx::default, (), tx) && call_ensures(
                    Tx::min_bytes_required,
                    (&tx,),
                    m,
                ) && ((r is Ok) == (m <= config.spec_chunk_size())),
            r matches Err(e) ==> (e == CatcherError::IllegalFinaliser || e == CatcherError::ChunkSize),
            r matches Ok(c) ==> {
                &&& c.spec_pos() == 0
                &&& c.spec_config() == config
                &&& c.spec_seen()@ == Seq::<u8>::empty()
                &&& c.spec_seen().spec_state() is Live
            },
    {
        let tx = Tx::default();
        Self::with_tx(source, tx, Some(config))
    }
}

impl<T, Tx> Clone for TxCatcher<T, Tx> {
    /// Another handle onto the same store, at the same position.
    fn clone(&self) -> (r: Self)
        ensures
            r.spec_pos() == self.spec_pos(),
            r.shares_store(self),
            r.spec_config() == self.spec_config(),
            r.spec_seen() == self.spec_seen(),
    {
        let mut out = self.new_handle();
        out.set_pos(self.pos);
        out
    }
}

/// Where a seek towards `target` settles on a stream holding `len` bytes:
/// the target itself, or the end of the stored bytes if it lies beyond them.
pub open spec fn settle(target: u64, len: usize) -> u64 {
    if target < len {
        target
    } else {
        len as u64
    }
}

impl<T, Tx> TxCatcher<T, Tx> {
    /// Counts one more failed read through this handle.
    fn note_fault(&mut self)
        ensures
            final(self).spec_faults() == old(self).spec_faults() + 1,
            final(self).spec_stalls() == old(self).spec_stalls(),
            final(self).spec_pos() == old(self).spec_pos(),
            final(self).spec_seen() == old(self).spec_seen(),
            final(self).shares_store(old(self)),
    {
        proof {
            use_type_invariant(&*self);
        }
        self.faults = Ghost(self.faults@ + 1);
    }

    /// Counts one more read through this handle that found the source not
    /// ready, if `stalled` says so.
    fn note_stalled_if(&mut self, Ghost(stalled): Ghost<bool>)
        ensures
            final(self).spec_stalls() == old(self).spec_stalls() + (if stalled {
                1nat
            } else {
                0nat
            }),
            final(self).spec_faults() == old(self).spec_faults(),
            final(self).spec_pos() == old(self).spec_pos(),
            final(self).spec_seen() == old(self).spec_seen(),
            final(self).shares_store(old(self)),
    {
        proof {
            use_type_invariant(&*self);
        }
        self.stalls = Ghost(if stalled {
            self.stalls@ + 1
        } else {
            self.stalls@
        });
    }

    /// Counts one more read through this handle that found the source not ready.
    fn note_stall(&mut self)
        ensures
            final(self).spec_stalls() == old(self).spec_stalls() + 1,
            final(self).spec_faults() == old(self).spec_faults(),
            final(self).spec_pos() == old(self).spec_pos(),
            final(self).spec_seen() == old(self).spec_seen(),
            final(self).shares_store(old(self)),
    {
        proof {
            use_type_invariant(&*self);
        }
        self.stalls = Ghost(self.stalls@ + 1);
    }
}

/// Whether a handle that moved to `p` while seeking towards `target` settled
/// where it should: at the target, or short of it only at the end of the
/// stored bytes it saw (`s`), which is then the end of the finished stream
/// unless a read failed on the way (`failed`); or at the largest `usize`.
pub open spec fn settled_at<T, Tx>(p: u64, target: u64, s: RawStore<T, Tx>, failed: bool) -> bool {
    &&& p <= target
    &&& p < target ==> {
        ||| p == s.spec_len() && (!(s.spec_state() is Live) || failed)
        ||| p == usize::MAX
    }
}

impl<T: Source, Tx: Transform<T>> TxCatcher<T, Tx> {
    /// Reads from this handle's position into `buf`, advancing the position
    /// by the number of bytes read.
    ///
    /// Bytes already stored are read while the store is shared with other
    /// readers; only a read that must draw new bytes from the source locks the
    /// store for itself. A read fails only while the source is live and must be
    /// drawn from. The second result says whether the stream finished during
    /// this read with a finaliser that runs elsewhere, in which case
    /// `finalise_now` should be run (typically on another thread).
    pub fn read_step(&mut self, buf: &mut [u8]) -> (r: (Result<usize, StreamError>, bool))
        ensures
            final(buf)@.len() == old(buf)@.len(),
            final(self).shares_store(old(self)),
            r.0 matches Ok(n) ==> {
                &&& final(self).spec_pos() == old(self).spec_pos() + n
                &&& copied_from(
                    final(self).spec_seen(),
                    old(self).spec_pos() as int,
                    old(buf)@,
                    final(buf)@,
                    n as int,
                )
                &&& short_only_at_end(
                    final(self).spec_seen(),
                    old(self).spec_pos() as int,
                    old(buf)@.len() as int,
                    n as int,
                )
                &&& final(self).same_counts(old(self))
            },
            r.0 matches Err(e) ==> e.kind != IoFailure::Interrupted,
            r.0 is Err ==> {
                &&& final(self).spec_pos() == old(self).spec_pos()
                &&& final(self).spec_faults() == old(self).spec_faults() + 1
                &&& final(self).spec_stalls() == old(self).spec_stalls()
                &&& (final(self).spec_seen().spec_state() is Live || old(self).spec_pos()
                    > final(self).spec_seen().spec_len())
            },
            (!(final(self).spec_seen().spec_state() is Live) && old(self).spec_pos()
                <= final(self).spec_seen().spec_len()) ==> r.0 is Ok,
            r.1 ==> old(self).spec_config().spec_spawn_finaliser().spec_hands_off(),
            old(buf)@.len() == 0 ==> !r.1 && ((r.0 is Ok) == (old(self).spec_pos()
                <= final(self).spec_seen().spec_len())),
    {
        let ghost buf0 = buf@;
        let pos = self.pos;
        let shared = self.core.acquire_read();
        let store = shared.borrow();
        proof {
            store.lemma_inv_facts();
        }
        let ghost s = *store;
        let len = store.len();
        if pos <= len && (store.is_finished() || buf.len() <= len - pos) && !(store.is_finalised()
            && store.holds_rope()) {
            // Nothing new is needed from the source: read under the shared lock.
            let count = if buf.len() < len - pos {
                buf.len()
            } else {
                len - pos
            };
            let loc = if store.is_finalised() {
                CacheReadLocation::Backed
            } else {
                CacheReadLocation::Roped
            };
            let n = store.read_from_local(pos, loc, buf, 0, count);
            shared.release_read();
            proof {
                assert(buf@.subrange(0, n as int) =~= s@.subrange(pos as int, pos + n));
                assert(buf@.subrange(n as int, buf0.len() as int) =~= buf0.subrange(
                    n as int,
                    buf0.len() as int,
                ));
            }
            self.seen = Ghost(s);
            self.set_pos(pos + n);
            return (Ok(n), false);
        }
        shared.release_read();
        let (mut store, exclusive) = self.core.acquire_write();
        if pos > store.len() {
            // A handle's position never passes the stored length.
            let ghost s = store;
            exclusive.release_write(store);
            self.seen = Ghost(s);
            self.note_fault();
            return (Err(io_error(IoFailure::InvalidInput, "Position is past the stored stream.")), false);
        }
        let (bytes_read, should_finalise_here) = store.read_from_pos(pos, buf);
        let ghost s = store;
        exclusive.release_write(store);
        self.seen = Ghost(s);
        match bytes_read {
            Ok(n) => {
                self.set_pos(pos + n);
                (Ok(n), should_finalise_here)
            },
            Err(e) => {
                self.note_fault();
                (Err(e), should_finalise_here)
            },
        }
    }

    /// Reads from this handle's position into `buf`, advancing the position
    /// by the number of bytes read; `Ok(0)` means the stream has ended here.
    ///
    /// If the stream finishes during this read and its finaliser runs elsewhere,
    /// the backing store is built here before returning.
    pub fn read(&mut self, buf: &mut [u8]) -> (r: Result<usize, StreamError>)
        ensures
            final(buf)@.len() == old(buf)@.len(),
            final(self).shares_store(old(self)),
            r matches Ok(n) ==> {
                &&& final(self).spec_pos() == old(self).spec_pos() + n
                &&& copied_from(
                    final(self).spec_seen(),
                    old(self).spec_pos() as int,
                    old(buf)@,
                    final(buf)@,
                    n as int,
                )
                &&& short_only_at_end(
                    final(self).spec_seen(),
                    old(self).spec_pos() as int,
                    old(buf)@.len() as int,
                    n as int,
                )
                &&& final(self).same_counts(old(self))
            },
            r matches Err(e) ==> e.kind != IoFailure::Interrupted,
            r is Err ==> {
                &&& final(self).spec_pos() == old(self).spec_pos()
                &&& final(self).spec_faults() == old(self).spec_faults() + 1
                &&& final(self).spec_stalls() == old(self).spec_stalls()
                &&& (final(self).spec_seen().spec_state() is Live || old(self).spec_pos()
                    > final(self).spec_seen().spec_len())
            },
            (!(final(self).spec_seen().spec_state() is Live) && old(self).spec_pos()
                <= final(self).spec_seen().spec_len()) ==> r is Ok,
            old(buf)@.len() == 0 ==> ((r is Ok) == (old(self).spec_pos()
                <= final(self).spec_seen().spec_len())),
    {
        let (bytes_read, should_finalise_here) = self.read_step(buf);
        if should_finalise_here {
            self.finalise_now();
        }
        bytes_read
    }

    /// Reads and discards up to `amt` bytes from this handle's position.
    ///
    /// Returns how many bytes were skipped and whether a read failed on the
    /// way (interrupted reads are retried, and count as failed reads of the
    /// handle). Short of `amt` without a failure means the end of the finished
    /// stream was reached.
    fn skip_through(&mut self, amt: usize) -> (r: (usize, bool))
        ensures
            r.0 <= amt,
            final(self).shares_store(old(self)),
            final(self).spec_pos() == old(self).spec_pos() + r.0,
            final(self).spec_faults() >= old(self).spec_faults(),
            final(self).spec_stalls() == old(self).spec_stalls(),
            r.1 ==> final(self).spec_faults() > old(self).spec_faults(),
            (r.0 > 0 && final(self).spec_faults() == old(self).spec_faults()) ==> final(self).spec_pos()
                <= final(self).spec_seen().spec_len(),
            (!r.1 && r.0 < amt) ==> !(final(self).spec_seen().spec_state() is Live)
                && final(self).spec_pos() == final(self).spec_seen().spec_len(),
    {
        let mut scratch: Vec<u8> = vec![0u8; SKIP_BUFFER_LEN];
        let mut total: usize = 0;
        let mut failed = false;
        let mut done = false;
        let mut steps_left: u64 = MAX_STEPS;
        while !done && !failed && total < amt && steps_left > 0
            invariant
                total <= amt,
                scratch@.len() == SKIP_BUFFER_LEN,
                self.shares_store(old(self)),
                self.spec_pos() == old(self).spec_pos() + total,
                self.spec_faults() >= old(self).spec_faults(),
                self.spec_stalls() == old(self).spec_stalls(),
                failed ==> self.spec_faults() > old(self).spec_faults(),
                (!done && self.spec_faults() == old(self).spec_faults()) ==> total + steps_left
                    >= MAX_STEPS,
                (total > 0 && self.spec_faults() == old(self).spec_faults()) ==> self.spec_pos()
                    <= self.spec_seen().spec_len(),
                done ==> !(self.spec_seen().spec_state() is Live) && self.spec_pos()
                    == self.spec_seen().spec_len(),
            decreases steps_left,
        {
            steps_left = steps_left - 1;
            let want = if amt - total < SKIP_BUFFER_LEN {
                amt - total
            } else {
                SKIP_BUFFER_LEN
            };
            let (head, _rest) = scratch.as_mut_slice().split_at_mut(want);
            match self.read(head) {
                Ok(0) => {
                    done = true;
                },
                Ok(n) => {
                    total = total + n;
                },
                Err(_) => {
                    // Interrupted reads were already retried within the read.
                    failed = true;
                },
            }
        }
        // Without a failed read, every round that did not end the loop moved
        // forwards, so running out of rounds means a read failed.
        (total, failed || (!done && total < amt))
    }

    /// Reads the whole stream into the store and returns its length; the
    /// handle's position is left as it was. The length is that of the store
    /// as last seen, which is then finished unless a read failed.
    fn load_to_end(&mut self) -> (end: usize)
        ensures
            final(self).spec_pos() == old(self).spec_pos(),
            final(self).shares_store(old(self)),
            final(self).spec_faults() >= old(self).spec_faults(),
            end == final(self).spec_seen().spec_len(),
            !(final(self).spec_seen().spec_state() is Live) || final(self).spec_faults() > old(
                self,
            ).spec_faults(),
    {
        let start = self.pos;
        let mut end: usize = 0;
        let mut done = false;
        while !done
            invariant
                self.shares_store(old(self)),
                self.spec_faults() >= old(self).spec_faults(),
                done ==> end == self.spec_seen().spec_len() && (!(self.spec_seen().spec_state() is Live)
                    || self.spec_faults() > old(self).spec_faults()),
            decreases usize::MAX - self.spec_pos() + (if done {
                0int
            } else {
                1int
            }),
        {
            let (skipped, failed) = self.skip_through(LOAD_ALL_STEP);
            if failed {
                end = self.len();
                done = true;
            } else if skipped < LOAD_ALL_STEP {
                // The read that came up short found the end of the finished stream.
                end = self.pos;
                done = true;
            } else {
                let (len, finished) = self.observe_end();
                if finished {
                    end = len;
                    done = true;
                }
            }
        }
        self.set_pos(start);
        end
    }

    /// Block the current thread to read all bytes from the underlying stream
    /// into the backing store; the handle's position is left as it was.
    ///
    /// On return the stream was last seen finished, unless a read failed.
    pub fn load_all(&mut self)
        ensures
            final(self).spec_pos() == old(self).spec_pos(),
            final(self).shares_store(old(self)),
            final(self).spec_faults() >= old(self).spec_faults(),
            !(final(self).spec_seen().spec_state() is Live) || final(self).spec_faults() > old(
                self,
            ).spec_faults(),
    {
        let pos = self.pos;
        let mut done = false;
        while !done
            invariant
                self.shares_store(old(self)),
                self.spec_faults() >= old(self).spec_faults(),
                done ==> (!(self.spec_seen().spec_state() is Live) || self.spec_faults() > old(
                    self,
                ).spec_faults()),
            decreases usize::MAX - self.spec_pos() + (if done {
                0int
            } else {
                1int
            }),
        {
            if self.skip(LOAD_ALL_STEP) == 0 {
                done = true;
            } else if self.is_finalised() {
                done = true;
            }
        }
        self.set_pos(pos);
    }

    /// Moves this handle within the stream, returning the new position.
    ///
    /// Seeking from the end first loads the whole stream and measures from the
    /// end found. A target past the end of the stream settles at its end; a
    /// target before its start is an error.
    pub fn seek(&mut self, pos: SeekFrom) -> (r: Result<u64, StreamError>)
        ensures
            final(self).shares_store(old(self)),
            final(self).spec_faults() >= old(self).spec_faults(),
            r matches Ok(p) ==> p == final(self).spec_pos(),
            r matches Err(e) ==> e.kind == IoFailure::InvalidInput,
            pos matches SeekFrom::Start(n) ==> r matches Ok(p) && settled_at(
                p,
                n,
                final(self).spec_seen(),
                final(self).spec_faults() > old(self).spec_faults(),
            ),
            pos matches SeekFrom::Current(adj) ==> {
                let (valid, target) = offset_target(old(self).spec_pos() as u64, adj);
                &&& (r is Ok) == valid
                &&& r matches Ok(p) ==> settled_at(
                    p,
                    target,
                    final(self).spec_seen(),
                    final(self).spec_faults() > old(self).spec_faults(),
                )
                &&& r is Err ==> final(self).spec_pos() == old(self).spec_pos()
            },
            pos matches SeekFrom::End(adj) ==> {
                let end = final(self).spec_seen().spec_len();
                let (valid, target) = offset_target(end as u64, adj);
                &&& (r is Ok) == valid
                &&& r matches Ok(p) ==> p == settle(target, end)
                &&& (!(final(self).spec_seen().spec_state() is Live) || final(self).spec_faults() > old(
                    self,
                ).spec_faults())
            },
    {
        match pos {
            SeekFrom::End(adj) => {
                // Reduce the number of skip calls in a big load.
                let stored = self.len();
                self.set_pos(stored);
                // Slower to load in the whole stream first, but safer.
                let end = self.load_to_end();
                let (valid, new_pos) = offset_from(end as u64, adj);
                if valid {
                    // The whole stream was just loaded: the end found is where
                    // any target past it settles.
                    let settled = if new_pos < end as u64 {
                        new_pos
                    } else {
                        end as u64
                    };
                    self.set_pos(settled as usize);
                    Ok(settled)
                } else {
                    Err(io_error(IoFailure::InvalidInput, "Tried to seek before start of stream."))
                }
            },
            _ => {
                let old_pos = self.pos as u64;
                let (valid, new_pos) = resolve_seek(pos, old_pos, 0);
                if !valid {
                    return Err(io_error(IoFailure::InvalidInput, "Tried to seek before start of stream."));
                }
                if new_pos <= old_pos {
                    self.set_pos(new_pos as usize);
                    return Ok(new_pos);
                }
                let len = self.len();
                if new_pos <= len as u64 {
                    self.set_pos(new_pos as usize);
                    return Ok(new_pos);
                }
                self.set_pos(len);
                let gap = new_pos - len as u64;
                let amt = if gap <= usize::MAX as u64 {
                    gap as usize
                } else {
                    usize::MAX
                };
                let (_skipped, failed) = self.skip_through(amt);
                let settled = if failed {
                    // A read failed on the way: settle within what is stored.
                    let len = self.len();
                    if new_pos < len as u64 {
                        new_pos
                    } else {
                        len as u64
                    }
                } else {
                    self.pos as u64
                };
                self.set_pos(settled as usize);
                Ok(settled)
            },
        }
    }
}

/// Utility trait to scan forward by discarding bytes.
pub trait ReadSkipExt {
    fn skip(&mut self, amt: usize) -> usize where Self: Sized;
}

impl<R: Source> ReadSkipExt for R {
    /// Reads and discards up to `amt` bytes, stopping early once the source
    /// produces nothing more; returns how many were read, or `0` on an error.
    /// Interrupted reads are retried.
    fn skip(&mut self, amt: usize) -> (r: usize)
        ensures
            r <= amt,
            old(self).known_rest() matches Some(m) ==> {
                &&& r == read_amount(amt as nat, m.len())
                &&& final(self).known_rest() == Some(m.skip(r as int))
            },
    {
        let ghost m0 = self.known_rest();
        let mut scratch: Vec<u8> = vec![0u8; SKIP_BUFFER_LEN];
        let mut total: usize = 0;
        let mut failed = false;
        let mut done = false;
        let mut steps_left: u64 = MAX_STEPS;
        while !done && !failed && total < amt && steps_left > 0
            invariant
                total <= amt,
                scratch@.len() == SKIP_BUFFER_LEN,
                m0 == old(self).known_rest(),
                m0 matches Some(m) ==> {
                    &&& total <= m.len()
                    &&& self.known_rest() == Some(m.skip(total as int))
                    &&& !failed
                    &&& done ==> total == m.len()
                    &&& !done ==> total + steps_left >= MAX_STEPS
                },
            decreases steps_left,
        {
            steps_left = steps_left - 1;
            let want = if amt - total < SKIP_BUFFER_LEN {
                amt - total
            } else {
                SKIP_BUFFER_LEN
            };
            let (head, _rest) = scratch.as_mut_slice().split_at_mut(want);
            let got = self.read_into(head);
            proof {
                if let Some(m) = m0 {
                    if let Ok(n) = got {
                        assert(m.skip(total as int).skip(n as int) =~= m.skip(total + n));
                    }
                }
            }
            match got {
                Ok(0) => {
                    done = true;
                },
                Ok(n) => {
                    total = total + n;
                },
                Err(e) => {
                    if classify(e).kind != IoFailure::Interrupted {
                        failed = true;
                    }
                },
            }
        }
        if failed {
            0
        } else {
            total
        }
    }
}

impl<T: Source, Tx: Transform<T>> ReadSkipExt for TxCatcher<T, Tx> {
    /// Reads and discards up to `amt` bytes, stopping early at the end of the
    /// stream; returns how many were skipped, or `0` on an error.
    fn skip(&mut self, amt: usize) -> (r: usize)
        ensures
            r <= amt,
            final(self).shares_store(old(self)),
            final(self).spec_pos() >= old(self).spec_pos(),
            r > 0 ==> final(self).spec_pos() == old(self).spec_pos() + r,
            final(self).spec_faults() >= old(self).spec_faults(),
            r < amt ==> (!(final(self).spec_seen().spec_state() is Live) && final(self).spec_pos()
                == final(self).spec_seen().spec_len()) || final(self).spec_faults() > old(
                self,
            ).spec_faults(),
    {
        let (total, failed) = self.skip_through(amt);
        if failed {
            0
        } else {
            total
        }
    }
}

impl<T, Tx: Stateful> StateAccess for TxCatcher<T, Tx> {
    type State = <Tx as Stateful>::State;

    fn get_state_unchecked(&self) -> Self::State {
        let handle = self.core.acquire_read();
        let state = handle.borrow().state();
        handle.release_read();
        state
    }

    fn get_final_state(&self) -> (r: Option<Self::State>)
        ensures
            exists|s: RawStore<T, Tx>|
                s.wf() && s.spec_config() == self.spec_config() && ((r is Some) == !(
                s.spec_state() is Live)),
    {
        let (r, Ghost(_seen)) = self.final_state_seen();
        r
    }
}

impl<T, Tx: Stateful> TxCatcher<T, Tx> {
    /// The transform's state if the stream has finished, with the store as it
    /// was read under the lock: `Some` exactly when that store is no longer live.
    fn final_state_seen(&self) -> (r: (Option<<Tx as Stateful>::State>, Ghost<RawStore<T, Tx>>))
        ensures
            r.1@.wf(),
            r.1@.spec_config() == self.spec_config(),
            (r.0 is Some) == !(r.1@.spec_state() is Live),
    {
        let handle = self.core.acquire_read();
        let store = handle.borrow();
        let ghost s = *store;
        let r = if store.is_finished() {
            // No more reads can change the transform once the stream has finished.
            Some(store.state())
        } else {
            None
        };
        handle.release_read();
        (r, Ghost(s))
    }
}

/// Number of bytes that one step of an asynchronous load skips over.
pub const ASYNC_LOAD_STEP: usize = 7680;

impl<T: AsyncSource, Tx: AsyncTransform<T>> TxCatcher<T, Tx> {
    /// Create a new asynchronous stream buffer using a custom transform and
    /// configuration; every finaliser is allowed.
    ///
    /// Fails with `ChunkSize` when the chunk size is below the transform's
    /// minimum contiguous byte count.
    pub fn with_async_tx(source: T, transform: Tx, config: Option<Config>) -> (r: Result<Self, CatcherError>)
        ensures
            r matches Err(e) ==> e == CatcherError::ChunkSize,
            exists|m: usize|
                call_ensures(Tx::min_bytes_required, (&transform,), m) && ((r is Ok) == (m
                    <= chosen_chunk_size(config))),
            r matches Ok(c) ==> {
                &&& c.spec_pos() == 0
                &&& chosen_config(config, c.spec_config())
                &&& c.spec_seen()@ == Seq::<u8>::empty()
                &&& c.spec_seen().spec_state() is Live
                &&& c.spec_seen().spec_transform() == transform
            },
    {
        match new_async_store(source, transform, config) {
            Ok(store) => {
                let ghost s = store;
                let lock = RwLock::new(store, Ghost(StorePred { config: Ghost(store.spec_config()) }));
                Ok(
                    TxCatcher {
                        core: Arc::new(lock),
                        pos: 0,
                        seen: Ghost(s),
                        faults: Ghost(0),
                        stalls: Ghost(0),
                    },
                )
            },
            Err(e) => Err(e),
        }
    }

    /// Polls a read from this handle's position into `buf` within a task,
    /// advancing the position by the number of bytes read.
    ///
    /// `Pending` means the source was not ready and nothing was read. The
    /// second result says whether the stream finished during this read with a
    /// finaliser that runs elsewhere, in which case `finalise_now` should be run
    /// on the configured runtime.
    pub fn poll_read_step(&mut self, cx: &mut core::task::Context<'_>, buf: &mut [u8]) -> (r: Progress<
        (Result<usize, StreamError>, bool),
    >)
        ensures
            final(buf)@.len() == old(buf)@.len(),
            final(self).shares_store(old(self)),
            r matches Progress::Ready((Ok(n), _)) ==> {
                &&& final(self).spec_pos() == old(self).spec_pos() + n
                &&& copied_from(
                    final(self).spec_seen(),
                    old(self).spec_pos() as int,
                    old(buf)@,
                    final(buf)@,
                    n as int,
                )
                &&& (short_only_at_end(
                    final(self).spec_seen(),
                    old(self).spec_pos() as int,
                    old(buf)@.len() as int,
                    n as int,
                ) || (0 < n && final(self).spec_stalls() > old(self).spec_stalls()))
                &&& final(self).spec_faults() == old(self).spec_faults()
            },
            final(self).spec_stalls() >= old(self).spec_stalls(),
            !(r matches Progress::Ready((Ok(_), _))) ==> final(self).spec_pos() == old(self).spec_pos(),
            r matches Progress::Ready((Err(e), _)) ==> {
                &&& e.kind != IoFailure::Interrupted
                &&& final(self).spec_faults() == old(self).spec_faults() + 1
                &&& (final(self).spec_seen().spec_state() is Live || old(self).spec_pos()
                    > final(self).spec_seen().spec_len())
            },
            (!(final(self).spec_seen().spec_state() is Live) && old(self).spec_pos()
                <= final(self).spec_seen().spec_len()) ==> r matches Progress::Ready((Ok(_), _)),
            r is Pending ==> {
                &&& final(self).spec_seen().spec_state() is Live
                &&& final(self).spec_seen().spec_len() < old(self).spec_pos() + old(buf)@.len()
                &&& final(self).spec_stalls() > old(self).spec_stalls()
                &&& final(self).spec_faults() == old(self).spec_faults()
            },
            r matches Progress::Ready((_, true)) ==> old(self).spec_config().spec_spawn_finaliser().spec_hands_off(),
            old(buf)@.len() == 0 ==> (r matches Progress::Ready((res, false)) && ((res is Ok) == (
            old(self).spec_pos() <= final(self).spec_seen().spec_len()))),
    {
        let ghost buf0 = buf@;
        let pos = self.pos;
        let shared = self.core.acquire_read();
        let store = shared.borrow();
        proof {
            store.lemma_inv_facts();
        }
        let ghost s = *store;
        let len = store.len();
        if pos <= len && (store.is_finished() || buf.len() <= len - pos) && !(store.is_finalised()
            && store.holds_rope()) {
            // Nothing new is needed from the source: read under the shared lock.
            let count = if buf.len() < len - pos {
                buf.len()
            } else {
                len - pos
            };
            let loc = if store.is_finalised() {
                CacheReadLocation::Backed
            } else {
                CacheReadLocation::Roped
            };
            let n = store.read_from_local(pos, loc, buf, 0, count);
            shared.release_read();
            proof {
                assert(buf@.subrange(0, n as int) =~= s@.subrange(pos as int, pos + n));
                assert(buf@.subrange(n as int, buf0.len() as int) =~= buf0.subrange(
                    n as int,
                    buf0.len() as int,
                ));
            }
            self.seen = Ghost(s);
            self.set_pos(pos + n);
            return Progress::Ready((Ok(n), false));
        }
        shared.release_read();
        let (mut store, exclusive) = self.core.acquire_write();
        if pos > store.len() {
            // A handle's position never passes the stored length.
            let ghost s = store;
            exclusive.release_write(store);
            self.seen = Ghost(s);
            self.note_fault();
            return Progress::Ready(
                (Err(io_error(IoFailure::InvalidInput, "Position is past the stored stream.")), false),
            );
        }
        let ghost before = store;
        let polled = store.read_from_pos_async(pos, cx, buf);
        let ghost s = store;
        proof {
            before.lemma_inv_facts();
            s.lemma_inv_facts();
        }
        exclusive.release_write(store);
        self.seen = Ghost(s);
        match polled {
            Progress::Ready((Ok(n), should_finalise_here)) => {
                self.note_stalled_if(Ghost(s.spec_stalls() > before.spec_stalls()));
                self.set_pos(pos + n);
                Progress::Ready((Ok(n), should_finalise_here))
            },
            Progress::Ready((Err(e), should_finalise_here)) => {
                self.note_fault();
                Progress::Ready((Err(e), should_finalise_here))
            },
            Progress::Pending => {
                self.note_stall();
                Progress::Pending
            },
        }
    }

    /// Read all bytes from the underlying stream into the backing store in
    /// the current task; the handle's position is restored on completion.
    pub fn load_all_async(self) -> (r: LoadAll<T, Tx>)
        ensures
            r.spec_in_pos() == self.spec_pos(),
            r.spec_catcher().shares_store(&self),
    {
        LoadAll::new(self)
    }

    /// Polls a skip of up to `amt` bytes from this handle's position within a
    /// task. When ready, returns how many bytes were skipped and whether a read
    /// failed on the way (interrupted reads are retried, and count as failed
    /// reads of the handle); short of `amt` without a failure means the end of
    /// the finished stream was reached. `Pending` means the source was not
    /// ready (bytes skipped so far stay skipped).
    fn poll_skip_through(&mut self, cx: &mut core::task::Context<'_>, amt: usize) -> (r: Progress<
        (usize, bool),
    >)
        ensures
            final(self).shares_store(old(self)),
            final(self).spec_faults() >= old(self).spec_faults(),
            final(self).spec_pos() >= old(self).spec_pos(),
            r matches Progress::Ready((n, failed)) ==> {
                &&& n <= amt
                &&& final(self).spec_pos() == old(self).spec_pos() + n
                &&& failed ==> final(self).spec_faults() > old(self).spec_faults()
                &&& (n > 0 && final(self).spec_faults() == old(self).spec_faults())
                    ==> final(self).spec_pos() <= final(self).spec_seen().spec_len()
                &&& (!failed && n < amt) ==> !(final(self).spec_seen().spec_state() is Live)
                    && final(self).spec_pos() == final(self).spec_seen().spec_len()
            },
            amt == 0 ==> r == Progress::Ready((0usize, false)),
            r is Pending ==> final(self).spec_seen().spec_state() is Live,
    {
        let mut scratch: Vec<u8> = vec![0u8; SKIP_BUFFER_LEN];
        let mut total: usize = 0;
        let mut failed = false;
        let mut done = false;
        let mut pending = false;
        let mut steps_left: u64 = MAX_STEPS;
        while !done && !failed && !pending && total < amt && steps_left > 0
            invariant
                total <= amt,
                amt == 0 ==> (!pending && !failed && !done),
                pending ==> self.spec_seen().spec_state() is Live,
                scratch@.len() == SKIP_BUFFER_LEN,
                self.shares_store(old(self)),
                self.spec_pos() == old(self).spec_pos() + total,
                self.spec_faults() >= old(self).spec_faults(),
                failed ==> self.spec_faults() > old(self).spec_faults(),
                (!done && !pending && self.spec_faults() == old(self).spec_faults()) ==> total
                    + steps_left >= MAX_STEPS,
                (total > 0 && !pending && self.spec_faults() == old(self).spec_faults())
                    ==> self.spec_pos() <= self.spec_seen().spec_len(),
                done ==> !(self.spec_seen().spec_state() is Live) && self.spec_pos()
                    == self.spec_seen().spec_len(),
            decreases steps_left,
        {
            steps_left = steps_left - 1;
            let want = if amt - total < SKIP_BUFFER_LEN {
                amt - total
            } else {
                SKIP_BUFFER_LEN
            };
            let (head, _rest) = scratch.as_mut_slice().split_at_mut(want);
            match self.poll_read_step(cx, head) {
                Progress::Ready((Ok(0), fe)) => {
                    if fe {
                        self.finalise_now();
                    }
                    done = true;
                },
                Progress::Ready((Ok(n), fe)) => {
                    if fe {
                        self.finalise_now();
                    }
                    total = total + n;
                },
                Progress::Ready((Err(_), _)) => {
                    // Interrupted reads were already retried within the read.
                    failed = true;
                },
                Progress::Pending => {
                    pending = true;
                },
            }
        }
        if pending {
            Progress::Pending
        } else {
            // Without a failed read, every round that did not end the loop
            // moved forwards, so running out of rounds means a read failed.
            Progress::Ready((total, failed || (!done && total < amt)))
        }
    }

    /// Polls a load of the whole stream into the store within a task, and
    /// returns its length; the handle's position is left as it was. The length
    /// is that of the store as last seen, which is then finished unless a read
    /// failed. `Pending` means the source was not ready.
    fn poll_load_to_end(&mut self, cx: &mut core::task::Context<'_>) -> (r: Progress<usize>)
        ensures
            final(self).shares_store(old(self)),
            final(self).spec_faults() >= old(self).spec_faults(),
            r matches Progress::Ready(end) ==> {
                &&& final(self).spec_pos() == old(self).spec_pos()
                &&& end == final(self).spec_seen().spec_len()
                &&& (!(final(self).spec_seen().spec_state() is Live) || final(self).spec_faults()
                    > old(self).spec_faults())
            },
    {
        let start = self.pos;
        let mut end: usize = 0;
        let mut done = false;
        while !done
            invariant
                self.shares_store(old(self)),
                self.spec_faults() >= old(self).spec_faults(),
                done ==> end == self.spec_seen().spec_len() && (!(self.spec_seen().spec_state() is Live)
                    || self.spec_faults() > old(self).spec_faults()),
            decreases usize::MAX - self.spec_pos() + (if done {
                0int
            } else {
                1int
            }),
        {
            match self.poll_skip_through(cx, LOAD_ALL_STEP) {
                Progress::Pending => {
                    return Progress::Pending;
                },
                Progress::Ready((skipped, failed)) => {
                    if failed {
                        end = self.len();
                        done = true;
                    } else if skipped < LOAD_ALL_STEP {
                        // The read that came up short found the end of the finished stream.
                        end = self.pos;
                        done = true;
                    } else {
                        let (len, finished) = self.observe_end();
                        if finished {
                            end = len;
                            done = true;
                        }
                    }
                },
            }
        }
        self.set_pos(start);
        Progress::Ready(end)
    }

    /// Polls a seek of this handle within a task, returning the new position.
    ///
    /// Seeking from the end first loads the whole stream and measures from the
    /// end found. A target past the end of the stream settles at its end; a
    /// target before its start is an error.
    pub fn poll_seek(&mut self, cx: &mut core::task::Context<'_>, pos: SeekFrom) -> (r: Progress<
        Result<u64, StreamError>,
    >)
        ensures
            final(self).shares_store(old(self)),
            final(self).spec_faults() >= old(self).spec_faults(),
            r matches Progress::Ready(Ok(p)) ==> p == final(self).spec_pos(),
            r matches Progress::Ready(Err(e)) ==> e.kind == IoFailure::InvalidInput,
            pos matches SeekFrom::Start(n) ==> (r matches Progress::Ready(res) ==> res matches Ok(p)
                && settled_at(
                p,
                n,
                final(self).spec_seen(),
                final(self).spec_faults() > old(self).spec_faults(),
            )),
            pos matches SeekFrom::Start(n) ==> (n <= old(self).spec_pos() ==> r == Progress::Ready(
                Ok::<u64, StreamError>(n),
            )),
            pos matches SeekFrom::Current(adj) ==> {
                let (valid, target) = offset_target(old(self).spec_pos() as u64, adj);
                &&& r matches Progress::Ready(Ok(p)) ==> valid && settled_at(
                    p,
                    target,
                    final(self).spec_seen(),
                    final(self).spec_faults() > old(self).spec_faults(),
                )
                &&& r matches Progress::Ready(Err(_)) ==> !valid && final(self).spec_pos()
                    == old(self).spec_pos()
                &&& !valid ==> (r matches Progress::Ready(Err(_)))
                &&& (valid && target <= old(self).spec_pos()) ==> r == Progress::Ready(
                    Ok::<u64, StreamError>(target),
                )
            },
            pos matches SeekFrom::End(adj) ==> (r matches Progress::Ready(res) ==> {
                let end = final(self).spec_seen().spec_len();
                let (valid, target) = offset_target(end as u64, adj);
                &&& (res is Ok) == valid
                &&& res matches Ok(p) ==> p == settle(target, end)
                &&& (!(final(self).spec_seen().spec_state() is Live) || final(self).spec_faults()
                    > old(self).spec_faults())
            }),
            (r is Pending && !(pos is End)) ==> final(self).spec_seen().spec_state() is Live,
    {
        match pos {
            SeekFrom::End(adj) => {
                // Slower to load in the whole stream first, but safer.
                let stored = self.len();
                self.set_pos(stored);
                let end = match self.poll_load_to_end(cx) {
                    Progress::Pending => {
                        return Progress::Pending;
                    },
                    Progress::Ready(end) => end,
                };
                let (valid, new_pos) = offset_from(end as u64, adj);
                if valid {
                    // The whole stream was just loaded: the end found is where
                    // any target past it settles.
                    let settled = if new_pos < end as u64 {
                        new_pos
                    } else {
                        end as u64
                    };
                    self.set_pos(settled as usize);
                    Progress::Ready(Ok(settled))
                } else {
                    Progress::Ready(
                        Err(io_error(IoFailure::InvalidInput, "Tried to seek before start of stream.")),
                    )
                }
            },
            _ => {
                let old_pos = self.pos as u64;
                let (valid, new_pos) = resolve_seek(pos, old_pos, 0);
                if !valid {
                    return Progress::Ready(
                        Err(io_error(IoFailure::InvalidInput, "Tried to seek before start of stream.")),
                    );
                }
                if new_pos <= old_pos {
                    self.set_pos(new_pos as usize);
                    return Progress::Ready(Ok(new_pos));
                }
                let len = self.len();
                if new_pos <= len as u64 {
                    self.set_pos(new_pos as usize);
                    return Progress::Ready(Ok(new_pos));
                }
                self.set_pos(len);
                let gap = new_pos - len as u64;
                let amt = if gap <= usize::MAX as u64 {
                    gap as usize
                } else {
                    usize::MAX
                };
                let failed = match self.poll_skip_through(cx, amt) {
                    Progress::Pending => {
                        return Progress::Pending;
                    },
                    Progress::Ready((_skipped, failed)) => failed,
                };
                let settled = if failed {
                    // A read failed on the way: settle within what is stored.
                    let len = self.len();
                    if new_pos < len as u64 {
                        new_pos
                    } else {
                        len as u64
                    }
                } else {
                    self.pos as u64
                };
                self.set_pos(settled as usize);
                Progress::Ready(Ok(settled))
            },
        }
    }
}

impl<T: AsyncSource, Tx: AsyncTransform<T> + Default> TxCatcher<T, Tx> {
    /// Create a new asynchronous stream buffer using the default transform and
    /// the given configuration, or the default one.
    pub fn new_async(source: T, config: Option<Config>) -> (r: Result<Self, CatcherError>)
        ensures
            r matches Err(e) ==> e == CatcherError::ChunkSize,
            exists|tx: Tx, m: usize|
                call_ensures(Tx::default, (), tx) && call_ensures(
                    Tx::min_bytes_required,
                    (&tx,),
                    m,
                ) && ((r is Ok) == (m <= chosen_chunk_size(config))),
            r matches Ok(c) ==> {
                &&& c.spec_pos() == 0
                &&& chosen_config(config, c.spec_config())
                &&& c.spec_seen()@ == Seq::<u8>::empty()
                &&& c.spec_seen().spec_state() is Live
            },
    {
        let tx = Tx::default();
        Self::with_async_tx(source, tx, config)
    }
}

/// Async variant of `ReadSkipExt`, in polled form.
pub trait AsyncReadSkipExt {
    /// Polls a skip of up to `amt` bytes within a task; `Pending` means the
    /// source was not ready (bytes skipped so far stay skipped).
    fn skip(&mut self, cx: &mut core::task::Context<'_>, amt: usize) -> Progress<usize> where
        Self: Sized;
}

impl<R: AsyncSource> AsyncReadSkipExt for R {
    /// Polls a skip of up to `amt` bytes, stopping early once the source
    /// produces nothing more; returns how many were read, or `0` on an error.
    /// Interrupted reads are retried; `Pending` means the source was not ready
    /// (bytes read so far stay consumed).
    fn skip(&mut self, cx: &mut core::task::Context<'_>, amt: usize) -> (r: Progress<usize>)
        ensures
            r matches Progress::Ready(n) ==> n <= amt,
            amt == 0 ==> r == Progress::<usize>::Ready(0),
            old(self).known_async_rest() matches Some(m) ==> {
                &&& r == Progress::Ready(read_amount(amt as nat, m.len()) as usize)
                &&& final(self).known_async_rest() == Some(m.skip(read_amount(amt as nat, m.len())))
            },
    {
        let ghost m0 = self.known_async_rest();
        let mut scratch: Vec<u8> = vec![0u8; SKIP_BUFFER_LEN];
        let mut total: usize = 0;
        let mut failed = false;
        let mut done = false;
        let mut pending = false;
        let mut steps_left: u64 = MAX_STEPS;
        while !done && !failed && !pending && total < amt && steps_left > 0
            invariant
                total <= amt,
                amt == 0 ==> (!pending && !failed),
                scratch@.len() == SKIP_BUFFER_LEN,
                m0 == old(self).known_async_rest(),
                m0 matches Some(m) ==> {
                    &&& total <= m.len()
                    &&& self.known_async_rest() == Some(m.skip(total as int))
                    &&& !failed
                    &&& !pending
                    &&& done ==> total == m.len()
                    &&& !done ==> total + steps_left >= MAX_STEPS
                },
            decreases steps_left,
        {
            steps_left = steps_left - 1;
            let want = if amt - total < SKIP_BUFFER_LEN {
                amt - total
            } else {
                SKIP_BUFFER_LEN
            };
            let (head, _rest) = scratch.as_mut_slice().split_at_mut(want);
            let got = self.poll_read_into(cx, head);
            proof {
                if let Some(m) = m0 {
                    if let Progress::Ready(Ok(n)) = got {
                        assert(m.skip(total as int).skip(n as int) =~= m.skip(total + n));
                    }
                }
            }
            match got {
                Progress::Ready(Ok(0)) => {
                    done = true;
                },
                Progress::Ready(Ok(n)) => {
                    total = total + n;
                },
                Progress::Ready(Err(e)) => {
                    if classify(e).kind != IoFailure::Interrupted {
                        failed = true;
                    }
                },
                Progress::Pending => {
                    pending = true;
                },
            }
        }
        if pending {
            Progress::Pending
        } else if failed {
            Progress::Ready(0)
        } else {
            Progress::Ready(total)
        }
    }
}

impl<T: AsyncSource, Tx: AsyncTransform<T>> AsyncReadSkipExt for TxCatcher<T, Tx> {
    /// Reads and discards up to `amt` bytes, stopping early at the end of the
    /// stream; returns how many were skipped, or `0` on an error.
    fn skip(&mut self, cx: &mut core::task::Context<'_>, amt: usize) -> (r: Progress<usize>)
        ensures
            final(self).shares_store(old(self)),
            final(self).spec_pos() >= old(self).spec_pos(),
            final(self).spec_faults() >= old(self).spec_faults(),
            r matches Progress::Ready(n) ==> {
                &&& n <= amt
                &&& n > 0 ==> final(self).spec_pos() == old(self).spec_pos() + n
                &&& n < amt ==> (!(final(self).spec_seen().spec_state() is Live)
                    && final(self).spec_pos() == final(self).spec_seen().spec_len())
                    || final(self).spec_faults() > old(self).spec_faults()
            },
            amt == 0 ==> r == Progress::<usize>::Ready(0),
            r is Pending ==> final(self).spec_seen().spec_state() is Live,
    {
        match self.poll_skip_through(cx, amt) {
            Progress::Pending => Progress::Pending,
            Progress::Ready((total, failed)) => {
                if failed {
                    Progress::Ready(0)
                } else {
                    Progress::Ready(total)
                }
            },
        }
    }
}

/// Future state returned by `TxCatcher::load_all_async`: loads the whole
/// stream, then hands back a fresh handle.
pub struct LoadAll<T, Tx> {
    catcher: TxCatcher<T, Tx>,
    in_pos: usize,
}

impl<T, Tx> LoadAll<T, Tx> {
    /// The position to restore once loading completes.
    pub closed spec fn spec_in_pos(&self) -> usize {
        self.in_pos
    }

    /// The handle that the load reads through.
    pub closed spec fn spec_catcher(&self) -> TxCatcher<T, Tx> {
        self.catcher
    }

    fn new(catcher: TxCatcher<T, Tx>) -> (r: Self)
        ensures
            r.spec_in_pos() == catcher.spec_pos(),
            r.spec_catcher() == catcher,
    {
        let in_pos = catcher.pos;
        LoadAll { catcher, in_pos }
    }
}

impl<T: AsyncSource, Tx: AsyncTransform<T>> LoadAll<T, Tx> {
    /// Polls the load: skips through the stream until it is finalised or ends,
    /// then restores the position and returns a new handle onto the same store.
    pub fn poll_load(&mut self, cx: &mut core::task::Context<'_>) -> (r: Progress<TxCatcher<T, Tx>>)
        ensures
            r matches Progress::Ready(c) ==> c.spec_pos() == 0 && c.shares_store(
                &old(self).spec_catcher(),
            ),
            final(self).spec_in_pos() == old(self).spec_in_pos(),
            final(self).spec_catcher().shares_store(&old(self).spec_catcher()),
            final(self).spec_catcher().spec_faults() >= old(self).spec_catcher().spec_faults(),
            r is Ready ==> !(final(self).spec_catcher().spec_seen().spec_state() is Live)
                || final(self).spec_catcher().spec_faults() > old(self).spec_catcher().spec_faults(),
            r is Pending ==> final(self).spec_catcher().spec_seen().spec_state() is Live,
    {
        let stored = self.catcher.len();
        self.catcher.set_pos(stored);
        let mut done = false;
        while !done
            invariant
                self.in_pos == old(self).in_pos,
                self.catcher.shares_store(&old(self).catcher),
                self.catcher.spec_faults() >= old(self).catcher.spec_faults(),
                done ==> (!(self.catcher.spec_seen().spec_state() is Live)
                    || self.catcher.spec_faults() > old(self).catcher.spec_faults()),
            decreases usize::MAX - self.catcher.spec_pos() + (if done {
                0int
            } else {
                1int
            }),
        {
            if self.catcher.is_finalised() {
                done = true;
            } else {
                match AsyncReadSkipExt::skip(&mut self.catcher, cx, ASYNC_LOAD_STEP) {
                    Progress::Ready(0) => {
                        done = true;
                    },
                    Progress::Ready(_) => {},
                    Progress::Pending => {
                        return Progress::Pending;
                    },
                }
            }
        }
        self.catcher.set_pos(self.in_pos);
        Progress::Ready(self.catcher.new_handle())
    }
}

} // verus!
