//! The store shared by every handle onto one stream: a rope of chunks that fills
//! while the source is live, and a single contiguous backing store built once
//! the source has finished.
use crate::config::{CatcherError, Config, TransformPosition};
use crate::rope_state::{
    word_holders, word_state, CacheReadLocation, FinaliseState, Holders, RopeAndState, HOLD_FLAGS,
};
use crate::transform::{
    classify, io_error, AsyncSource, AsyncTransform, IoFailure, NeedsBytes, Progress, Source,
    Stateful, StreamError, Transform,
};
use vstd::prelude::*;

verus! {

/// One piece of the rope: the bytes of the stream from `start_pos` to `end_pos`.
pub(crate) struct BufferChunk {
    data: Vec<u8>,
    cap: usize,
    start_pos: usize,
    end_pos: usize,
}

impl BufferChunk {
    fn new(start_pos: usize, chunk_len: usize) -> (r: Self)
        ensures
            r.data@.len() == 0,
            r.cap == chunk_len,
            r.start_pos == start_pos,
            r.end_pos == start_pos,
    {
        BufferChunk { data: Vec::with_capacity(chunk_len), cap: chunk_len, start_pos, end_pos: start_pos }
    }
}

/// A chunk's bounds agree with the bytes it holds, which fit its capacity.
spec fn chunk_ok(c: BufferChunk) -> bool {
    &&& c.end_pos == c.start_pos + c.data@.len()
    &&& c.data@.len() <= c.cap
}

/// The chunks of a rope are non-empty in number, start at zero and follow one another.
spec fn rope_ok(r: Seq<BufferChunk>) -> bool {
    &&& r.len() > 0
    &&& r[0].start_pos == 0
    &&& forall|i: int| 0 <= i < r.len() ==> #[trigger] chunk_ok(r[i])
    &&& forall|i: int| 0 < i < r.len() ==> #[trigger] r[i].start_pos == r[i - 1].end_pos
}

/// The bytes held by a rope, in order.
spec fn rope_bytes(r: Seq<BufferChunk>) -> Seq<u8>
    decreases r.len(),
{
    if r.len() == 0 {
        Seq::empty()
    } else {
        rope_bytes(r.drop_last()) + r.last().data@
    }
}

/// What remains of a well-formed rope once its last chunk is dropped is well-formed too.
proof fn lemma_rope_prefix(r: Seq<BufferChunk>)
    requires
        rope_ok(r),
        r.len() > 1,
    ensures
        rope_ok(r.drop_last()),
{
    let p = r.drop_last();
    assert forall|i: int| 0 <= i < p.len() implies #[trigger] chunk_ok(p[i]) by {
        assert(chunk_ok(r[i]));
    }
    assert forall|i: int| 0 < i < p.len() implies #[trigger] p[i].start_pos == p[i - 1].end_pos by {
        assert(r[i].start_pos == r[i - 1].end_pos);
    }
}

/// A well-formed rope holds exactly as many bytes as its last chunk ends at.
proof fn lemma_rope_len(r: Seq<BufferChunk>)
    requires
        rope_ok(r),
    ensures
        rope_bytes(r).len() == r.last().end_pos,
    decreases r.len(),
{
    assert(chunk_ok(r[r.len() - 1]));
    if r.len() == 1 {
        assert(rope_bytes(r.drop_last()) == Seq::<u8>::empty());
    } else {
        lemma_rope_prefix(r);
        lemma_rope_len(r.drop_last());
        assert(r[r.len() - 1].start_pos == r[r.len() - 2].end_pos);
    }
}

/// Chunk bounds never decrease along a well-formed rope.
proof fn lemma_rope_mono(r: Seq<BufferChunk>, i: int, j: int)
    requires
        rope_ok(r),
        0 <= i <= j < r.len(),
    ensures
        r[i].start_pos <= r[j].start_pos,
        r[i].end_pos <= r[j].end_pos,
        r[i].start_pos <= r[i].end_pos,
    decreases j - i,
{
    assert(chunk_ok(r[i]));
    assert(chunk_ok(r[j]));
    if i < j {
        lemma_rope_mono(r, i, j - 1);
        assert(r[j].start_pos == r[j - 1].end_pos);
    }
}

/// Byte `k` of a well-formed rope is held by whichever chunk covers position `k`.
proof fn lemma_rope_index(r: Seq<BufferChunk>, i: int, k: int)
    requires
        rope_ok(r),
        0 <= i < r.len(),
        r[i].start_pos <= k < r[i].end_pos,
    ensures
        0 <= k - r[i].start_pos < r[i].data@.len(),
        k < rope_bytes(r).len(),
        rope_bytes(r)[k] == r[i].data@[k - r[i].start_pos],
    decreases r.len(),
{
    assert(chunk_ok(r[i]));
    lemma_rope_len(r);
    let n = r.len() - 1;
    lemma_rope_mono(r, i, n);
    if i == n {
        if n == 0 {
            assert(rope_bytes(r.drop_last()) == Seq::<u8>::empty());
        } else {
            lemma_rope_prefix(r);
            lemma_rope_len(r.drop_last());
            assert(r[n].start_pos == r[n - 1].end_pos);
        }
    } else {
        let p = r.drop_last();
        lemma_rope_prefix(r);
        assert(p[i] == r[i]);
        lemma_rope_index(p, i, k);
    }
}

/// Appending an empty chunk that starts where the rope ends keeps it well-formed
/// and holding the same bytes.
proof fn lemma_rope_push_empty(r: Seq<BufferChunk>, c: BufferChunk)
    requires
        rope_ok(r),
        c.data@.len() == 0,
        c.start_pos == r.last().end_pos,
        c.end_pos == c.start_pos,
    ensures
        rope_ok(r.push(c)),
        rope_bytes(r.push(c)) == rope_bytes(r),
{
    let q = r.push(c);
    assert(q.drop_last() =~= r);
    assert(c.data@ =~= Seq::<u8>::empty());
    assert(rope_bytes(q) =~= rope_bytes(r));
    assert forall|i: int| 0 <= i < q.len() implies #[trigger] chunk_ok(q[i]) by {
        if i < r.len() {
            assert(chunk_ok(r[i]));
        }
    }
    assert forall|i: int| 0 < i < q.len() implies #[trigger] q[i].start_pos == q[i - 1].end_pos by {
        if i < r.len() {
            assert(r[i].start_pos == r[i - 1].end_pos);
        }
    }
}

/// Replacing the last chunk of a rope by one with the same start and a longer
/// run of bytes extending the old ones keeps it well-formed, and only appends.
proof fn lemma_rope_grow_last(r: Seq<BufferChunk>, c: BufferChunk)
    requires
        rope_ok(r),
        chunk_ok(c),
        c.start_pos == r.last().start_pos,
        r.last().data@.is_prefix_of(c.data@),
    ensures
        rope_ok(r.update(r.len() - 1, c)),
        rope_bytes(r).is_prefix_of(rope_bytes(r.update(r.len() - 1, c))),
        rope_bytes(r.update(r.len() - 1, c)) == rope_bytes(r.drop_last()) + c.data@,
{
    let n = r.len() - 1;
    let q = r.update(n, c);
    assert(q.drop_last() =~= r.drop_last());
    assert forall|i: int| 0 <= i < q.len() implies #[trigger] chunk_ok(q[i]) by {
        if i < n {
            assert(chunk_ok(r[i]));
        }
    }
    assert forall|i: int| 0 < i < q.len() implies #[trigger] q[i].start_pos == q[i - 1].end_pos by {
        assert(r[i].start_pos == r[i - 1].end_pos);
    }
    let a = rope_bytes(r.drop_last());
    assert(rope_bytes(r) == a + r.last().data@);
    assert(rope_bytes(q) == a + c.data@);
    assert((a + r.last().data@) =~= (a + c.data@).subrange(0, (a + r.last().data@).len() as int));
}

/// The shared basis of every handle onto one stream.
///
/// While the source is live, new bytes are drawn through the transform into a
/// rope of chunks. Once the source finishes, the rope may be copied into one
/// contiguous backing store; the rope is then dropped as soon as no reader holds it.
pub struct RawStore<T, Tx> {
    config: Config,
    transform: Tx,
    source: Option<T>,
    min_bytes: usize,
    rope_users_and_state: usize,
    rope: Option<Vec<BufferChunk>>,
    backing_store: Option<Vec<u8>>,
    len: usize,
    failures: Ghost<nat>,
    stalls: Ghost<nat>,
    handed: Ghost<Seq<usize>>,
}

impl<T, Tx> View for RawStore<T, Tx> {
    type V = Seq<u8>;

    /// The bytes taken and stored from the transformed stream so far.
    closed spec fn view(&self) -> Seq<u8> {
        match self.rope {
            Some(r) => rope_bytes(r@),
            None => match self.backing_store {
                Some(b) => b@,
                None => Seq::empty(),
            },
        }
    }
}

/// The state that the stream settles in once its source has finished under `cfg`.
pub open spec fn settled_state(cfg: Config) -> FinaliseState {
    if cfg.spec_spawn_finaliser().spec_hands_off() || !cfg.spec_use_backing() {
        FinaliseState::Finalising
    } else {
        FinaliseState::Finalised
    }
}

impl<T, Tx> RawStore<T, Tx> {
    /// Number of bytes stored so far.
    pub closed spec fn spec_len(&self) -> usize {
        self.len
    }

    /// The finalisation state recorded in the packed word.
    pub closed spec fn spec_state(&self) -> FinaliseState {
        FinaliseState::from_number(word_state(self.rope_users_and_state))
    }

    /// The packed state word.
    pub closed spec fn spec_word(&self) -> usize {
        self.rope_users_and_state
    }

    /// Number of readers currently holding the rope.
    pub closed spec fn spec_holders(&self) -> usize {
        word_holders(self.rope_users_and_state)
    }

    /// The configuration the store was built with.
    pub closed spec fn spec_config(&self) -> Config {
        self.config
    }

    /// The transform's minimum contiguous byte count, as queried at construction.
    pub closed spec fn spec_min_bytes(&self) -> usize {
        self.min_bytes
    }

    /// The capacity allocated for each chunk of the rope, in order.
    pub closed spec fn spec_chunk_caps(&self) -> Seq<usize> {
        match self.rope {
            Some(r) => r@.map_values(|c: BufferChunk| c.cap),
            None => Seq::empty(),
        }
    }

    /// Whether the rope of chunks still exists.
    pub closed spec fn has_rope(&self) -> bool {
        self.rope is Some
    }

    /// Whether the contiguous backing store exists.
    pub closed spec fn has_backing(&self) -> bool {
        self.backing_store is Some
    }

    /// Whether the source is still held.
    pub closed spec fn has_source(&self) -> bool {
        self.source is Some
    }

    /// The transform in use.
    pub closed spec fn spec_transform(&self) -> Tx {
        self.transform
    }

    /// How many transform calls have failed, and fills given up on a source
    /// that kept making no progress, over the store's life.
    pub closed spec fn spec_failures(&self) -> nat {
        self.failures@
    }

    /// How many times, over the store's life, a poll of the transform found
    /// the source not ready.
    pub closed spec fn spec_stalls(&self) -> nat {
        self.stalls@
    }

    /// The length of the buffer handed to the transform in each of its calls,
    /// over the store's life.
    pub closed spec fn spec_handed(&self) -> Seq<usize> {
        self.handed@
    }

    /// The store's internal consistency, whatever the number of rope holders.
    pub closed spec fn inv(&self) -> bool {
        &&& word_state(self.rope_users_and_state) < 3
        &&& word_holders(self.rope_users_and_state) < HOLD_FLAGS
        &&& self.len == self@.len()
        &&& (self.rope matches Some(r) ==> rope_ok(r@))
        &&& (self.rope matches Some(r) ==> forall|i: int|
            0 < i < r@.len() ==> #[trigger] r@[i].cap == self.config.spec_chunk_size())
        &&& (self.spec_state() is Live ==> {
            &&& self.rope is Some
            &&& self.source is Some
            &&& self.backing_store is None
        })
        &&& (self.rope is None ==> self.spec_state() is Finalised && self.backing_store is Some)
        &&& (self.spec_state() is Finalised ==> self.backing_store is Some)
        &&& (self.spec_state() is Finalised ==> self.config.spec_use_backing())
        &&& (self.backing_store matches Some(b) ==> b@ == self@)
        &&& self.min_bytes <= self.config.spec_chunk_size()
    }

    /// Consistency at rest: no reader holds the rope.
    pub open spec fn wf(&self) -> bool {
        &&& self.inv()
        &&& self.spec_holders() == 0
    }

    /// The configuration and the transform's minimum are those of `other`.
    pub open spec fn same_setup(&self, other: &Self) -> bool {
        &&& self.spec_config() == other.spec_config()
        &&& self.spec_min_bytes() == other.spec_min_bytes()
    }

    /// The counts of failures and of stalls, and the buffers handed to the
    /// transform, are those of `other`.
    pub open spec fn same_counts(&self, other: &Self) -> bool {
        &&& self.spec_failures() == other.spec_failures()
        &&& self.spec_stalls() == other.spec_stalls()
        &&& self.spec_handed() == other.spec_handed()
    }

    /// The counts of failures and of stalls are at least those of `other`.
    pub open spec fn counts_grown(&self, other: &Self) -> bool {
        &&& self.spec_failures() >= other.spec_failures()
        &&& self.spec_stalls() >= other.spec_stalls()
    }

    /// Returns the number of bytes taken and stored from the transformed stream.
    pub fn len(&self) -> (r: usize)
        ensures
            r == self.spec_len(),
    {
        self.len
    }

    /// Returns the configuration the store was built with.
    pub fn config(&self) -> (r: Config)
        ensures
            r == self.spec_config(),
    {
        self.config
    }

    /// Returns the stream's finalisation state.
    pub fn finalised(&self) -> (r: FinaliseState)
        requires
            self.inv(),
        ensures
            r == self.spec_state(),
    {
        self.rope_users_and_state.state()
    }

    /// Returns whether every byte sits in the contiguous backing store.
    pub fn is_finalised(&self) -> (r: bool)
        requires
            self.inv(),
        ensures
            r == (self.spec_state() is Finalised),
    {
        self.finalised() == FinaliseState::Finalised
    }

    /// Returns whether the source has produced its last byte.
    pub fn is_finished(&self) -> (r: bool)
        requires
            self.inv(),
        ensures
            r == !(self.spec_state() is Live),
    {
        self.finalised() != FinaliseState::Live
    }

    /// Advances the finalisation state by one step; returns the word as it was.
    fn upgrade_state(&mut self) -> (r: usize)
        requires
            word_state(old(self).spec_word()) < 2,
        ensures
            final(self).same_counts(old(self)),
            r == old(self).spec_word(),
            word_state(final(self).spec_word()) == word_state(r) + 1,
            word_holders(final(self).spec_word()) == word_holders(r),
            final(self).rope == old(self).rope,
            final(self).backing_store == old(self).backing_store,
            final(self).source == old(self).source,
            final(self).len == old(self).len,
            final(self).config == old(self).config,
            final(self).min_bytes == old(self).min_bytes,
            final(self).transform == old(self).transform,
    {
        let before = self.rope_users_and_state;
        self.rope_users_and_state = before.upgrade_state();
        before
    }

    /// Registers one more reader of the rope; returns the word as it was.
    fn add_rope(&mut self) -> (r: usize)
        requires
            word_holders(old(self).spec_word()) < HOLD_FLAGS - 1,
            word_state(old(self).spec_word()) < 3,
        ensures
            final(self).same_counts(old(self)),
            r == old(self).spec_word(),
            word_state(final(self).spec_word()) == word_state(r),
            word_holders(final(self).spec_word()) == word_holders(r) + 1,
            final(self).rope == old(self).rope,
            final(self).backing_store == old(self).backing_store,
            final(self).source == old(self).source,
            final(self).len == old(self).len,
            final(self).config == old(self).config,
            final(self).min_bytes == old(self).min_bytes,
            final(self).transform == old(self).transform,
    {
        let before = self.rope_users_and_state;
        proof {
            lemma_add_holder(before);
        }
        self.rope_users_and_state = before + 1;
        before
    }

    /// Deregisters a reader of the rope; returns the word as it was.
    fn remove_rope(&mut self) -> (r: usize)
        requires
            word_holders(old(self).spec_word()) > 0,
            word_state(old(self).spec_word()) < 3,
        ensures
            final(self).same_counts(old(self)),
            r == old(self).spec_word(),
            r > 0,
            final(self).spec_word() == r - 1,
            word_state(final(self).spec_word()) == word_state(r),
            word_holders(final(self).spec_word()) == word_holders(r) - 1,
            final(self).rope == old(self).rope,
            final(self).backing_store == old(self).backing_store,
            final(self).source == old(self).source,
            final(self).len == old(self).len,
            final(self).config == old(self).config,
            final(self).min_bytes == old(self).min_bytes,
            final(self).transform == old(self).transform,
    {
        let before = self.rope_users_and_state;
        proof {
            lemma_remove_holder(before);
        }
        self.rope_users_and_state = before - 1;
        before
    }
}

impl<T, Tx> RawStore<T, Tx> {
    /// Copies every byte of the rope into one contiguous vector.
    fn rope_contents(rope: &Vec<BufferChunk>) -> (r: Vec<u8>)
        requires
            rope_ok(rope@),
        ensures
            r@ == rope_bytes(rope@),
    {
        let mut out: Vec<u8> = Vec::new();
        let mut i: usize = 0;
        while i < rope.len()
            invariant
                0 <= i <= rope@.len(),
                out@ == rope_bytes(rope@.subrange(0, i as int)),
            decreases rope@.len() - i,
        {
            let el = &rope[i];
            let mut j: usize = 0;
            let ghost base = out@;
            while j < el.data.len()
                invariant
                    0 <= j <= el.data@.len(),
                    out@ == base + el.data@.subrange(0, j as int),
                decreases el.data@.len() - j,
            {
                out.push(el.data[j]);
                j = j + 1;
                assert(out@ =~= base + el.data@.subrange(0, j as int));
            }
            assert(el.data@.subrange(0, j as int) =~= el.data@);
            assert(rope@.subrange(0, i + 1).drop_last() =~= rope@.subrange(0, i as int));
            i = i + 1;
        }
        assert(rope@.subrange(0, i as int) =~= rope@);
        out
    }

    /// Moves the rope's bytes into a single contiguous backing store, drops the
    /// source, and marks the store finalised.
    ///
    /// When the configuration asks for no backing store, only the source is dropped.
    /// Does nothing unless the source has finished and the store is not yet finalised.
    pub fn do_finalise(&mut self)
        requires
            old(self).inv(),
        ensures
            final(self).same_counts(old(self)),
            final(self).inv(),
            final(self)@ == old(self)@,
            final(self).spec_len() == old(self).spec_len(),
            final(self).spec_holders() == old(self).spec_holders(),
            final(self).same_setup(old(self)),
            final(self).has_rope() == old(self).has_rope(),
            old(self).spec_state() is Finalising ==> {
                &&& !final(self).has_source()
                &&& final(self).spec_state() == (if old(self).spec_config().spec_use_backing() {
                    FinaliseState::Finalised
                } else {
                    FinaliseState::Finalising
                })
            },
            !(old(self).spec_state() is Finalising) ==> *final(self) == *old(self),
    {
        if self.finalised() != FinaliseState::Finalising {
            return;
        }
        if !self.config.backing() {
            // Without a backing store the rope stays, but the source is no longer needed.
            self.source = None;
            return;
        }
        let back = match &self.rope {
            Some(rope) => {
                if rope.len() > 1 {
                    Self::rope_contents(rope)
                } else {
                    // A single chunk already holds the whole stream contiguously.
                    let mut only: Vec<u8> = Vec::new();
                    let el = &rope[0];
                    let mut j: usize = 0;
                    while j < el.data.len()
                        invariant
                            0 <= j <= el.data@.len(),
                            only@ == el.data@.subrange(0, j as int),
                        decreases el.data@.len() - j,
                    {
                        only.push(el.data[j]);
                        j = j + 1;
                        assert(only@ =~= el.data@.subrange(0, j as int));
                    }
                    proof {
                        assert(rope@.drop_last() =~= Seq::<BufferChunk>::empty());
                        assert(rope_bytes(rope@.drop_last()) == Seq::<u8>::empty());
                        assert(el.data@.subrange(0, j as int) =~= el.data@);
                        assert(rope_bytes(rope@) =~= el.data@);
                    }
                    only
                }
            },
            None => {
                // Unreachable while the state is not yet finalised.
                Vec::new()
            },
        };
        self.backing_store = Some(back);
        // Drop the old input.
        self.source = None;
        // Marking the state finalised is the last step: it tells readers to
        // migrate from the rope to the backing store.
        self.upgrade_state();
    }

    /// Marks the stream as finished.
    ///
    /// Returns `true` if the backing store must be built away from the calling
    /// reader (the configured finaliser runs elsewhere); otherwise builds it here.
    pub fn finalise(&mut self) -> (r: bool)
        requires
            old(self).inv(),
            old(self).spec_state() is Live,
        ensures
            final(self).same_counts(old(self)),
            final(self).inv(),
            final(self)@ == old(self)@,
            final(self).spec_len() == old(self).spec_len(),
            final(self).spec_holders() == old(self).spec_holders(),
            final(self).same_setup(old(self)),
            final(self).has_rope(),
            r == old(self).spec_config().spec_spawn_finaliser().spec_hands_off(),
            final(self).spec_state() == settled_state(old(self).spec_config()),
            r ==> final(self).has_source(),
    {
        let state_on_call = self.upgrade_state().state();
        if state_on_call.is_source_live() {
            if self.config.finaliser().run_elsewhere() {
                // The finaliser blocks this reader: build the backing store now.
                self.do_finalise();
                false
            } else {
                true
            }
        } else {
            false
        }
    }

    /// Drops the rope once the backing store is ready and `seen_count` readers hold it.
    fn try_delete_rope(&mut self, seen_count: Holders<usize>)
        requires
            old(self).inv(),
            old(self).spec_state() is Finalised,
        ensures
            final(self).same_counts(old(self)),
            final(self).inv(),
            final(self)@ == old(self)@,
            final(self).spec_len() == old(self).spec_len(),
            final(self).spec_word() == old(self).spec_word(),
            final(self).same_setup(old(self)),
            final(self).source == old(self).source,
            seen_count.0 == 0 ==> !final(self).has_rope(),
            seen_count.0 != 0 ==> *final(self) == *old(self),
    {
        // Only when nobody is still reading the rope may it go.
        if seen_count.0 == 0 {
            self.rope = None;
        }
    }

    /// Deregisters a reader of the rope, dropping the rope if it was the last
    /// reader and the backing store is ready.
    pub fn remove_rope_full(&mut self)
        requires
            old(self).inv(),
            old(self).spec_holders() > 0,
        ensures
            final(self).same_counts(old(self)),
            final(self).inv(),
            final(self)@ == old(self)@,
            final(self).spec_len() == old(self).spec_len(),
            final(self).spec_state() == old(self).spec_state(),
            final(self).spec_holders() == old(self).spec_holders() - 1,
            final(self).same_setup(old(self)),
            final(self).has_source() == old(self).has_source(),
            (final(self).spec_state() is Finalised && final(self).spec_holders() == 0)
                ==> !final(self).has_rope(),
            !(final(self).spec_state() is Finalised && final(self).spec_holders() == 0)
                ==> final(self).has_rope() == old(self).has_rope(),
    {
        // The word as it was gives the count *before* this reader left.
        let val = self.remove_rope() - 1;
        let remaining = val.holders();
        let finished = val.state();
        if finished.is_backing_ready() {
            self.try_delete_rope(remaining);
        }
    }

    /// Chooses where a reader should find stored bytes, registering it as a
    /// rope holder when that is the rope.
    ///
    /// Once the backing store is ready, the rope is dropped here if nobody else
    /// holds it. A reader handed `Roped` must later call `remove_rope_full`.
    pub fn get_location(&mut self) -> (r: (CacheReadLocation, FinaliseState))
        requires
            old(self).wf(),
        ensures
            final(self).same_counts(old(self)),
            final(self).inv(),
            final(self)@ == old(self)@,
            final(self).spec_len() == old(self).spec_len(),
            final(self).spec_state() == old(self).spec_state(),
            final(self).same_setup(old(self)),
            final(self).has_source() == old(self).has_source(),
            r.1 == old(self).spec_state(),
            r.0 == (if r.1 is Finalised {
                CacheReadLocation::Backed
            } else {
                CacheReadLocation::Roped
            }),
            r.0 is Roped ==> final(self).spec_holders() == 1 && final(self).has_rope(),
            r.0 is Backed ==> final(self).spec_holders() == 0 && !final(self).has_rope(),
    {
        proof {
            lemma_hold_flags();
        }
        let info_before = self.add_rope();
        let finalised = info_before.state();
        let loc = if finalised.is_backing_ready() {
            // The count *before* this reader arrived.
            let remaining_users = info_before.holders();
            self.try_delete_rope(remaining_users);
            self.remove_rope();
            CacheReadLocation::Backed
        } else {
            CacheReadLocation::Roped
        };
        (loc, finalised)
    }
}

impl<T, Tx> RawStore<T, Tx> {
    /// Copies `count` stored bytes from stream position `pos` into
    /// `buf[offset..offset + count]`, from the rope or the backing store as `loc` says.
    pub fn read_from_local(
        &self,
        pos: usize,
        loc: CacheReadLocation,
        buf: &mut [u8],
        offset: usize,
        count: usize,
    ) -> (r: usize)
        requires
            self.inv(),
            pos + count <= self.spec_len(),
            offset + count <= old(buf)@.len(),
            loc is Roped ==> self.has_rope(),
            loc is Backed ==> self.has_backing(),
        ensures
            r == count,
            final(buf)@ == old(buf)@.subrange(0, offset as int) + self@.subrange(
                pos as int,
                pos + count,
            ) + old(buf)@.subrange(offset + count, old(buf)@.len() as int),
    {
        let ghost buf0 = buf@;
        assert(offset + count <= buf.len());
        match loc {
            CacheReadLocation::Backed => {
                if pos < self.len {
                    let store = match &self.backing_store {
                        Some(b) => b,
                        None => {
                            // Unreachable: a backed reader always finds the store.
                            return 0;
                        },
                    };
                    let mut k: usize = 0;
                    while k < count
                        invariant
                            0 <= k <= count,
                            pos + count <= usize::MAX,
                            offset + count <= usize::MAX,
                            pos + count <= store@.len(),
                            offset + count <= buf@.len(),
                            buf@.len() == buf0.len(),
                            store@ == self@,
                            forall|m: int| offset <= m < offset + k ==> #[trigger] buf@[m] == store@[pos + m - offset],
                            forall|m: int|
                                0 <= m < buf@.len() && !(offset <= m < offset + k) ==> buf@[m]
                                    == buf0[m],
                        decreases count - k,
                    {
                        buf[offset + k] = store[pos + k];
                        k = k + 1;
                    }
                    assert(buf@ =~= buf0.subrange(0, offset as int) + self@.subrange(
                        pos as int,
                        pos + count,
                    ) + buf0.subrange(offset + count, buf0.len() as int));
                    count
                } else {
                    assert(buf@ =~= buf0.subrange(0, offset as int) + self@.subrange(
                        pos as int,
                        pos + count,
                    ) + buf0.subrange(offset + count, buf0.len() as int));
                    0
                }
            },
            CacheReadLocation::Roped => {
                let rope = match &self.rope {
                    Some(r) => r,
                    None => {
                        // Unreachable: a roped reader always finds the rope.
                        return 0;
                    },
                };
                proof {
                    lemma_rope_len(rope@);
                }
                let mut written: usize = 0;
                let mut p: usize = pos;
                let mut i: usize = 0;
                while i < rope.len() && written < count
                    invariant
                        rope_ok(rope@),
                        rope_bytes(rope@) == self@,
                        self@.len() == rope@.last().end_pos,
                        pos + count <= self@.len(),
                        offset + count <= buf@.len(),
                        offset + count <= usize::MAX,
                        buf@.len() == buf0.len(),
                        0 <= i <= rope@.len(),
                        written <= count,
                        p == pos + written,
                        written < count ==> (i < rope@.len() ==> rope@[i as int].start_pos <= p),
                        written < count ==> (i == rope@.len() ==> rope@.last().end_pos <= p),
                        forall|m: int| offset <= m < offset + written ==> #[trigger] buf@[m] == self@[pos + m - offset],
                        forall|m: int|
                            0 <= m < buf@.len() && !(offset <= m < offset + written) ==> buf@[m]
                                == buf0[m],
                    decreases rope@.len() - i,
                {
                    let link = &rope[i];
                    proof {
                        assert(chunk_ok(rope@[i as int]));
                        if i + 1 < rope@.len() {
                            assert(rope@[i + 1].start_pos == rope@[i as int].end_pos);
                        }
                    }
                    if p >= link.start_pos && p < link.end_pos {
                        let local_available = link.end_pos - p;
                        let to_write = if count - written < local_available {
                            count - written
                        } else {
                            local_available
                        };
                        let first_el = p - link.start_pos;
                        let mut j: usize = 0;
                        while j < to_write
                            invariant
                                rope_ok(rope@),
                                rope_bytes(rope@) == self@,
                                0 <= i < rope@.len(),
                                *link == rope@[i as int],
                                link.start_pos <= p,
                                p + to_write <= link.end_pos,
                                first_el == p - link.start_pos,
                                chunk_ok(*link),
                                offset + count <= usize::MAX,
                                p == pos + written,
                                written + to_write <= count,
                                pos + count <= self@.len(),
                                offset + count <= buf@.len(),
                                buf@.len() == buf0.len(),
                                0 <= j <= to_write,
                                forall|m: int|
                                    offset <= m < offset + written + j ==> #[trigger] buf@[m] == self@[pos + m - offset],
                                forall|m: int|
                                    0 <= m < buf@.len() && !(offset <= m < offset + written + j)
                                        ==> buf@[m] == buf0[m],
                            decreases to_write - j,
                        {
                            proof {
                                lemma_rope_index(rope@, i as int, p + j);
                            }
                            buf[offset + written + j] = link.data[first_el + j];
                            j = j + 1;
                        }
                        written = written + to_write;
                        p = p + to_write;
                    }
                    i = i + 1;
                }
                assert(buf@ =~= buf0.subrange(0, offset as int) + self@.subrange(
                    pos as int,
                    pos + count,
                ) + buf0.subrange(offset + count, buf0.len() as int));
                count
            },
        }
    }
}

/// The number of transform calls that one fill may make before it gives up
/// on a source that keeps producing nothing.
pub const MAX_FILL_ATTEMPTS: u64 = 0xffff_ffff_ffff_ffff;

/// The bytes handed back by a run of transform calls, one run after another.
pub open spec fn joined(outs: Seq<Seq<u8>>) -> Seq<u8>
    decreases outs.len(),
{
    if outs.len() == 0 {
        Seq::empty()
    } else {
        joined(outs.drop_last()) + outs.last()
    }
}

/// Joining one more run appends its bytes.
proof fn lemma_joined_push(outs: Seq<Seq<u8>>, o: Seq<u8>)
    ensures
        joined(outs.push(o)) == joined(outs) + o,
{
    assert(outs.push(o).drop_last() =~= outs);
}

/// Joining two runs of runs one after the other joins each in turn.
proof fn lemma_joined_append(a: Seq<Seq<u8>>, b: Seq<Seq<u8>>)
    ensures
        joined(a + b) == joined(a) + joined(b),
    decreases b.len(),
{
    if b.len() == 0 {
        assert(a + b =~= a);
        assert(joined(a) + joined(b) =~= joined(a));
    } else {
        lemma_joined_append(a, b.drop_last());
        assert((a + b).drop_last() =~= a + b.drop_last());
        assert(joined(a) + joined(b) =~= joined(a) + joined(b.drop_last()) + b.last());
    }
}

/// What a driver produced after `k0` earlier answers, once it grew from `p1` to
/// `p2`, is what it produced up to `p1` followed by what came after.
proof fn lemma_produced_since(p1: Seq<Seq<u8>>, p2: Seq<Seq<u8>>, k0: int)
    requires
        0 <= k0 <= p1.len(),
        p1.is_prefix_of(p2),
    ensures
        joined(p2.skip(k0)) == joined(p1.skip(k0)) + joined(p2.skip(p1.len() as int)),
{
    assert(p2.skip(k0) =~= p1.skip(k0) + p2.skip(p1.len() as int));
    lemma_joined_append(p1.skip(k0), p2.skip(p1.len() as int));
}

/// What a fill does with one answer from the transform.
pub enum FillStep {
    /// Keep this many bytes that the transform wrote.
    Keep(usize),
    /// The source has finished: finalise the stream.
    Finish,
    /// An interrupted call: ask again.
    Retry,
    /// Any other error: stop, and report it.
    Fail(StreamError),
    /// The source is not ready: stop until it is.
    Wait,
}

/// Decides what a fill does with one answer from the transform: keep the
/// bytes it reported, finish the stream, ask again after an interrupted call,
/// stop on any other error, or wait for a source that is not ready.
pub fn fill_step(answer: Progress<Result<TransformPosition, std::io::Error>>) -> (r: FillStep)
    ensures
        answer matches Progress::Ready(Ok(TransformPosition::Read(n))) ==> r == FillStep::Keep(n),
        answer matches Progress::Ready(Ok(TransformPosition::Finished)) ==> r is Finish,
        answer matches Progress::Ready(Err(e)) ==> (r is Retry || (r matches FillStep::Fail(f)
            && f.error == e && f.kind != IoFailure::Interrupted)),
        answer is Pending ==> r is Wait,
{
    match answer {
        Progress::Ready(Ok(TransformPosition::Read(n))) => FillStep::Keep(n),
        Progress::Ready(Ok(TransformPosition::Finished)) => FillStep::Finish,
        Progress::Ready(Err(e)) => {
            let failure = classify(e);
            if failure.kind == IoFailure::Interrupted {
                FillStep::Retry
            } else {
                FillStep::Fail(failure)
            }
        },
        Progress::Pending => FillStep::Wait,
    }
}

/// A way of asking the transform for more bytes: directly, or by polling it
/// within a task.
pub trait Pull<T, Tx> {
    /// Whether this way of asking may report that the source is not ready.
    spec fn may_pend(&self) -> bool;

    /// For each call so far that reported bytes, the bytes that the transform
    /// wrote at the front of the buffer, as many as it reported.
    spec fn produced(&self) -> Seq<Seq<u8>>;

    /// Whether some call so far reported that the source has finished.
    spec fn saw_finish(&self) -> bool;

    /// The length of the buffer handed over in each call so far.
    spec fn asked(&self) -> Seq<usize>;

    /// How many calls so far returned an error.
    spec fn failed(&self) -> nat;

    /// How many calls so far found the source not ready.
    spec fn pended(&self) -> nat;

    fn pull(&mut self, transform: &mut Tx, src: &mut T, buf: &mut [u8]) -> (r: Progress<
        Result<TransformPosition, std::io::Error>,
    >)
        ensures
            final(buf)@.len() == old(buf)@.len(),
            r matches Progress::Ready(Ok(TransformPosition::Read(n))) ==> n <= old(buf)@.len(),
            r is Pending ==> old(self).may_pend(),
            final(self).may_pend() == old(self).may_pend(),
            r matches Progress::Ready(Ok(TransformPosition::Read(n))) ==> final(self).produced()
                == old(self).produced().push(final(buf)@.subrange(0, n as int)),
            !(r matches Progress::Ready(Ok(TransformPosition::Read(_)))) ==> final(self).produced()
                == old(self).produced(),
            final(self).saw_finish() == (old(self).saw_finish() || r matches Progress::Ready(
                Ok(TransformPosition::Finished),
            )),
            final(self).asked() == old(self).asked().push(old(buf)@.len() as usize),
            final(self).failed() == old(self).failed() + (if r matches Progress::Ready(Err(_)) {
                1nat
            } else {
                0nat
            }),
            final(self).pended() == old(self).pended() + (if r is Pending {
                1nat
            } else {
                0nat
            }),
    ;
}

/// Asks a synchronous transform directly; never has to wait.
pub struct Blocking {
    produced: Ghost<Seq<Seq<u8>>>,
    finished: Ghost<bool>,
    asked: Ghost<Seq<usize>>,
    failed: Ghost<nat>,
    pended: Ghost<nat>,
}

impl Blocking {
    /// What the calls so far that reported bytes handed back.
    pub closed spec fn spec_produced(&self) -> Seq<Seq<u8>> {
        self.produced@
    }

    /// Whether some call so far reported that the source has finished.
    pub closed spec fn spec_finished(&self) -> bool {
        self.finished@
    }

    /// The length of the buffer handed over in each call so far.
    pub closed spec fn spec_asked(&self) -> Seq<usize> {
        self.asked@
    }

    /// How many calls so far returned an error.
    pub closed spec fn spec_failed(&self) -> nat {
        self.failed@
    }

    /// How many calls so far found the source not ready.
    pub closed spec fn spec_pended(&self) -> nat {
        self.pended@
    }

    /// A driver that has not asked anything yet.
    pub fn new() -> (r: Self)
        ensures
            r.spec_produced() == Seq::<Seq<u8>>::empty(),
            !r.spec_finished(),
            r.spec_asked() == Seq::<usize>::empty(),
            r.spec_failed() == 0,
            r.spec_pended() == 0,
    {
        Blocking {
            produced: Ghost(Seq::empty()),
            finished: Ghost(false),
            asked: Ghost(Seq::empty()),
            failed: Ghost(0),
            pended: Ghost(0),
        }
    }
}

impl<T: Source, Tx: Transform<T>> Pull<T, Tx> for Blocking {
    open spec fn may_pend(&self) -> bool {
        false
    }

    open spec fn produced(&self) -> Seq<Seq<u8>> {
        self.spec_produced()
    }

    open spec fn saw_finish(&self) -> bool {
        self.spec_finished()
    }

    open spec fn asked(&self) -> Seq<usize> {
        self.spec_asked()
    }

    open spec fn failed(&self) -> nat {
        self.spec_failed()
    }

    open spec fn pended(&self) -> nat {
        self.spec_pended()
    }

    fn pull(&mut self, transform: &mut Tx, src: &mut T, buf: &mut [u8]) -> (r: Progress<
        Result<TransformPosition, std::io::Error>,
    >) {
        self.asked = Ghost(self.asked@.push(buf@.len() as usize));
        let res = transform.transform_read(src, buf);
        match &res {
            Ok(TransformPosition::Read(n)) => {
                self.produced = Ghost(self.produced@.push(buf@.subrange(0, *n as int)));
            },
            Ok(TransformPosition::Finished) => {
                self.finished = Ghost(true);
            },
            Err(_) => {
                self.failed = Ghost(self.failed@ + 1);
            },
        }
        Progress::Ready(res)
    }
}

/// Polls an asynchronous transform within the given task context.
pub struct Polling<'a, 'b> {
    cx: &'a mut core::task::Context<'b>,
    produced: Ghost<Seq<Seq<u8>>>,
    finished: Ghost<bool>,
    asked: Ghost<Seq<usize>>,
    failed: Ghost<nat>,
    pended: Ghost<nat>,
}

impl<'a, 'b> Polling<'a, 'b> {
    /// What the polls so far that reported bytes handed back.
    pub closed spec fn spec_produced(&self) -> Seq<Seq<u8>> {
        self.produced@
    }

    /// Whether some poll so far reported that the source has finished.
    pub closed spec fn spec_finished(&self) -> bool {
        self.finished@
    }

    /// The length of the buffer handed over in each poll so far.
    pub closed spec fn spec_asked(&self) -> Seq<usize> {
        self.asked@
    }

    /// How many polls so far returned an error.
    pub closed spec fn spec_failed(&self) -> nat {
        self.failed@
    }

    /// How many polls so far found the source not ready.
    pub closed spec fn spec_pended(&self) -> nat {
        self.pended@
    }

    /// A driver over `cx` that has not polled anything yet.
    pub fn new(cx: &'a mut core::task::Context<'b>) -> (r: Self)
        ensures
            r.spec_produced() == Seq::<Seq<u8>>::empty(),
            !r.spec_finished(),
            r.spec_asked() == Seq::<usize>::empty(),
            r.spec_failed() == 0,
            r.spec_pended() == 0,
    {
        Polling {
            cx,
            produced: Ghost(Seq::empty()),
            finished: Ghost(false),
            asked: Ghost(Seq::empty()),
            failed: Ghost(0),
            pended: Ghost(0),
        }
    }
}

impl<'a, 'b, T: AsyncSource, Tx: AsyncTransform<T>> Pull<T, Tx> for Polling<'a, 'b> {
    open spec fn may_pend(&self) -> bool {
        true
    }

    open spec fn produced(&self) -> Seq<Seq<u8>> {
        self.spec_produced()
    }

    open spec fn saw_finish(&self) -> bool {
        self.spec_finished()
    }

    open spec fn asked(&self) -> Seq<usize> {
        self.spec_asked()
    }

    open spec fn failed(&self) -> nat {
        self.spec_failed()
    }

    open spec fn pended(&self) -> nat {
        self.spec_pended()
    }

    fn pull(&mut self, transform: &mut Tx, src: &mut T, buf: &mut [u8]) -> (r: Progress<
        Result<TransformPosition, std::io::Error>,
    >) {
        self.asked = Ghost(self.asked@.push(buf@.len() as usize));
        let res = transform.transform_poll_read(src, self.cx, buf);
        match &res {
            Progress::Ready(Ok(TransformPosition::Read(n))) => {
                self.produced = Ghost(self.produced@.push(buf@.subrange(0, *n as int)));
            },
            Progress::Ready(Ok(TransformPosition::Finished)) => {
                self.finished = Ghost(true);
            },
            Progress::Ready(Err(_)) => {
                self.failed = Ghost(self.failed@ + 1);
            },
            Progress::Pending => {
                self.pended = Ghost(self.pended@ + 1);
            },
        }
        res
    }
}

/// Whether a read that took the store from `before` to `after` must hand the
/// building of the backing store to someone else: the stream finished during
/// the read, under a finaliser that does not run in place.
pub open spec fn finaliser_signal<T, Tx>(before: RawStore<T, Tx>, after: RawStore<T, Tx>) -> bool {
    &&& before.spec_state() is Live
    &&& !(after.spec_state() is Live)
    &&& before.spec_config().spec_spawn_finaliser().spec_hands_off()
}

/// How a read may move the store's finalisation state: a live store stays
/// live or settles as its configuration says; any other keeps its state.
pub open spec fn read_states<T, Tx>(before: RawStore<T, Tx>, after: RawStore<T, Tx>) -> bool {
    &&& after.same_setup(&before)
    &&& before.spec_state() is Live ==> (after.spec_state() is Live || after.spec_state()
        == settled_state(before.spec_config()))
    &&& !(before.spec_state() is Live) ==> after.spec_state() == before.spec_state()
}

/// Whether a buffer of `handed` bytes suits a fill that sets out to draw
/// `wanted` bytes for a transform needing `min_bytes` contiguous bytes, on a
/// store that held `len` bytes: never more than wanted, and at least the
/// minimum whenever the wanted bytes reach the minimum and fit in a `usize`.
pub open spec fn handed_fits(handed: usize, wanted: usize, min_bytes: usize, len: usize) -> bool {
    &&& handed <= wanted
    &&& (min_bytes <= wanted && len + wanted <= usize::MAX) ==> min_bytes <= handed
}

/// How many bytes a fill asked for `bytes_needed` sets out to draw: that many,
/// rounded up to a whole number of read bursts of `burst` bytes when that fits
/// in a `usize`.
pub open spec fn rounded_request(bytes_needed: usize, burst: usize) -> usize {
    let over = bytes_needed % burst;
    if over == 0 {
        bytes_needed
    } else if bytes_needed + (burst - over) <= usize::MAX {
        (bytes_needed + (burst - over)) as usize
    } else {
        bytes_needed
    }
}

impl<T, Tx> RawStore<T, Tx> {
    /// Draws at least `bytes_needed` new bytes (rounded up to the read burst
    /// length) from the source through the transform, appending them to the rope.
    ///
    /// Stops early once the source finishes, on a non-retryable error, once
    /// fewer bytes than the transform's minimum remain to be drawn, or once the
    /// source is not ready. A chunk with less free space than that minimum is
    /// closed and a new one appended. Unless the source was not ready before any
    /// progress was made, returns the number of bytes stored and whether the
    /// backing store must now be built away from the caller.
    #[verifier::rlimit(60)]
    #[verifier::spinoff_prover]
    pub fn fill_with<D: Pull<T, Tx>>(&mut self, driver: &mut D, bytes_needed: usize) -> (r: Progress<
        Result<(usize, bool), StreamError>,
    >)
        requires
            old(self).inv(),
            old(self).spec_state() is Live,
        ensures
            final(self).inv(),
            old(self)@.is_prefix_of(final(self)@),
            final(self).spec_holders() == old(self).spec_holders(),
            final(self).same_setup(old(self)),
            final(self).has_rope(),
            final(driver).may_pend() == old(driver).may_pend(),
            old(driver).produced().is_prefix_of(final(driver).produced()),
            final(self)@ == old(self)@ + joined(
                final(driver).produced().skip(old(driver).produced().len() as int),
            ),
            final(self).spec_state() is Live || final(driver).saw_finish(),
            old(driver).asked().is_prefix_of(final(driver).asked()),
            forall|i: int|
                old(driver).asked().len() <= i < final(driver).asked().len() ==> handed_fits(
                    #[trigger] final(driver).asked()[i],
                    rounded_request(bytes_needed, old(self).spec_config().spec_read_burst_len()),
                    old(self).spec_min_bytes(),
                    old(self).spec_len(),
                ),
            final(self).spec_state() is Live || final(self).spec_state() == settled_state(
                old(self).spec_config(),
            ),
            r matches Progress::Ready(Ok((n, fe))) ==> {
                let wanted = rounded_request(bytes_needed, old(self).spec_config().spec_read_burst_len());
                &&& final(self).spec_len() == old(self).spec_len() + n
                &&& n <= wanted
                &&& fe == (!(final(self).spec_state() is Live)
                    && old(self).spec_config().spec_spawn_finaliser().spec_hands_off())
                &&& (!(final(self).spec_state() is Live) || wanted - n < old(self).spec_min_bytes()
                    || final(self).spec_len() == usize::MAX
                    || final(self).spec_stalls() > old(self).spec_stalls())
            },
            final(self).counts_grown(old(self)),
            final(self).spec_handed() == old(self).spec_handed() + final(driver).asked().skip(
                old(driver).asked().len() as int,
            ),
            !old(driver).may_pend() ==> final(self).spec_stalls() == old(self).spec_stalls(),
            r matches Progress::Ready(Err(e)) ==> final(self).spec_state() is Live
                && final(self).spec_failures() > old(self).spec_failures() && e.kind
                != IoFailure::Interrupted,
            r is Pending ==> {
                &&& old(driver).may_pend()
                &&& final(self).spec_stalls() > old(self).spec_stalls()
                &&& final(self)@ == old(self)@
                &&& final(self).spec_state() is Live
            },
    {
        let ghost start = *self;
        let ghost may0 = driver.may_pend();
        let ghost p0 = driver.produced();
        let ghost a0 = driver.asked();
        let minimum_to_write = self.min_bytes;
        let burst = self.config.read_burst_len();
        let bytes_needed0 = bytes_needed;
        let mut bytes_needed = bytes_needed;
        let overspill = bytes_needed % burst;
        if overspill != 0 {
            match bytes_needed.checked_add(burst - overspill) {
                Some(v) => {
                    bytes_needed = v;
                },
                None => {},
            }
        }
        assert(bytes_needed == rounded_request(bytes_needed0, burst));
        let mut remaining_bytes = bytes_needed;
        let mut recorded_error: Option<StreamError> = None;
        let mut spawn_new_finaliser = false;
        let mut progress_before_pending = false;
        let mut pending = false;
        let mut attempts_left: u64 = MAX_FILL_ATTEMPTS;
        let mut done = false;
        while !done
            invariant
                self.inv(),
                start@.is_prefix_of(self@),
                self.spec_holders() == start.spec_holders(),
                self.same_setup(&start),
                self.has_rope(),
                driver.may_pend() == may0,
                p0.is_prefix_of(driver.produced()),
                self@ == start@ + joined(driver.produced().skip(p0.len() as int)),
                self.spec_state() is Live || driver.saw_finish(),
                a0.is_prefix_of(driver.asked()),
                bytes_needed == rounded_request(bytes_needed0, start.config.spec_read_burst_len()),
                forall|i: int|
                    a0.len() <= i < driver.asked().len() ==> handed_fits(
                        #[trigger] driver.asked()[i],
                        bytes_needed,
                        minimum_to_write,
                        start.len,
                    ),
                (!done && minimum_to_write <= bytes_needed && start.len + bytes_needed <= usize::MAX)
                    ==> minimum_to_write <= remaining_bytes,
                minimum_to_write == self.min_bytes,
                remaining_bytes <= bytes_needed,
                self.len == start.len + (bytes_needed - remaining_bytes),
                !done ==> self.spec_state() is Live,
                !done ==> !spawn_new_finaliser && recorded_error is None && !pending,
                self.spec_state() is Live || self.spec_state() == settled_state(start.config),
                recorded_error is Some ==> self.spec_state() is Live,
                spawn_new_finaliser == (!(self.spec_state() is Live)
                    && start.config.spec_spawn_finaliser().spec_hands_off()),
                pending ==> may0 && self.spec_state() is Live,
                !progress_before_pending ==> self@ == start@ && self.spec_state() is Live,
                done ==> (pending || recorded_error is Some || !(self.spec_state() is Live)
                    || remaining_bytes < minimum_to_write || self.len == usize::MAX),
                self.counts_grown(&start),
                self.spec_handed() == start.spec_handed() + driver.asked().skip(a0.len() as int),
                !may0 ==> self.spec_stalls() == start.spec_stalls(),
                recorded_error is Some ==> self.spec_failures() > start.spec_failures(),
                recorded_error matches Some(e) ==> e.kind != IoFailure::Interrupted,
                pending ==> self.spec_stalls() > start.spec_stalls(),
            decreases attempts_left,
        {
            if attempts_left == 0 {
                break;
            }
            attempts_left = attempts_left - 1;
            let ghost before = *self;
            let mut rope = match self.rope.take() {
                Some(r) => r,
                None => {
                    // Unreachable while live.
                    break;
                },
            };
            let chunk_count = rope.len();
            let mut el = match rope.pop() {
                Some(e) => e,
                None => {
                    // Unreachable: a rope always holds a chunk.
                    self.rope = Some(rope);
                    break;
                },
            };
            proof {
                assert(chunk_ok(before.rope.unwrap()@[chunk_count - 1]));
                lemma_rope_len(before.rope.unwrap()@);
            }
            let old_len = el.data.len();
            let cap = el.cap;
            let space = cap - old_len;
            if space < minimum_to_write {
                // Make a new chunk!
                let end = el.end_pos;
                rope.push(el);
                let next = self.config.next_chunk_size(cap, chunk_count);
                let fresh = BufferChunk::new(end, next);
                proof {
                    assert(rope@ =~= before.rope.unwrap()@);
                    lemma_rope_push_empty(rope@, fresh);
                }
                rope.push(fresh);
                self.rope = Some(rope);
            } else {
                // Never let the stored length outgrow a `usize`.
                let room = usize::MAX - self.len;
                let mut want = if space < remaining_bytes {
                    space
                } else {
                    remaining_bytes
                };
                if room < want {
                    want = room;
                }
                let new_len = old_len + want;
                let ghost old_data = el.data@;
                el.data.resize(new_len, 0u8);
                let mut src = match self.source.take() {
                    Some(s) => s,
                    None => {
                        // Unreachable while live.
                        el.data.truncate(old_len);
                        rope.push(el);
                        self.rope = Some(rope);
                        proof {
                            assert(el.data@ =~= old_data);
                            assert(rope@ =~= before.rope.unwrap()@);
                        }
                        break;
                    },
                };
                let ghost mut tail_after: Seq<u8> = Seq::empty();
                let ghost p_before = driver.produced();
                let ghost a_before = driver.asked();
                let pos = {
                    let (_head, tail) = el.data.as_mut_slice().split_at_mut(old_len);
                    let pulled = driver.pull(&mut self.transform, &mut src, tail);
                    proof {
                        tail_after = tail@;
                    }
                    pulled
                };
                assert(el.data@ =~= old_data + tail_after);
                self.source = Some(src);
                let ghost answer = pos;
                proof {
                    assert(driver.asked().skip(a0.len() as int) =~= a_before.skip(a0.len() as int).push(
                        want,
                    ));
                }
                self.handed = Ghost(self.handed@.push(want));
                let step = fill_step(pos);
                let mut stored: usize = 0;
                match &step {
                    FillStep::Keep(len) => {
                        stored = *len;
                    },
                    _ => {},
                }
                el.end_pos = el.end_pos + stored;
                el.data.truncate(old_len + stored);
                remaining_bytes = remaining_bytes - stored;
                self.len = self.len + stored;
                proof {
                    assert(old_data =~= el.data@.subrange(0, old_len as int));
                    assert(el.data@ =~= old_data + tail_after.subrange(0, stored as int));
                    if answer matches Progress::Ready(Ok(TransformPosition::Read(_))) {
                        assert(driver.produced() == p_before.push(tail_after.subrange(0, stored as int)));
                        assert(driver.produced().skip(p0.len() as int) =~= p_before.skip(
                            p0.len() as int,
                        ).push(tail_after.subrange(0, stored as int)));
                        lemma_joined_push(p_before.skip(p0.len() as int), tail_after.subrange(0, stored as int));
                    } else {
                        assert(driver.produced() == p_before);
                    }
                    lemma_rope_grow_last(before.rope.unwrap()@, el);
                    assert(before.rope.unwrap()@.update(chunk_count - 1, el) =~= rope@.push(el));
                    let dl = rope_bytes(before.rope.unwrap()@.drop_last());
                    assert(before@ == dl + old_data);
                    assert(dl + el.data@ =~= (dl + old_data) + tail_after.subrange(0, stored as int));
                    if stored == 0 {
                        assert(el.data@ =~= old_data);
                        assert(rope_bytes(rope@.push(el)) =~= rope_bytes(before.rope.unwrap()@));
                    }
                }
                rope.push(el);
                self.rope = Some(rope);
                assert(self@ == before@ + tail_after.subrange(0, stored as int));
                match step {
                    FillStep::Finish => {
                        progress_before_pending = true;
                        spawn_new_finaliser = self.finalise();
                    },
                    FillStep::Retry => {
                        progress_before_pending = true;
                        self.failures = Ghost(self.failures@ + 1);
                    },
                    FillStep::Fail(failure) => {
                        progress_before_pending = true;
                        self.failures = Ghost(self.failures@ + 1);
                        recorded_error = Some(failure);
                    },
                    FillStep::Keep(_) => {
                        progress_before_pending = true;
                    },
                    FillStep::Wait => {
                        self.stalls = Ghost(self.stalls@ + 1);
                        pending = true;
                    },
                }
                done = pending || self.is_finished() || remaining_bytes < minimum_to_write
                    || recorded_error.is_some() || self.len == usize::MAX;
            }
        }
        if pending && !progress_before_pending {
            Progress::Pending
        } else if !done {
            // The source kept making no progress.
            self.failures = Ghost(self.failures@ + 1);
            Progress::Ready(Err(io_error(IoFailure::Other, "source made no progress")))
        } else {
            Progress::Ready(
                match recorded_error {
                    Some(e) => Err(e),
                    None => Ok((bytes_needed - remaining_bytes, spawn_new_finaliser)),
                },
            )
        }
    }

    /// Reads stored bytes from stream position `pos` into `buf`, drawing new
    /// bytes from the source first when the store does not yet hold enough.
    ///
    /// Unless the source was not ready before any byte was copied, returns how
    /// many bytes were copied (all of `buf` unless the stream ends first or the
    /// source stops being ready) and whether the backing store must now be
    /// built away from the caller. A read fails only while the source is live,
    /// on an error of the transform or a source that keeps making no progress.
    pub fn read_with<D: Pull<T, Tx>>(&mut self, driver: &mut D, pos: usize, buf: &mut [u8]) -> (r:
        Progress<(Result<usize, StreamError>, bool)>)
        requires
            old(self).wf(),
            pos <= old(self).spec_len(),
        ensures
            final(self).wf(),
            old(self)@.is_prefix_of(final(self)@),
            final(self).same_setup(old(self)),
            final(buf)@.len() == old(buf)@.len(),
            final(driver).may_pend() == old(driver).may_pend(),
            old(driver).produced().is_prefix_of(final(driver).produced()),
            final(self)@ == old(self)@ + joined(
                final(driver).produced().skip(old(driver).produced().len() as int),
            ),
            r matches Progress::Ready((Ok(n), _)) ==> {
                &&& n <= old(buf)@.len()
                &&& pos + n <= final(self).spec_len()
                &&& final(buf)@.subrange(0, n as int) == final(self)@.subrange(pos as int, pos + n)
                &&& final(buf)@.subrange(n as int, old(buf)@.len() as int) == old(buf)@.subrange(
                    n as int,
                    old(buf)@.len() as int,
                )
                &&& (n == old(buf)@.len() || (!(final(self).spec_state() is Live) && pos + n
                    == final(self).spec_len()) || (0 < n
                    && final(self).spec_stalls() > old(self).spec_stalls()))
            },
            final(self).counts_grown(old(self)),
            !old(driver).may_pend() ==> final(self).spec_stalls() == old(self).spec_stalls(),
            r matches Progress::Ready((Err(e), _)) ==> final(self).spec_state() is Live
                && final(self).spec_failures() > old(self).spec_failures() && e.kind
                != IoFailure::Interrupted,
            r matches Progress::Ready((_, fe)) ==> fe == finaliser_signal(*old(self), *final(self)),
            r is Pending ==> {
                &&& old(driver).may_pend()
                &&& final(self).spec_stalls() > old(self).spec_stalls()
                &&& final(self)@ == old(self)@
                &&& final(self).spec_state() == old(self).spec_state()
            },
            old(self).spec_state() is Live ==> (final(self).spec_state() is Live
                || final(self).spec_state() == settled_state(old(self).spec_config())),
            !(old(self).spec_state() is Live) ==> final(self).spec_state() == old(self).spec_state(),
            (!(old(self).spec_state() is Live) || old(buf)@.len() <= old(self).spec_len() - pos)
                ==> (final(self)@ == old(self)@ && final(self).same_counts(old(self)) && (r matches Progress::Ready((Ok(_), false)))),
    {
        let ghost start = *self;
        let ghost buf0 = buf@;
        let ghost may0 = driver.may_pend();
        let ghost p0 = driver.produced();
        // Read the state first: if it says finished, the length read next is final.
        let (loc, mut finalised) = self.get_location();
        let mut backing_len = self.len;
        let mut should_finalise_external = false;
        let mut nothing_read = false;
        let mut pending = false;
        let out = if finalised.is_source_finished() || buf.len() <= backing_len - pos {
            // Nothing new will be drawn from the source for this read.
            let read_amt = if buf.len() < backing_len - pos {
                buf.len()
            } else {
                backing_len - pos
            };
            let n = self.read_from_local(pos, loc, buf, 0, read_amt);
            proof {
                assert(buf@.subrange(0, n as int) =~= self@.subrange(pos as int, pos + n));
                assert(buf@.subrange(n as int, buf0.len() as int) =~= buf0.subrange(
                    n as int,
                    buf0.len() as int,
                ));
            }
            Ok(n)
        } else {
            let mut read: usize = 0;
            let mut base_result: Option<Result<usize, StreamError>> = None;
            let mut attempts_left: u64 = MAX_FILL_ATTEMPTS;
            let mut done = false;
            while !done && attempts_left > 0
                invariant
                    self.inv(),
                    self.spec_holders() == 1,
                    self.has_rope(),
                    loc is Roped,
                    start.spec_state() is Live,
                    start@.is_prefix_of(self@),
                    self.same_setup(&start),
                    driver.may_pend() == may0,
                    p0.is_prefix_of(driver.produced()),
                    self@ == start@ + joined(driver.produced().skip(p0.len() as int)),
                    pos + read <= self.len,
                    read <= buf@.len(),
                    buf@.len() == buf0.len(),
                    forall|m: int| 0 <= m < read ==> #[trigger] buf@[m] == self@[pos + m],
                    forall|m: int| read <= m < buf@.len() ==> #[trigger] buf@[m] == buf0[m],
                    self.spec_state() is Live || self.spec_state() == settled_state(start.config),
                    should_finalise_external == (!(self.spec_state() is Live)
                        && start.config.spec_spawn_finaliser().spec_hands_off()),
                    done ==> (pending || base_result matches Some(Err(_)) || read == buf@.len() || (
                    !(self.spec_state() is Live) && self.len == pos + read)),
                    !done ==> !(base_result matches Some(Err(_))) && !pending,
                    pending ==> may0,
                    self.counts_grown(&start),
                    !may0 ==> self.spec_stalls() == start.spec_stalls(),
                    !done ==> self.spec_state() is Live,
                    (read == 0 && !(base_result matches Some(Err(_)))) ==> self.len == start.len,
                    pending ==> self.spec_state() is Live && self.spec_stalls() > start.spec_stalls(),
                    !(pending && base_result matches Some(Err(_))),
                    !done ==> read < buf@.len(),
                    base_result matches Some(Err(_)) ==> self.spec_state() is Live
                        && self.spec_failures() > start.spec_failures(),
                    base_result matches Some(Err(e)) ==> e.kind != IoFailure::Interrupted,
                decreases attempts_left,
            {
                attempts_left = attempts_left - 1;
                finalised = self.finalised();
                backing_len = self.len;
                let mut remaining_in_store = backing_len - pos - read;
                let ghost mut filled = false;
                if remaining_in_store == 0 && finalised.is_source_live() {
                    let ghost prev = self@;
                    let ghost p1 = driver.produced();
                    match self.fill_with(driver, buf.len() - read) {
                        Progress::Ready(read_count) => {
                            match read_count {
                                Ok((n, fe)) => {
                                    remaining_in_store = n;
                                    should_finalise_external = should_finalise_external || fe;
                                    base_result = Some(Ok(n));
                                },
                                Err(e) => {
                                    base_result = Some(Err(e));
                                },
                            }
                        },
                        Progress::Pending => {
                            pending = true;
                        },
                    }
                    proof {
                        assert forall|m: int| 0 <= m < read implies #[trigger] buf@[m] == self@[pos + m] by {
                            assert(prev[pos + m] == self@[pos + m]);
                        }
                        lemma_produced_since(p1, driver.produced(), p0.len() as int);
                        assert(self@ =~= start@ + joined(driver.produced().skip(p0.len() as int)));
                        filled = true;
                        if !pending && !(base_result matches Some(Err(_))) {
                            assert(self.len == pos + read + remaining_in_store);
                        }
                    }
                    finalised = self.finalised();
                }
                if !pending && remaining_in_store > 0 {
                    let count = if remaining_in_store < buf.len() - read {
                        remaining_in_store
                    } else {
                        buf.len() - read
                    };
                    let ghost bufb = buf@;
                    let got = self.read_from_local(pos + read, loc, buf, read, count);
                    proof {
                        assert forall|m: int| 0 <= m < read + got implies #[trigger] buf@[m] == self@[pos + m] by {
                            if m < read {
                                assert(buf@[m] == bufb[m]);
                            } else {
                                assert(buf@[m] == self@.subrange(pos + read, pos + read + count)[m - read]);
                            }
                        }
                        assert forall|m: int| read + got <= m < buf@.len() implies #[trigger] buf@[m] == buf0[m] by {
                            assert(buf@[m] == bufb[m]);
                        }
                    }
                    read = read + got;
                }
                proof {
                    if !filled {
                        assert(self.spec_state() is Live);
                    }
                    if !(self.spec_state() is Live) && !pending && !(base_result matches Some(Err(_))) {
                        assert(read == buf@.len() || self.len == pos + read);
                    }
                }
                done = pending || matches!(base_result, Some(Err(_))) || read == buf.len() || (
                finalised.is_source_finished() && self.len == pos + read);
            }
            nothing_read = read == 0;
            if !done {
                // The source kept making no progress.
                self.failures = Ghost(self.failures@ + 1);
                Err(io_error(IoFailure::Other, "source made no progress"))
            } else {
                match base_result {
                    Some(Err(e)) => Err(e),
                    _ => {
                        proof {
                            assert(buf@.subrange(0, read as int) =~= self@.subrange(
                                pos as int,
                                pos + read,
                            ));
                            assert(buf@.subrange(read as int, buf0.len() as int) =~= buf0.subrange(
                                read as int,
                                buf0.len() as int,
                            ));
                        }
                        Ok(read)
                    },
                }
            }
        };
        if loc == CacheReadLocation::Roped {
            self.remove_rope_full();
        }
        proof {
            if pending && nothing_read {
                assert(self@ =~= start@);
            }
        }
        if pending && nothing_read {
            Progress::Pending
        } else {
            Progress::Ready((out, should_finalise_external))
        }
    }
}

impl<T: Source, Tx: Transform<T>> RawStore<T, Tx> {
    /// Draws at least `bytes_needed` new bytes from the source through the
    /// transform; see `fill_with`. Returns the number of bytes stored and whether
    /// the backing store must now be built away from the caller.
    pub fn fill_from_source(&mut self, bytes_needed: usize) -> (r: Result<(usize, bool), StreamError>)
        requires
            old(self).inv(),
            old(self).spec_state() is Live,
        ensures
            final(self).inv(),
            old(self)@.is_prefix_of(final(self)@),
            final(self).spec_holders() == old(self).spec_holders(),
            final(self).same_setup(old(self)),
            final(self).has_rope(),
            final(self).spec_state() is Live || final(self).spec_state() == settled_state(
                old(self).spec_config(),
            ),
            r matches Ok((n, fe)) ==> {
                let wanted = rounded_request(bytes_needed, old(self).spec_config().spec_read_burst_len());
                &&& final(self).spec_len() == old(self).spec_len() + n
                &&& n <= wanted
                &&& fe == (!(final(self).spec_state() is Live)
                    && old(self).spec_config().spec_spawn_finaliser().spec_hands_off())
                &&& (!(final(self).spec_state() is Live) || wanted - n < old(self).spec_min_bytes()
                    || final(self).spec_len() == usize::MAX)
            },
            final(self).spec_failures() >= old(self).spec_failures(),
            final(self).spec_stalls() == old(self).spec_stalls(),
            old(self).spec_handed().is_prefix_of(final(self).spec_handed()),
            forall|i: int|
                old(self).spec_handed().len() <= i < final(self).spec_handed().len() ==> handed_fits(
                    #[trigger] final(self).spec_handed()[i],
                    rounded_request(bytes_needed, old(self).spec_config().spec_read_burst_len()),
                    old(self).spec_min_bytes(),
                    old(self).spec_len(),
                ),
            r is Err ==> final(self).spec_state() is Live
                && final(self).spec_failures() > old(self).spec_failures(),
            r matches Err(e) ==> e.kind != IoFailure::Interrupted,
    {
        let mut driver = Blocking::new();
        match self.fill_with(&mut driver, bytes_needed) {
            Progress::Ready(r) => r,
            Progress::Pending => {
                proof {
                    assert(false);
                }
                Ok((0, false))
            },
        }
    }

    /// Reads stored bytes from stream position `pos` into `buf`, drawing new
    /// bytes from the source first when the store does not yet hold enough.
    ///
    /// On success returns how many bytes were copied: all of `buf` unless the
    /// stream ends first. The second result says whether the backing store
    /// must now be built away from the caller (see `finalise`).
    pub fn read_from_pos(&mut self, pos: usize, buf: &mut [u8]) -> (r: (Result<usize, StreamError>, bool))
        requires
            old(self).wf(),
            pos <= old(self).spec_len(),
        ensures
            final(self).wf(),
            old(self)@.is_prefix_of(final(self)@),
            final(self).same_setup(old(self)),
            final(buf)@.len() == old(buf)@.len(),
            r.0 matches Ok(n) ==> {
                &&& n <= old(buf)@.len()
                &&& pos + n <= final(self).spec_len()
                &&& final(buf)@.subrange(0, n as int) == final(self)@.subrange(pos as int, pos + n)
                &&& final(buf)@.subrange(n as int, old(buf)@.len() as int) == old(buf)@.subrange(
                    n as int,
                    old(buf)@.len() as int,
                )
                &&& (n == old(buf)@.len() || (!(final(self).spec_state() is Live) && pos + n
                    == final(self).spec_len()))
            },
            r.1 == finaliser_signal(*old(self), *final(self)),
            read_states(*old(self), *final(self)),
            old(self).spec_state() is Live ==> (final(self).spec_state() is Live
                || final(self).spec_state() == settled_state(old(self).spec_config())),
            !(old(self).spec_state() is Live) ==> final(self).spec_state() == old(self).spec_state(),
            (!(old(self).spec_state() is Live) || old(buf)@.len() <= old(self).spec_len() - pos)
                ==> (final(self)@ == old(self)@ && r.0 is Ok && !r.1 && final(self).same_counts(old(self))),
            final(self).spec_failures() >= old(self).spec_failures(),
            final(self).spec_stalls() == old(self).spec_stalls(),
            r.0 is Err ==> final(self).spec_state() is Live
                && final(self).spec_failures() > old(self).spec_failures(),
            r.0 matches Err(e) ==> e.kind != IoFailure::Interrupted,
    {
        let mut driver = Blocking::new();
        match self.read_with(&mut driver, pos, buf) {
            Progress::Ready(r) => r,
            Progress::Pending => {
                proof {
                    assert(false);
                }
                (Ok(0), false)
            },
        }
    }
}

impl<T: AsyncSource, Tx: AsyncTransform<T>> RawStore<T, Tx> {
    /// Reads stored bytes from stream position `pos` into `buf` within a task,
    /// polling the source for new bytes when the store does not yet hold enough.
    ///
    /// `Pending` means the source was not ready and nothing was read; see `read_with`.
    pub fn read_from_pos_async(
        &mut self,
        pos: usize,
        cx: &mut core::task::Context<'_>,
        buf: &mut [u8],
    ) -> (r: Progress<(Result<usize, StreamError>, bool)>)
        requires
            old(self).wf(),
            pos <= old(self).spec_len(),
        ensures
            final(self).wf(),
            old(self)@.is_prefix_of(final(self)@),
            final(self).same_setup(old(self)),
            final(buf)@.len() == old(buf)@.len(),
            r matches Progress::Ready((Ok(n), _)) ==> {
                &&& n <= old(buf)@.len()
                &&& pos + n <= final(self).spec_len()
                &&& final(buf)@.subrange(0, n as int) == final(self)@.subrange(pos as int, pos + n)
                &&& final(buf)@.subrange(n as int, old(buf)@.len() as int) == old(buf)@.subrange(
                    n as int,
                    old(buf)@.len() as int,
                )
                &&& (n == old(buf)@.len() || (!(final(self).spec_state() is Live) && pos + n
                    == final(self).spec_len()) || (0 < n
                    && final(self).spec_stalls() > old(self).spec_stalls()))
            },
            r matches Progress::Ready((_, fe)) ==> fe == finaliser_signal(*old(self), *final(self)),
            final(self).counts_grown(old(self)),
            r matches Progress::Ready((Err(e), _)) ==> final(self).spec_state() is Live
                && final(self).spec_failures() > old(self).spec_failures() && e.kind
                != IoFailure::Interrupted,
            r is Pending ==> final(self)@ == old(self)@ && final(self).spec_state() == old(self).spec_state()
                && final(self).spec_stalls() > old(self).spec_stalls(),
            (!(old(self).spec_state() is Live) || old(buf)@.len() <= old(self).spec_len() - pos)
                ==> (final(self)@ == old(self)@ && final(self).same_counts(old(self)) && (r matches Progress::Ready((Ok(_), false)))),
    {
        let mut driver = Polling::new(cx);
        self.read_with(&mut driver, pos, buf)
    }
}

/// Builds a store for an asynchronous transform, checking the configured chunk
/// size against the transform's minimum contiguous byte count.
pub fn new_async_store<T: AsyncSource, Tx: AsyncTransform<T>>(
    source: T,
    transform: Tx,
    config: Option<Config>,
) -> (r: Result<RawStore<T, Tx>, CatcherError>)
    ensures
        r matches Err(e) ==> e == CatcherError::ChunkSize,
        exists|m: usize|
            call_ensures(Tx::min_bytes_required, (&transform,), m) && ((r is Ok) == (m
                <= chosen_chunk_size(config))) && (r matches Ok(s) ==> s.spec_min_bytes() == m),
        r matches Ok(s) ==> {
            &&& s.wf()
            &&& s@ == Seq::<u8>::empty()
            &&& s.spec_state() is Live
            &&& chosen_config(config, s.spec_config())
            &&& s.spec_transform() == transform
            &&& s.has_source()
            &&& s.spec_chunk_caps() == seq![first_chunk_size(s.spec_config(), s.spec_min_bytes())]
            &&& s.spec_failures() == 0
            &&& s.spec_stalls() == 0
        },
{
    let min_bytes = AsyncTransform::<T>::min_bytes_required(&transform);
    RawStore::with_min_bytes(source, transform, config, min_bytes)
}

/// The chunk size that `config` selects, the default one when there is none.
pub open spec fn chosen_chunk_size(config: Option<Config>) -> usize {
    match config {
        Some(c) => c.spec_chunk_size(),
        None => crate::config::DEFAULT_CHUNK_SIZE,
    }
}

/// The capacity of a new store's first chunk: the length hint, or else the
/// chunk size, but never less than the transform's minimum.
pub open spec fn first_chunk_size(cfg: Config, min_bytes: usize) -> usize {
    let start = match cfg.spec_length_hint() {
        Some(length) => length,
        None => cfg.spec_chunk_size(),
    };
    if start < min_bytes {
        min_bytes
    } else {
        start
    }
}

/// `cfg` is `config`, or the default configuration when there is none.
pub open spec fn chosen_config(config: Option<Config>, cfg: Config) -> bool {
    match config {
        Some(c) => cfg == c,
        None => cfg.is_default(),
    }
}

impl<T, Tx> RawStore<T, Tx> {
    /// Builds an empty, live store over `source`, for a transform that needs
    /// `min_bytes` contiguous bytes in every chunk.
    ///
    /// Fails with `ChunkSize` exactly when the chunk size is below `min_bytes`.
    pub fn with_min_bytes(source: T, transform: Tx, config: Option<Config>, min_bytes: usize) -> (r:
        Result<Self, CatcherError>)
        ensures
            (r is Ok) == (min_bytes <= chosen_chunk_size(config)),
            r matches Err(e) ==> e == CatcherError::ChunkSize,
            r matches Ok(s) ==> {
                &&& s.wf()
                &&& s@ == Seq::<u8>::empty()
                &&& s.spec_len() == 0
                &&& s.spec_state() is Live
                &&& s.has_source()
                &&& s.spec_min_bytes() == min_bytes
                &&& chosen_config(config, s.spec_config())
                &&& s.spec_transform() == transform
                &&& s.spec_chunk_caps() == seq![first_chunk_size(s.spec_config(), min_bytes)]
                &&& s.spec_failures() == 0
                &&& s.spec_stalls() == 0
            },
    {
        let config = match config {
            Some(c) => c,
            None => Config::new(),
        };
        if config.lower_bound() < min_bytes {
            return Err(CatcherError::ChunkSize);
        }
        let mut start_size = match config.hint() {
            Some(length) => length,
            None => config.lower_bound(),
        };
        if start_size < min_bytes {
            start_size = min_bytes;
        }
        let mut list: Vec<BufferChunk> = Vec::new();
        list.push(BufferChunk::new(0, start_size));
        let store = RawStore {
            config,
            transform,
            source: Some(source),
            min_bytes,
            rope_users_and_state: 0,
            rope: Some(list),
            backing_store: None,
            len: 0,
            failures: Ghost(0),
            stalls: Ghost(0),
            handed: Ghost(Seq::empty()),
        };
        proof {
            assert(word_state(0) == 0 && word_holders(0) == 0) by (bit_vector);
            lemma_hold_flags();
            assert(chunk_ok(list@[0]));
            assert(list@.drop_last() =~= Seq::<BufferChunk>::empty());
            assert(rope_bytes(list@.drop_last()) == Seq::<u8>::empty());
            assert(rope_bytes(list@) =~= Seq::<u8>::empty());
            assert(list@.map_values(|c: BufferChunk| c.cap) =~= seq![start_size]);
        }
        Ok(store)
    }

    /// Where a consistent store keeps its bytes in each finalisation state; and
    /// a store configured without a backing store is never finalised.
    pub proof fn lemma_inv_facts(&self)
        requires
            self.inv(),
        ensures
            self.spec_len() == self@.len(),
            !(self.spec_state() is Finalised) ==> self.has_rope(),
            self.spec_state() is Finalised ==> self.has_backing(),
            self.spec_state() is Live ==> self.has_source() && !self.has_backing(),
            self.spec_state() is Finalised ==> self.spec_config().spec_use_backing(),
            self.has_rope() ==> self.spec_chunk_caps().len() > 0,
            forall|i: int|
                0 < i < self.spec_chunk_caps().len() ==> #[trigger] self.spec_chunk_caps()[i]
                    == self.spec_config().spec_chunk_size(),
    {
    }

    /// Returns whether the rope of chunks still exists.
    pub fn holds_rope(&self) -> (r: bool)
        ensures
            r == self.has_rope(),
    {
        self.rope.is_some()
    }
}

impl<T, Tx: NeedsBytes> RawStore<T, Tx> {
    /// Builds an empty, live store over `source`, checking the configured chunk
    /// size against the transform's minimum contiguous byte count.
    pub fn new(source: T, transform: Tx, config: Option<Config>) -> (r: Result<Self, CatcherError>)
        ensures
            r matches Err(e) ==> e == CatcherError::ChunkSize,
            exists|m: usize|
                call_ensures(Tx::min_bytes_required, (&transform,), m) && ((r is Ok) == (m
                    <= chosen_chunk_size(config))) && (r matches Ok(s) ==> s.spec_min_bytes() == m),
            r matches Ok(s) ==> {
                &&& s.wf()
                &&& s@ == Seq::<u8>::empty()
                &&& s.spec_state() is Live
                &&& s.spec_min_bytes() <= chosen_chunk_size(config)
                &&& chosen_config(config, s.spec_config())
                &&& s.spec_transform() == transform
                &&& s.has_source()
                &&& s.spec_chunk_caps() == seq![first_chunk_size(s.spec_config(), s.spec_min_bytes())]
                &&& s.spec_failures() == 0
                &&& s.spec_stalls() == 0
            },
    {
        let min_bytes = transform.min_bytes_required();
        Self::with_min_bytes(source, transform, config, min_bytes)
    }
}

impl<T, Tx: Stateful> Stateful for RawStore<T, Tx> {
    type State = <Tx as Stateful>::State;

    fn state(&self) -> Self::State {
        self.transform.state()
    }
}

/// The holder bits leave room for more than one reader.
proof fn lemma_hold_flags()
    ensures
        HOLD_FLAGS > 2,
{
    assert(!(3usize << ((usize::BITS - 2) as usize)) > 2) by (bit_vector);
}

/// One more holder fits in the holder bits without touching the state bits.
proof fn lemma_add_holder(x: usize)
    requires
        word_holders(x) < HOLD_FLAGS - 1,
        word_state(x) < 3,
    ensures
        x + 1 <= usize::MAX,
        word_state((x + 1) as usize) == word_state(x),
        word_holders((x + 1) as usize) == word_holders(x) + 1,
{
    assert((x & !(3usize << ((usize::BITS - 2) as usize))) < !(3usize << ((usize::BITS - 2) as usize)) - 1
        && (x >> ((usize::BITS - 2) as usize)) < 3 ==> {
        &&& ((x + 1) as usize) == x + 1
        &&& ((x + 1) as usize) >> ((usize::BITS - 2) as usize) == x >> ((usize::BITS - 2) as usize)
        &&& ((x + 1) as usize) & !(3usize << ((usize::BITS - 2) as usize))
            == (x & !(3usize << ((usize::BITS - 2) as usize))) + 1
    }) by (bit_vector);
}

/// Removing a holder takes one from the holder bits without touching the state bits.
proof fn lemma_remove_holder(x: usize)
    requires
        word_holders(x) > 0,
    ensures
        x > 0,
        word_state((x - 1) as usize) == word_state(x),
        word_holders((x - 1) as usize) == word_holders(x) - 1,
{
    assert((x & !(3usize << ((usize::BITS - 2) as usize))) > 0 ==> {
        &&& x > 0
        &&& ((x - 1) as usize) >> ((usize::BITS - 2) as usize) == x >> ((usize::BITS - 2) as usize)
        &&& ((x - 1) as usize) & !(3usize << ((usize::BITS - 2) as usize))
            == (x & !(3usize << ((usize::BITS - 2) as usize))) - 1
    }) by (bit_vector);
}

} // verus!
