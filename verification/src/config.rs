//! Configuration of a shared stream buffer, and the small value types that
//! describe transform output and configuration errors.
use vstd::prelude::*;

verus! {

/// The number of bytes output by a `Transform` into a `TxCatcher`.
#[derive(Clone, Copy, Debug, Eq, PartialEq, Structural)]
pub enum TransformPosition {
    /// Indication that a stream has not yet finished.
    ///
    /// This has different semantics from `Read::read`. Ordinarily, `Ok(0)` denotes the end-of-file,
    /// but some transforms (*e.g.*, audio compression) need to read in enough bytes before
    /// they can output any further data, and might return `Read(0)`.
    Read(usize),
    /// Indication that a stream has definitely finished.
    Finished,
}

/// Streamcatcher configuration errors.
#[derive(Clone, Copy, Debug, Eq, PartialEq, Structural)]
pub enum CatcherError {
    /// Returned when the chunk size is smaller than a transform's
    /// minimum required contiguous byte count.
    ChunkSize,
    /// Returned when an async-only `Finaliser` is passed into a synchronous `TxCatcher`.
    IllegalFinaliser,
}

/// Method to allocate a new contiguous backing store, if required by `Config::use_backing`.
///
/// Any values other than `InPlace` or `NewThread` result in an error in a synchronous `Catcher`.
#[derive(Clone, Copy, Debug, Eq, PartialEq, Structural)]
pub enum Finaliser {
    /// Allocate the new store and copy in all bytes in-place, blocking the current thread.
    InPlace,
    /// Allocate the new store and copy in all bytes in-place in a new thread.
    ///
    /// *Default*, safe to call in an async context.
    NewThread,
    /// Use the async-std runtime for backing-store creation.
    AsyncStd,
    /// Use the tokio runtime for backing-store creation.
    Tokio,
    /// Use the smol runtime for backing-store creation.
    Smol,
}

impl Finaliser {
    /// Whether this option blocks a reading thread in a sync-friendly manner.
    pub open spec fn spec_is_sync(self) -> bool {
        self is InPlace || self is NewThread
    }

    /// Whether this option blocks a reading thread to finalise.
    pub open spec fn spec_run_elsewhere(self) -> bool {
        self is InPlace
    }

    /// Whether finalisation under this option is handed away from the reading
    /// thread: exactly when the option does not block a reader to finalise.
    pub open spec fn spec_hands_off(self) -> bool {
        !(self is InPlace)
    }

    /// Returns whether this option will block a reading thread in a sync-friendly manner.
    pub fn is_sync(&self) -> (r: bool)
        ensures
            r == self.spec_is_sync(),
    {
        matches!(self, Finaliser::InPlace | Finaliser::NewThread)
    }

    /// Returns whether this option will block a reading thread to finalise.
    pub fn run_elsewhere(&self) -> (r: bool)
        ensures
            r == self.spec_run_elsewhere(),
    {
        matches!(self, Finaliser::InPlace)
    }
}

/// Default number of bytes allocated for each new rope chunk.
pub const DEFAULT_CHUNK_SIZE: usize = 4096;

/// Default granularity to which each request for new source bytes is rounded up.
pub const DEFAULT_READ_BURST_LEN: usize = 4096;

/// Options controlling backing store allocation, finalisation, and so on.
#[derive(Clone, Copy, Debug)]
pub struct Config {
    chunk_size: usize,
    spawn_finaliser: Finaliser,
    use_backing: bool,
    length_hint: Option<usize>,
    read_burst_len: usize,
}

impl Config {
    /// Bytes allocated whenever more space is required.
    pub closed spec fn spec_chunk_size(&self) -> usize {
        self.chunk_size
    }

    /// How (and where) the backing store is built once the stream ends.
    pub closed spec fn spec_spawn_finaliser(&self) -> Finaliser {
        self.spawn_finaliser
    }

    /// Whether a single contiguous backing store is built once the stream ends.
    pub closed spec fn spec_use_backing(&self) -> bool {
        self.use_backing
    }

    /// Estimate of the total stream length, used to size the first chunk.
    pub closed spec fn spec_length_hint(&self) -> Option<usize> {
        self.length_hint
    }

    /// Granularity to which each request for new source bytes is rounded up.
    pub closed spec fn spec_read_burst_len(&self) -> usize {
        self.read_burst_len
    }

    /// The configuration that `Config::new` produces.
    pub open spec fn is_default(&self) -> bool {
        &&& self.spec_chunk_size() == DEFAULT_CHUNK_SIZE
        &&& self.spec_spawn_finaliser() == Finaliser::NewThread
        &&& self.spec_use_backing()
        &&& self.spec_length_hint() is None
        &&& self.spec_read_burst_len() == DEFAULT_READ_BURST_LEN
    }

    /// Every field of `self` but the chunk size equals that of `other`.
    pub open spec fn same_but_chunk_size(&self, other: &Config) -> bool {
        &&& self.spec_spawn_finaliser() == other.spec_spawn_finaliser()
        &&& self.spec_use_backing() == other.spec_use_backing()
        &&& self.spec_length_hint() == other.spec_length_hint()
        &&& self.spec_read_burst_len() == other.spec_read_burst_len()
    }

    /// Every field of `self` but the backing flag equals that of `other`.
    pub open spec fn same_but_use_backing(&self, other: &Config) -> bool {
        &&& self.spec_chunk_size() == other.spec_chunk_size()
        &&& self.spec_spawn_finaliser() == other.spec_spawn_finaliser()
        &&& self.spec_length_hint() == other.spec_length_hint()
        &&& self.spec_read_burst_len() == other.spec_read_burst_len()
    }

    /// Every field of `self` but the finaliser equals that of `other`.
    pub open spec fn same_but_spawn_finaliser(&self, other: &Config) -> bool {
        &&& self.spec_chunk_size() == other.spec_chunk_size()
        &&& self.spec_use_backing() == other.spec_use_backing()
        &&& self.spec_length_hint() == other.spec_length_hint()
        &&& self.spec_read_burst_len() == other.spec_read_burst_len()
    }

    /// Every field of `self` but the length hint equals that of `other`.
    pub open spec fn same_but_length_hint(&self, other: &Config) -> bool {
        &&& self.spec_chunk_size() == other.spec_chunk_size()
        &&& self.spec_spawn_finaliser() == other.spec_spawn_finaliser()
        &&& self.spec_use_backing() == other.spec_use_backing()
        &&& self.spec_read_burst_len() == other.spec_read_burst_len()
    }

    /// A configuration never rounds requests to a zero-length burst.
    #[verifier::type_invariant]
    closed spec fn inv(&self) -> bool {
        self.read_burst_len > 0
    }

    /// The default configuration.
    pub fn new() -> (r: Self)
        ensures
            r.is_default(),
    {
        Config {
            chunk_size: DEFAULT_CHUNK_SIZE,
            spawn_finaliser: Finaliser::NewThread,
            use_backing: true,
            length_hint: None,
            read_burst_len: DEFAULT_READ_BURST_LEN,
        }
    }

    /// The amount of bytes to allocate whenever more space is required to
    /// store the stream.
    ///
    /// *Defaults to `4096`. Must be at least the transform's minimum chunk size.*
    pub fn chunk_size(&mut self, size: usize) -> (r: &mut Self)
        ensures
            r.spec_chunk_size() == size,
            r.same_but_chunk_size(old(self)),
            *final(self) == *final(r),
    {
        proof {
            use_type_invariant(&*self);
        }
        self.chunk_size = size;
        self
    }

    /// Allocate a single contiguous backing store to speed up reads after the stream ends.
    ///
    /// *Defaults to `true`.*
    pub fn use_backing(&mut self, val: bool) -> (r: &mut Self)
        ensures
            r.spec_use_backing() == val,
            r.same_but_use_backing(old(self)),
            *final(self) == *final(r),
    {
        proof {
            use_type_invariant(&*self);
        }
        self.use_backing = val;
        self
    }

    /// Choose where the contents of the rope are moved into backing storage once
    /// a stream completes.
    ///
    /// *Defaults to `Finaliser::NewThread`.*
    pub fn spawn_finaliser(&mut self, finaliser: Finaliser) -> (r: &mut Self)
        ensures
            r.spec_spawn_finaliser() == finaliser,
            r.same_but_spawn_finaliser(old(self)),
            *final(self) == *final(r),
    {
        proof {
            use_type_invariant(&*self);
        }
        self.spawn_finaliser = finaliser;
        self
    }

    /// Estimate for the amount of data required to store the completed stream.
    ///
    /// On `None`, the first chunk is sized by the chunk size.
    ///
    /// *Defaults to `None`.*
    pub fn length_hint(&mut self, hint: Option<usize>) -> (r: &mut Self)
        ensures
            r.spec_length_hint() == hint,
            r.same_but_length_hint(old(self)),
            *final(self) == *final(r),
    {
        proof {
            use_type_invariant(&*self);
        }
        self.length_hint = hint;
        self
    }

    /// Smallest chunk size that this configuration will ever allocate.
    pub fn lower_bound(&self) -> (r: usize)
        ensures
            r == self.spec_chunk_size(),
    {
        self.chunk_size
    }

    /// Size of the chunk to append once the last chunk (of capacity `_last_cap`,
    /// the `_chunk_count`-th of the rope) has run out of space.
    pub fn next_chunk_size(&self, _last_cap: usize, _chunk_count: usize) -> (r: usize)
        ensures
            r == self.spec_chunk_size(),
    {
        self.chunk_size
    }

    /// Returns the finaliser that this configuration selects.
    pub fn finaliser(&self) -> (r: Finaliser)
        ensures
            r == self.spec_spawn_finaliser(),
    {
        self.spawn_finaliser
    }

    /// Returns whether a backing store is built on completion.
    pub fn backing(&self) -> (r: bool)
        ensures
            r == self.spec_use_backing(),
    {
        self.use_backing
    }

    /// Returns the configured length hint.
    pub fn hint(&self) -> (r: Option<usize>)
        ensures
            r == self.spec_length_hint(),
    {
        self.length_hint
    }

    /// Returns the configured read burst length.
    pub fn read_burst_len(&self) -> (r: usize)
        ensures
            r == self.spec_read_burst_len(),
            r > 0,
    {
        proof {
            use_type_invariant(self);
        }
        self.read_burst_len
    }
}

impl Default for Config {
    fn default() -> (r: Self)
        ensures
            r.is_default(),
    {
        Config::new()
    }
}

/// A no-op data transform.
#[derive(Clone, Copy, Debug, Default)]
pub struct Identity {}

} // verus!
