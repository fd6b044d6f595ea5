//! Thread-safe, shared stream buffer designed to lock only on storing new data.
//!
//! A source's bytes are drawn once, through a transform, into a store that any
//! number of handles read from at their own positions: reads of bytes already
//! stored share the store, and only a read that needs new bytes locks it.
use vstd::prelude::*;

pub mod catcher;
pub mod config;
pub mod laws;
pub mod naive;
pub mod rope_state;
pub mod store;
pub mod transform;

pub use catcher::{AsyncReadSkipExt, Catcher, LoadAll, ReadSkipExt, SeekFrom, TxCatcher};
pub use config::{CatcherError, Config, Finaliser, Identity, TransformPosition};
pub use naive::{NaiveSharedRead, ReadCore};
pub use rope_state::{CacheReadLocation, FinaliseState, Holders, RopeAndState};
pub use store::RawStore;
pub use transform::{
    AsyncSource, AsyncTransform, IoFailure, NeedsBytes, Progress, Source, StateAccess, Stateful,
    StreamError, Transform,
};

verus! {
} // verus!
