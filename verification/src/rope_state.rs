//! The packed word that records, in one `usize`, how far a stream has come
//! towards its contiguous backing store (the top two bits) and how many
//! readers currently hold the rope (the remaining bits).
use vstd::prelude::*;

verus! {

/// Position of the two state bits within the packed word.
pub const SHIFT_AMT: usize = (usize::BITS - 2) as usize;

/// Mask selecting the rope-holder count of the packed word.
pub const HOLD_FLAGS: usize = !(3usize << SHIFT_AMT);

/// How far a stream has come towards its contiguous backing store.
#[derive(Clone, Copy, Debug, Eq, PartialEq, Structural)]
pub enum FinaliseState {
    /// The source may still produce bytes.
    Live,
    /// The source has finished; the backing store is not yet ready.
    Finalising,
    /// The source has finished and the backing store holds every byte.
    Finalised,
}

/// Where a reader finds the stored bytes.
#[derive(Clone, Copy, Debug, Eq, PartialEq, Structural)]
pub enum CacheReadLocation {
    /// In the chain of chunks filled while the stream was live.
    Roped,
    /// In the single contiguous backing store.
    Backed,
}

/// The number of readers that currently hold the rope.
#[derive(Clone, Copy, Debug, Eq, PartialEq)]
pub struct Holders<T>(pub T);

/// The state bits of a packed word.
pub open spec fn word_state(x: usize) -> usize {
    x >> SHIFT_AMT
}

/// The rope-holder count of a packed word.
pub open spec fn word_holders(x: usize) -> usize {
    x & HOLD_FLAGS
}

/// The number that a finalisation state is stored as.
pub open spec fn state_number(s: FinaliseState) -> usize {
    match s {
        FinaliseState::Live => 0,
        FinaliseState::Finalising => 1,
        FinaliseState::Finalised => 2,
    }
}

impl FinaliseState {
    /// The finalisation state stored as `val`.
    pub open spec fn from_number(val: usize) -> FinaliseState {
        if val == 0 {
            FinaliseState::Live
        } else if val == 1 {
            FinaliseState::Finalising
        } else {
            FinaliseState::Finalised
        }
    }

    /// Decodes the number that a finalisation state is stored as.
    pub fn from_bits(val: usize) -> (r: FinaliseState)
        requires
            val < 3,
        ensures
            r == FinaliseState::from_number(val),
            state_number(r) == val,
    {
        if val == 0 {
            FinaliseState::Live
        } else if val == 1 {
            FinaliseState::Finalising
        } else {
            FinaliseState::Finalised
        }
    }

    /// Encodes a finalisation state as a number.
    pub fn to_bits(self) -> (r: usize)
        ensures
            r == state_number(self),
            FinaliseState::from_number(r) == self,
    {
        match self {
            FinaliseState::Live => 0,
            FinaliseState::Finalising => 1,
            FinaliseState::Finalised => 2,
        }
    }

    /// Whether the source may still produce bytes.
    pub fn is_source_live(self) -> (r: bool)
        ensures
            r == (self is Live),
    {
        matches!(self, FinaliseState::Live)
    }

    /// Whether the source has produced its last byte.
    pub fn is_source_finished(self) -> (r: bool)
        ensures
            r == !(self is Live),
    {
        !self.is_source_live()
    }

    /// Whether the contiguous backing store is ready for readers.
    pub fn is_backing_ready(self) -> (r: bool)
        ensures
            r == (self is Finalised),
    {
        matches!(self, FinaliseState::Finalised)
    }
}

impl From<FinaliseState> for usize {
    fn from(val: FinaliseState) -> (r: usize)
    {
        val.to_bits()
    }
}

impl vstd::std_specs::convert::FromSpecImpl<FinaliseState> for usize {
    open spec fn obeys_from_spec() -> bool {
        true
    }

    open spec fn from_spec(v: FinaliseState) -> usize {
        state_number(v)
    }
}

/// Reading and updating the packed state word.
pub trait RopeAndState: Sized {
    /// Whether the state bits hold one of the three finalisation states.
    spec fn state_in_range(self) -> bool;

    /// Whether the state can advance once more.
    spec fn can_upgrade(self) -> bool;

    /// The finalisation state recorded in the word.
    fn state(self) -> FinaliseState
        requires
            self.state_in_range(),
    ;

    /// The word with its finalisation state advanced by one step.
    fn upgrade_state(self) -> Self
        requires
            self.can_upgrade(),
    ;

    /// The rope-holder count recorded in the word.
    fn holders(self) -> Holders<Self>;
}

impl RopeAndState for usize {
    open spec fn state_in_range(self) -> bool {
        word_state(self) < 3
    }

    open spec fn can_upgrade(self) -> bool {
        word_state(self) < 2
    }

    fn state(self) -> (r: FinaliseState)
        ensures
            state_number(r) == word_state(self),
    {
        FinaliseState::from_bits(self >> SHIFT_AMT)
    }

    fn upgrade_state(self) -> (r: usize)
        ensures
            r == self + (1usize << SHIFT_AMT),
            word_state(r) == word_state(self) + 1,
            word_holders(r) == word_holders(self),
    {
        proof {
            lemma_upgrade(self);
        }
        self + (1usize << SHIFT_AMT)
    }

    fn holders(self) -> (r: Holders<usize>)
        ensures
            r.0 == word_holders(self),
    {
        Holders(self & HOLD_FLAGS)
    }
}

/// Advancing the state adds one to the state bits and leaves the holder count alone.
pub proof fn lemma_upgrade(x: usize)
    requires
        word_state(x) < 2,
    ensures
        x + (1usize << SHIFT_AMT) <= usize::MAX,
        word_state((x + (1usize << SHIFT_AMT)) as usize) == word_state(x) + 1,
        word_holders((x + (1usize << SHIFT_AMT)) as usize) == word_holders(x),
{
    assert(x >> ((usize::BITS - 2) as usize) < 2 ==> {
        &&& ((x + (1usize << ((usize::BITS - 2) as usize))) as usize) == x + (1usize << ((usize::BITS - 2) as usize))
        &&& ((x + (1usize << ((usize::BITS - 2) as usize))) as usize) >> ((usize::BITS - 2) as usize)
            == (x >> ((usize::BITS - 2) as usize)) + 1
        &&& ((x + (1usize << ((usize::BITS - 2) as usize))) as usize) & !(3usize << ((usize::BITS - 2) as usize))
            == x & !(3usize << ((usize::BITS - 2) as usize))
    }) by (bit_vector);
}

} // verus!
