//! Byte sources, the transforms applied to them before their output is stored,
//! and access to a transform's internal state.
use crate::config::{Identity, TransformPosition};
use vstd::prelude::*;

verus! {

#[verifier::external_type_specification]
#[verifier::external_body]
pub struct ExIoError(std::io::Error);

/// The kinds of I/O error that this library tells apart.
#[derive(Clone, Copy, Debug, Eq, PartialEq, Structural)]
pub enum IoFailure {
    /// A read that should simply be retried.
    Interrupted,
    /// A request that can never be met, such as a seek before the start of a stream.
    InvalidInput,
    /// Any other failure, such as a source that kept making no progress.
    Other,
}

/// An I/O error together with its kind, as this library classified it.
#[derive(Debug)]
pub struct StreamError {
    /// The kind the error was classified as.
    pub kind: IoFailure,
    /// The error itself.
    pub error: std::io::Error,
}

impl StreamError {
    /// The kind the error was classified as.
    pub fn kind(&self) -> (r: IoFailure)
        ensures
            r == self.kind,
    {
        self.kind
    }

    /// The error itself, for callers that speak `std::io`.
    pub fn into_io(self) -> (r: std::io::Error)
        ensures
            r == self.error,
    {
        self.error
    }
}

/// Builds an error of the given kind and message.
///
/// Calls `std::io::Error::new` with the matching `ErrorKind`; the contract
/// claims only the kind recorded beside it, nothing of the error's contents.
#[verifier::external_body]
pub(crate) fn io_error(kind: IoFailure, msg: &str) -> (r: StreamError)
    ensures
        r.kind == kind,
{
    let io_kind = match kind {
        IoFailure::Interrupted => std::io::ErrorKind::Interrupted,
        IoFailure::InvalidInput => std::io::ErrorKind::InvalidInput,
        IoFailure::Other => std::io::ErrorKind::Other,
    };
    StreamError { kind, error: std::io::Error::new(io_kind, msg) }
}

/// Classifies an error handed back by a source or a transform.
///
/// Calls `std::io::Error::kind`, telling `Interrupted` and `InvalidInput` apart
/// from every other kind. The kind depends on the error value alone, which
/// Verus cannot see into, so the contract claims only that the error is kept.
#[verifier::external_body]
pub(crate) fn classify(e: std::io::Error) -> (r: StreamError)
    ensures
        r.error == e,
{
    let kind = match e.kind() {
        std::io::ErrorKind::Interrupted => IoFailure::Interrupted,
        std::io::ErrorKind::InvalidInput => IoFailure::InvalidInput,
        _ => IoFailure::Other,
    };
    StreamError { kind, error: e }
}

/// A producer of bytes, read into a caller's buffer piece by piece.
///
/// This plays the part that `std::io::Read` plays for the streams this library
/// caches: `Ok(n)` means that the first `n` bytes of `buf` were filled, and
/// `Ok(0)` with a non-empty buffer marks the end of the stream.
pub trait Source {
    /// For a source that knows every byte it will still yield and never fails,
    /// those bytes; `None` for any other source.
    open spec fn known_rest(&self) -> Option<Seq<u8>> {
        None
    }

    /// A source that knows its rest fills the buffer with as many of those
    /// bytes as fit, and moves past them.
    fn read_into(&mut self, buf: &mut [u8]) -> (r: Result<usize, std::io::Error>)
        ensures
            final(buf)@.len() == old(buf)@.len(),
            r matches Ok(n) ==> n <= old(buf)@.len(),
            old(self).known_rest() matches Some(m) ==> {
                let n = read_amount(old(buf)@.len(), m.len());
                &&& r == Ok::<usize, std::io::Error>(n as usize)
                &&& final(buf)@.subrange(0, n) == m.subrange(0, n)
                &&& final(self).known_rest() == Some(m.skip(n))
            },
    ;
}

/// What the identity transform answers after its source handed back `n`
/// bytes: those bytes, or the end of the stream when there were none.
pub open spec fn identity_answer(n: int) -> Result<TransformPosition, std::io::Error> {
    if n == 0 {
        Ok(TransformPosition::Finished)
    } else {
        Ok(TransformPosition::Read(n as usize))
    }
}

/// How many bytes a read into a buffer of `want` bytes takes from a source
/// that has `have` bytes left: as many as fit.
pub open spec fn read_amount(want: nat, have: nat) -> int {
    if want < have {
        want as int
    } else {
        have as int
    }
}

impl<'a> Source for &'a [u8] {
    /// A slice knows its bytes and never fails.
    open spec fn known_rest(&self) -> Option<Seq<u8>> {
        Some(self@)
    }

    /// Copies as many leading bytes as fit, and moves past them.
    fn read_into(&mut self, buf: &mut [u8]) -> (r: Result<usize, std::io::Error>)
        ensures
            ({
                let n = if old(buf)@.len() < old(self)@.len() {
                    old(buf)@.len()
                } else {
                    old(self)@.len()
                };
                &&& r == Ok::<usize, std::io::Error>(n as usize)
                &&& final(buf)@.subrange(0, n as int) == old(self)@.subrange(0, n as int)
                &&& final(buf)@.subrange(n as int, old(buf)@.len() as int)
                    == old(buf)@.subrange(n as int, old(buf)@.len() as int)
                &&& final(self)@ == old(self)@.subrange(n as int, old(self)@.len() as int)
            }),
    {
        let n = if buf.len() < self.len() {
            buf.len()
        } else {
            self.len()
        };
        let (head, rest) = self.split_at(n);
        let mut i: usize = 0;
        while i < n
            invariant
                0 <= i <= n,
                n <= buf@.len(),
                head@.len() == n,
                head@ == old(self)@.subrange(0, n as int),
                buf@.len() == old(buf)@.len(),
                forall|k: int| 0 <= k < i ==> buf@[k] == head@[k],
                forall|k: int| n <= k < buf@.len() ==> buf@[k] == old(buf)@[k],
            decreases n - i,
        {
            buf[i] = head[i];
            i = i + 1;
        }
        assert(buf@.subrange(0, n as int) =~= old(self)@.subrange(0, n as int));
        assert(buf@.subrange(n as int, buf@.len() as int) =~= old(buf)@.subrange(
            n as int,
            old(buf)@.len() as int,
        ));
        *self = rest;
        assert(self@ =~= old(self)@.skip(n as int));
        Ok(n)
    }
}

/// Allows an input bytestream to be modified before it is stored.
///
/// Must be implemented alongside `NeedsBytes` in a functional transform.
pub trait Transform<TInput: Source> {
    /// Data transform, given access to the underlying source and the destination buffer.
    ///
    /// `Read(n)` means that the first `n` bytes of `buf` hold new output.
    /// Transforms are free to make no change to `buf` without marking the stream
    /// as finished: see `TransformPosition` for the semantics.
    fn transform_read(&mut self, src: &mut TInput, buf: &mut [u8]) -> (r: Result<
        TransformPosition,
        std::io::Error,
    >)
        ensures
            final(buf)@.len() == old(buf)@.len(),
            r matches Ok(TransformPosition::Read(n)) ==> n <= old(buf)@.len(),
    ;
}

/// Common trait required by transforms, specifying how many contiguous bytes are needed
/// for any `read(...)` to succeed.
pub trait NeedsBytes {
    /// The minimum amount of contiguous bytes required in any rope segment.
    ///
    /// *Defaults to `1`.*
    fn min_bytes_required(&self) -> (r: usize)
        default_ensures
            r == 1,
    {
        1
    }
}

impl<T: Source> Transform<T> for Identity {
    /// Passes the source's bytes through unchanged; an empty read marks the end.
    fn transform_read(&mut self, src: &mut T, buf: &mut [u8]) -> (r: Result<
        TransformPosition,
        std::io::Error,
    >)
        ensures
            r matches Ok(TransformPosition::Read(n)) ==> 0 < n,
            old(src).known_rest() matches Some(m) ==> {
                let n = read_amount(old(buf)@.len(), m.len());
                &&& r == identity_answer(n)
                &&& final(buf)@.subrange(0, n) == m.subrange(0, n)
                &&& final(src).known_rest() == Some(m.skip(n))
            },
    {
        // The buffer's length fits a `usize`, and so does any count of its bytes.
        let _room = buf.len();
        match src.read_into(buf) {
            Ok(0) => Ok(TransformPosition::Finished),
            Ok(n) => Ok(TransformPosition::Read(n)),
            Err(e) => Err(e),
        }
    }
}

impl NeedsBytes for Identity {

}

#[verifier::external_type_specification]
#[verifier::external_body]
pub struct ExContext<'a>(core::task::Context<'a>);

/// The outcome of a step that may have to wait for its source, in the manner
/// of `core::task::Poll`.
#[derive(Clone, Copy, Debug, Eq, PartialEq)]
pub enum Progress<T> {
    /// The step completed with this value.
    Ready(T),
    /// The source is not ready; the waker in the task context will be notified.
    Pending,
}

/// A producer of bytes that may have to wait, read into a caller's buffer
/// piece by piece; the asynchronous counterpart of `Source`.
pub trait AsyncSource {
    /// For a source that knows every byte it will still yield, never fails and
    /// never has to wait, those bytes; `None` for any other source.
    open spec fn known_async_rest(&self) -> Option<Seq<u8>> {
        None
    }

    /// A source that knows its rest is always ready, fills the buffer with as
    /// many of those bytes as fit, and moves past them.
    fn poll_read_into(&mut self, cx: &mut core::task::Context<'_>, buf: &mut [u8]) -> (r: Progress<
        Result<usize, std::io::Error>,
    >)
        ensures
            final(buf)@.len() == old(buf)@.len(),
            r matches Progress::Ready(Ok(n)) ==> n <= old(buf)@.len(),
            old(self).known_async_rest() matches Some(m) ==> {
                let n = read_amount(old(buf)@.len(), m.len());
                &&& r == Progress::Ready(Ok::<usize, std::io::Error>(n as usize))
                &&& final(buf)@.subrange(0, n) == m.subrange(0, n)
                &&& final(self).known_async_rest() == Some(m.skip(n))
            },
    ;
}

impl<'s> AsyncSource for &'s [u8] {
    /// A slice knows its bytes, never fails and never has to wait.
    open spec fn known_async_rest(&self) -> Option<Seq<u8>> {
        Some(self@)
    }

    /// Bytes in memory never have to wait.
    fn poll_read_into(&mut self, _cx: &mut core::task::Context<'_>, buf: &mut [u8]) -> (r: Progress<
        Result<usize, std::io::Error>,
    >)
        ensures
            r is Ready,
    {
        Progress::Ready(self.read_into(buf))
    }
}

/// Async variant of `Transform`.
pub trait AsyncTransform<TInput: AsyncSource> {
    /// Data transform, given access to the underlying source, the task context
    /// and the destination buffer; see `Transform::transform_read`.
    fn transform_poll_read(
        &mut self,
        src: &mut TInput,
        cx: &mut core::task::Context<'_>,
        buf: &mut [u8],
    ) -> (r: Progress<Result<TransformPosition, std::io::Error>>)
        ensures
            final(buf)@.len() == old(buf)@.len(),
            r matches Progress::Ready(Ok(TransformPosition::Read(n))) ==> n <= old(buf)@.len(),
    ;

    /// The minimum amount of contiguous bytes required in any rope segment.
    ///
    /// *Defaults to `1`.*
    fn min_bytes_required(&self) -> (r: usize)
        default_ensures
            r == 1,
    {
        1
    }
}

impl<T: AsyncSource> AsyncTransform<T> for Identity {
    /// Passes the source's bytes through unchanged; an empty read marks the end.
    fn transform_poll_read(
        &mut self,
        src: &mut T,
        cx: &mut core::task::Context<'_>,
        buf: &mut [u8],
    ) -> (r: Progress<Result<TransformPosition, std::io::Error>>)
        ensures
            r matches Progress::Ready(Ok(TransformPosition::Read(n))) ==> 0 < n,
            old(src).known_async_rest() matches Some(m) ==> {
                let n = read_amount(old(buf)@.len(), m.len());
                &&& r == Progress::Ready(identity_answer(n))
                &&& final(buf)@.subrange(0, n) == m.subrange(0, n)
                &&& final(src).known_async_rest() == Some(m.skip(n))
            },
    {
        // The buffer's length fits a `usize`, and so does any count of its bytes.
        let _room = buf.len();
        match src.poll_read_into(cx, buf) {
            Progress::Ready(Ok(0)) => Progress::Ready(Ok(TransformPosition::Finished)),
            Progress::Ready(Ok(n)) => Progress::Ready(Ok(TransformPosition::Read(n))),
            Progress::Ready(Err(e)) => Progress::Ready(Err(e)),
            Progress::Pending => Progress::Pending,
        }
    }
}

/// Transforms who can be queried about their internal state.
pub trait Stateful {
    /// Transform state.
    type State;

    fn state(&self) -> Self::State;
}

/// External access to a transform's state via a shared stream buffer.
pub trait StateAccess {
    /// Transform state.
    type State;

    /// Access a transform's state before a stream has finished.
    ///
    /// The state is read while the store is locked against writers, so it is
    /// never observed halfway through a transform call.
    fn get_state_unchecked(&self) -> Self::State;

    /// Returns the transform's state if the source (and transform) are finished.
    fn get_final_state(&self) -> Option<Self::State>;
}

} // verus!
