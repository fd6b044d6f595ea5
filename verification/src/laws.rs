//! Properties of the library that span several calls.
use crate::catcher::{offset_target, seek_target, settle, SeekFrom};
use crate::transform::read_amount;
use crate::config::Finaliser;
use crate::rope_state::{state_number, FinaliseState};
use crate::store::{finaliser_signal, read_states, RawStore};
use vstd::prelude::*;

verus! {

/// Every handle reads the same stream: two reads from the same position, on
/// the store as it was at any two moments (the later store extending the
/// earlier one, as every store operation guarantees), agree on every byte
/// that both return.
pub proof fn law_reads_agree<T, Tx>(
    earlier: RawStore<T, Tx>,
    later: RawStore<T, Tx>,
    pos: int,
    first: Seq<u8>,
    second: Seq<u8>,
)
    requires
        earlier@.is_prefix_of(later@),
        0 <= pos,
        pos + first.len() <= earlier@.len(),
        pos + second.len() <= later@.len(),
        first == earlier@.subrange(pos, pos + first.len()),
        second == later@.subrange(pos, pos + second.len()),
    ensures
        forall|k: int| 0 <= k < first.len() && k < second.len() ==> #[trigger] first[k] == second[k],
{
    assert forall|k: int| 0 <= k < first.len() && k < second.len() implies #[trigger] first[k]
        == second[k] by {
        assert(first[k] == earlier@[pos + k]);
        assert(second[k] == later@[pos + k]);
        assert(earlier@[pos + k] == later@.subrange(0, earlier@.len() as int)[pos + k]);
    }
}

/// Stored bytes are never rewritten: a store that extends one that extends a
/// third also extends the third.
pub proof fn law_stored_prefix_transitive<T, Tx>(
    a: RawStore<T, Tx>,
    b: RawStore<T, Tx>,
    c: RawStore<T, Tx>,
)
    requires
        a@.is_prefix_of(b@),
        b@.is_prefix_of(c@),
    ensures
        a@.is_prefix_of(c@),
{
    assert(a@ =~= c@.subrange(0, a@.len() as int)) by {
        assert forall|k: int| 0 <= k < a@.len() implies a@[k] == c@[k] by {
            assert(a@[k] == b@[k]);
            assert(b@[k] == c@[k]);
        }
    }
}

/// Moving forwards and backwards just works: seeking by `adj` from the current
/// position and then by `-adj` returns to where the handle started, whenever
/// the first move stays within the stream's start and a `u64`.
pub proof fn law_seek_round_trip(base: u64, adj: i64)
    requires
        adj > i64::MIN,
        0 <= base + adj <= u64::MAX,
    ensures
        offset_target(base, adj).0,
        offset_target(offset_target(base, adj).1, -adj as i64) == (true, base),
{
}

/// Seeking from the start always lands exactly on the requested position, and
/// seeking from the end by zero lands on the end.
pub proof fn law_seek_absolute(n: u64, old_pos: u64, end: u64)
    ensures
        seek_target(SeekFrom::Start(n), old_pos, end) == (true, n),
        seek_target(SeekFrom::End(0), old_pos, end) == (true, end),
        seek_target(SeekFrom::Current(0), old_pos, end) == (true, old_pos),
{
}

/// At most one read of a stream is told to build its backing store elsewhere:
/// a read that is told leaves the stream finished, and any read of a finished
/// stream leaves it finished and is not told.
pub proof fn law_one_finaliser_signal<T, Tx>(
    before: RawStore<T, Tx>,
    after: RawStore<T, Tx>,
    later: RawStore<T, Tx>,
)
    requires
        read_states(before, after),
        read_states(after, later),
    ensures
        finaliser_signal(before, after) ==> !(after.spec_state() is Live),
        !(after.spec_state() is Live) ==> !(later.spec_state() is Live) && !finaliser_signal(
            after,
            later,
        ),
        !(finaliser_signal(before, after) && finaliser_signal(after, later)),
{
}

/// The numbers that finalisation states are stored as tell them apart and
/// follow their order: live, then finalising, then finalised.
pub proof fn law_state_order(s: FinaliseState)
    ensures
        FinaliseState::from_number(state_number(s)) == s,
        state_number(s) < 3,
        s is Live <==> state_number(s) == 0,
        s is Finalised <==> state_number(s) == 2,
{
}

/// Only the in-place finaliser both suits a synchronous reader and blocks the
/// reading thread to build the backing store.
pub proof fn law_in_place_only(f: Finaliser)
    ensures
        (f.spec_is_sync() && f.spec_run_elsewhere()) <==> f is InPlace,
{
}

/// Seeking from the end of a stream of `end` bytes by `adj` lands `adj`
/// bytes from that end: back from it when `adj` is negative and no further
/// back than the start, and at the end itself for any `adj` that is not
/// negative (a target past the end settles there).
pub proof fn law_seek_from_end(end: u64, adj: i64)
    requires
        end <= usize::MAX,
    ensures
        adj >= 0 && end + adj <= u64::MAX ==> {
            let (valid, target) = offset_target(end, adj);
            valid && settle(target, end as usize) == end
        },
        adj < 0 && -adj <= end ==> {
            let (valid, target) = offset_target(end, adj);
            valid && target == end + adj && settle(target, end as usize) == end + adj
        },
        adj < 0 && -adj > end ==> !offset_target(end, adj).0,
{
}

/// Reading a source that knows its bytes in two steps gives those bytes in
/// order: what the first read copied, followed by what the second read copied
/// from where the first stopped, is the start of the source's bytes.
pub proof fn law_reads_in_order(m: Seq<u8>, want1: nat, want2: nat, out1: Seq<u8>, out2: Seq<u8>)
    requires
        out1 == m.subrange(0, read_amount(want1, m.len())),
        out2 == m.skip(read_amount(want1, m.len())).subrange(
            0,
            read_amount(want2, m.skip(read_amount(want1, m.len())).len()),
        ),
    ensures
        out1 + out2 == m.subrange(0, (out1.len() + out2.len()) as int),
        out1.len() + out2.len() <= m.len(),
        out1.len() + out2.len() == read_amount(want1 + want2, m.len()),
{
    let n1 = read_amount(want1, m.len());
    let n2 = read_amount(want2, m.skip(n1).len());
    assert(out1 + out2 =~= m.subrange(0, n1 + n2));
}

/// Skipping `a` bytes and then `b` bytes of a source that knows its bytes
/// skips as much, and leaves the same bytes, as skipping `a + b` at once.
pub proof fn law_skips_add(m: Seq<u8>, a: nat, b: nat)
    ensures
        ({
            let r1 = read_amount(a, m.len());
            let r2 = read_amount(b, m.skip(r1).len());
            &&& r1 + r2 == read_amount(a + b, m.len())
            &&& m.skip(r1).skip(r2) == m.skip(r1 + r2)
        }),
{
    let r1 = read_amount(a, m.len());
    let r2 = read_amount(b, m.skip(r1).len());
    assert(m.skip(r1).skip(r2) =~= m.skip(r1 + r2));
}

/// Once a store is seen finished, it stays finished through any read, so a
/// transform state reported final is never followed by a store that is live.
pub proof fn law_finished_stays_finished<T, Tx>(before: RawStore<T, Tx>, after: RawStore<T, Tx>)
    requires
        read_states(before, after),
    ensures
        !(before.spec_state() is Live) ==> !(after.spec_state() is Live),
{
}

/// Two reads through one handle of a naive reader, the second starting where
/// the first stopped, on stored bytes of which the earlier are a prefix of the
/// later, give consecutive stored bytes: together, the stored bytes from where
/// the first read started.
pub proof fn law_naive_reads_follow(
    first_seen: Seq<u8>,
    second_seen: Seq<u8>,
    pos: int,
    out1: Seq<u8>,
    out2: Seq<u8>,
)
    requires
        first_seen.is_prefix_of(second_seen),
        0 <= pos,
        pos + out1.len() <= first_seen.len(),
        pos + out1.len() + out2.len() <= second_seen.len(),
        out1 == first_seen.subrange(pos, pos + out1.len()),
        out2 == second_seen.subrange(pos + out1.len(), pos + out1.len() + out2.len()),
    ensures
        out1 + out2 == second_seen.subrange(pos, pos + out1.len() + out2.len()),
{
    assert forall|k: int| 0 <= k < out1.len() implies out1[k] == second_seen[pos + k] by {
        assert(out1[k] == first_seen[pos + k]);
        assert(first_seen[pos + k] == second_seen.subrange(0, first_seen.len() as int)[pos + k]);
    }
    assert(out1 + out2 =~= second_seen.subrange(pos, pos + out1.len() + out2.len()));
}

} // verus!
