//! The mathematical model of a stream codec: what it was made with, what it
//! has taken in and what it has given back.
use vstd::prelude::*;

verus! {

/// The life of one codec so far.
pub struct Transcript {
    /// The quality level that a compressor was made with; 0 for a
    /// decompressor, which has none.
    pub level: int,
    /// The chunks that were taken in, in order. An empty chunk leaves no
    /// trace.
    pub fed: Seq<Seq<u8>>,
    /// All bytes that were given back, in order.
    pub emitted: Seq<u8>,
    /// Whether the codec takes no further chunk: its stream was finished, or
    /// its input was rejected.
    pub closed: bool,
}

impl Transcript {
    /// A codec that has just been made.
    pub open spec fn fresh(level: int) -> Transcript {
        Transcript { level, fed: Seq::empty(), emitted: Seq::empty(), closed: false }
    }

    /// What has been fed once `chunk` is taken in too.
    pub open spec fn fed_with(self, chunk: Seq<u8>) -> Seq<Seq<u8>> {
        if chunk.len() == 0 {
            self.fed
        } else {
            self.fed.push(chunk)
        }
    }

    /// The transcript after `chunk` was taken in and `out` given back for it;
    /// `end` says that the chunk was the last one.
    pub open spec fn after(self, chunk: Seq<u8>, end: bool, out: Seq<u8>) -> Transcript {
        Transcript {
            level: self.level,
            fed: self.fed_with(chunk),
            emitted: self.emitted + out,
            closed: end,
        }
    }

    /// The transcript after a chunk was rejected: nothing was taken in or
    /// given back, and the codec is closed.
    pub open spec fn failed(self) -> Transcript {
        Transcript { level: self.level, fed: self.fed, emitted: self.emitted, closed: true }
    }

    /// The sum of the lengths of all chunks taken in.
    pub open spec fn bytes_in(self) -> nat {
        total_len(self.fed)
    }

    /// The number of bytes given back.
    pub open spec fn bytes_out(self) -> nat {
        self.emitted.len()
    }
}

/// The sum of the lengths of `chunks`.
pub open spec fn total_len(chunks: Seq<Seq<u8>>) -> nat
    decreases chunks.len(),
{
    if chunks.len() == 0 {
        0
    } else {
        total_len(chunks.drop_last()) + chunks.last().len()
    }
}

/// A byte count as a counter holds it: exact as long as it fits, and the
/// largest `usize` from there on.
pub open spec fn clip(n: nat) -> usize {
    if n <= usize::MAX {
        n as usize
    } else {
        usize::MAX
    }
}

/// One more chunk adds its length to the sum.
pub proof fn lemma_total_len_push(chunks: Seq<Seq<u8>>, chunk: Seq<u8>)
    ensures
        total_len(chunks.push(chunk)) == total_len(chunks) + chunk.len(),
{
    assert(chunks.push(chunk).drop_last() =~= chunks);
}

/// Counting on from a clipped count, and stopping at the largest `usize`,
/// clips the true sum.
pub proof fn lemma_clip_step(n: nat, more: usize)
    ensures
        clip((n + more) as nat) == (if clip(n) + more > usize::MAX {
            usize::MAX
        } else {
            (clip(n) + more) as usize
        }),
{
}

/// One call of a codec: the chunk that it took in, whether the chunk was
/// the last one, and the bytes that it gave back.
pub struct Call {
    pub chunk: Seq<u8>,
    pub end: bool,
    pub out: Seq<u8>,
}

/// The transcript of a codec that stood at `t` and then answered `calls`,
/// one after the other.
pub open spec fn replay(t: Transcript, calls: Seq<Call>) -> Transcript
    decreases calls.len(),
{
    if calls.len() == 0 {
        t
    } else {
        replay(t, calls.drop_last()).after(calls.last().chunk, calls.last().end, calls.last().out)
    }
}

/// The sum of the lengths of the chunks that `calls` took in.
pub open spec fn taken_len(calls: Seq<Call>) -> nat
    decreases calls.len(),
{
    if calls.len() == 0 {
        0
    } else {
        taken_len(calls.drop_last()) + calls.last().chunk.len()
    }
}

/// The sum of the lengths of the bytes that `calls` gave back.
pub open spec fn given_len(calls: Seq<Call>) -> nat
    decreases calls.len(),
{
    if calls.len() == 0 {
        0
    } else {
        given_len(calls.drop_last()) + calls.last().out.len()
    }
}

/// The chunks that `calls` took in, in order, without the empty ones.
pub open spec fn taken(calls: Seq<Call>) -> Seq<Seq<u8>>
    decreases calls.len(),
{
    if calls.len() == 0 {
        Seq::empty()
    } else if calls.last().chunk.len() == 0 {
        taken(calls.drop_last())
    } else {
        taken(calls.drop_last()).push(calls.last().chunk)
    }
}

/// The bytes that `calls` gave back, one call's after the other's.
pub open spec fn given(calls: Seq<Call>) -> Seq<u8>
    decreases calls.len(),
{
    if calls.len() == 0 {
        Seq::empty()
    } else {
        given(calls.drop_last()) + calls.last().out
    }
}

/// A transcript is an exact record: after any run of calls it holds every
/// chunk that was taken in and every byte that was given back, once each
/// and in the order of the calls.
pub proof fn lemma_replay_records(t: Transcript, calls: Seq<Call>)
    ensures
        replay(t, calls).fed == t.fed + taken(calls),
        replay(t, calls).emitted == t.emitted + given(calls),
        given(calls).len() == given_len(calls),
    decreases calls.len(),
{
    if calls.len() == 0 {
        assert(t.fed + taken(calls) =~= t.fed);
        assert(t.emitted + given(calls) =~= t.emitted);
    } else {
        lemma_replay_records(t, calls.drop_last());
        let before = replay(t, calls.drop_last());
        let last = calls.last();
        assert(before.emitted + last.out =~= t.emitted + given(calls));
        if last.chunk.len() == 0 {
            assert(before.fed_with(last.chunk) == before.fed);
        } else {
            assert(before.fed.push(last.chunk) =~= t.fed + taken(calls));
        }
    }
}

/// After any run of calls a codec has taken in the sum of the lengths of
/// the chunks it was given, and has given back the sum of the lengths of
/// what it returned. The counters of a codec hold these two numbers,
/// clipped.
pub proof fn lemma_counters_count(t: Transcript, calls: Seq<Call>)
    ensures
        replay(t, calls).level == t.level,
        replay(t, calls).bytes_in() == t.bytes_in() + taken_len(calls),
        replay(t, calls).bytes_out() == t.bytes_out() + given_len(calls),
    decreases calls.len(),
{
    if calls.len() > 0 {
        lemma_counters_count(t, calls.drop_last());
        let before = replay(t, calls.drop_last());
        lemma_total_len_push(before.fed, calls.last().chunk);
    }
}

/// A fresh codec that has answered `calls` has counted exactly their
/// bytes.
pub proof fn lemma_counters_from_fresh(level: int, calls: Seq<Call>)
    ensures
        replay(Transcript::fresh(level), calls).bytes_in() == taken_len(calls),
        replay(Transcript::fresh(level), calls).bytes_out() == given_len(calls),
{
    lemma_counters_count(Transcript::fresh(level), calls);
}

/// The counts never go down: whatever calls follow, a codec has taken in
/// and given back at least what it had before.
pub proof fn lemma_counters_grow(t: Transcript, calls: Seq<Call>)
    ensures
        replay(t, calls).bytes_in() >= t.bytes_in(),
        replay(t, calls).bytes_out() >= t.bytes_out(),
        clip(replay(t, calls).bytes_in()) >= clip(t.bytes_in()),
        clip(replay(t, calls).bytes_out()) >= clip(t.bytes_out()),
{
    lemma_counters_count(t, calls);
}

/// Answering one run of calls and then another is answering the two in a
/// row.
pub proof fn lemma_replay_concat(t: Transcript, first: Seq<Call>, then: Seq<Call>)
    ensures
        replay(t, first + then) == replay(replay(t, first), then),
    decreases then.len(),
{
    if then.len() == 0 {
        assert(first + then =~= first);
    } else {
        assert((first + then).drop_last() =~= first + then.drop_last());
        assert((first + then).last() == then.last());
        lemma_replay_concat(t, first, then.drop_last());
    }
}

/// Idle calls may come anywhere in a stream that is open and change
/// nothing: with them or without them the codec has the same transcript
/// after the calls that follow, so that whatever it gives back from then on
/// is the same too.
pub proof fn lemma_idle_calls_between(
    t: Transcript,
    first: Seq<Call>,
    idle: Seq<Call>,
    then: Seq<Call>,
)
    requires
        !replay(t, first).closed,
        all_idle(idle),
    ensures
        replay(t, first + idle) == replay(t, first),
        replay(t, first + idle + then) == replay(t, first + then),
{
    lemma_replay_concat(t, first, idle);
    lemma_idle_calls(replay(t, first), idle);
    lemma_replay_concat(t, first + idle, then);
    lemma_replay_concat(t, first, then);
}

/// Whether the codec that answered `second` took in, call by call, what the
/// codec that answered `first` gave back.
pub open spec fn chained(first: Seq<Call>, second: Seq<Call>) -> bool {
    &&& first.len() == second.len()
    &&& forall|i: int| 0 <= i < first.len() ==> (#[trigger] second[i]).chunk == first[i].out
}

/// Nothing is lost or made up between two codecs in a row: the second has
/// taken in as many bytes as the first has given back, and in the same
/// order.
pub proof fn lemma_chained_counts(level: int, first: Seq<Call>, second: Seq<Call>)
    requires
        chained(first, second),
    ensures
        replay(Transcript::fresh(0), second).bytes_in() == replay(
            Transcript::fresh(level),
            first,
        ).bytes_out(),
        replay(Transcript::fresh(0), second).fed.flatten() == replay(
            Transcript::fresh(level),
            first,
        ).emitted,
    decreases first.len(),
{
    lemma_counters_from_fresh(level, first);
    lemma_counters_from_fresh(0, second);
    lemma_chained_taken(first, second);
    lemma_replay_records(Transcript::fresh(level), first);
    lemma_replay_records(Transcript::fresh(0), second);
    assert(Seq::<Seq<u8>>::empty() + taken(second) =~= taken(second));
    assert(Seq::<u8>::empty() + given(first) =~= given(first));
}

/// What a chained codec took in is what was given to it.
proof fn lemma_chained_taken(first: Seq<Call>, second: Seq<Call>)
    requires
        chained(first, second),
    ensures
        taken_len(second) == given_len(first),
        taken(second).flatten() == given(first),
    decreases first.len(),
{
    if first.len() == 0 {
        assert(taken(second).flatten() =~= given(first));
    } else {
        assert(second.last() == second[second.len() - 1]);
        assert(first.last() == first[first.len() - 1]);
        assert(chained(first.drop_last(), second.drop_last())) by {
            assert forall|i: int| 0 <= i < first.drop_last().len() implies (
            #[trigger] second.drop_last()[i]).chunk == first.drop_last()[i].out by {
                assert(second.drop_last()[i] == second[i]);
                assert(first.drop_last()[i] == first[i]);
            }
        }
        lemma_chained_taken(first.drop_last(), second.drop_last());
        let rest = taken(second.drop_last());
        let chunk = second.last().chunk;
        if chunk.len() == 0 {
            assert(given(first) =~= given(first.drop_last()));
        } else {
            rest.lemma_flatten_push(chunk);
        }
    }
}

/// Whether every call of `calls` brought an empty chunk that was not the
/// last one, and gave nothing back.
pub open spec fn all_idle(calls: Seq<Call>) -> bool {
    forall|i: int|
        0 <= i < calls.len() ==> {
            &&& (#[trigger] calls[i]).chunk.len() == 0
            &&& !calls[i].end
            &&& calls[i].out.len() == 0
        }
}

/// Empty chunks that are not the last one leave no trace, however many
/// there are: the transcript of an open codec, and with it both counts,
/// stands as it stood.
pub proof fn lemma_idle_calls(t: Transcript, calls: Seq<Call>)
    requires
        !t.closed,
        all_idle(calls),
    ensures
        replay(t, calls) == t,
    decreases calls.len(),
{
    if calls.len() > 0 {
        let last = calls.last();
        assert(last == calls[calls.len() - 1]);
        assert(all_idle(calls.drop_last())) by {
            assert forall|i: int| 0 <= i < calls.drop_last().len() implies {
                &&& (#[trigger] calls.drop_last()[i]).chunk.len() == 0
                &&& !calls.drop_last()[i].end
                &&& calls.drop_last()[i].out.len() == 0
            } by {
                assert(calls.drop_last()[i] == calls[i]);
            }
        }
        lemma_idle_calls(t, calls.drop_last());
        assert(t.emitted + last.out =~= t.emitted);
    }
}

} // verus!
