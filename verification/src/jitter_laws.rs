//! What holds of a jitter buffer over a whole run of arrivals and
//! selections.

use vstd::prelude::*;
use crate::jitter::{lemma_choice_is, newer_than, seq_delta, Frame, JitterState};

verus! {

/// One thing done to a jitter buffer.
pub enum JitterOp {
    /// A frame arrives and is stored.
    Enqueue(Frame),
    /// The next frame to play is asked for.
    Select,
}

impl JitterState {
    /// The state after one operation, and the frame it gave, if any.
    pub open spec fn step(self, op: JitterOp) -> (JitterState, Option<Frame>) {
        match op {
            JitterOp::Enqueue(frame) => (self.enqueue(frame), None),
            JitterOp::Select => self.select(),
        }
    }

    /// The state after a run of operations, and the frames given on the way,
    /// in the order in which they were given.
    pub open spec fn run(self, ops: Seq<JitterOp>) -> (JitterState, Seq<Frame>)
        decreases ops.len(),
    {
        if ops.len() == 0 {
            (self, Seq::empty())
        } else {
            let (before, played) = self.run(ops.drop_last());
            let (after, given) = before.step(ops.last());
            (
                after,
                match given {
                    Some(frame) => played.push(frame),
                    None => played,
                },
            )
        }
    }
}

/// `seq` lies in the half of the counter's range that starts at `lo`.
pub open spec fn in_window(seq: u32, lo: int) -> bool {
    lo <= seq < lo + 0x8000_0000
}

/// Every frame that arrives in `ops` has its sequence number in the window
/// at `lo`.
pub open spec fn arrivals_in_window(ops: Seq<JitterOp>, lo: int) -> bool {
    forall|i: int|
        0 <= i < ops.len() ==> (#[trigger] ops[i] matches JitterOp::Enqueue(frame) ==> in_window(
            frame.seq(),
            lo,
        ))
}

/// Every cached frame has its sequence number in the window at `lo`.
pub open spec fn cache_in_window(cache: Seq<Frame>, lo: int) -> bool {
    forall|i: int| 0 <= i < cache.len() ==> in_window(#[trigger] cache[i].seq(), lo)
}

/// The sequence numbers of `frames` rise strictly.
pub open spec fn ascending(frames: Seq<Frame>) -> bool {
    forall|i: int, j: int|
        0 <= i < j < frames.len() ==> (#[trigger] frames[i]).seq() < (#[trigger] frames[j]).seq()
}

/// The operations that store each of `frames` in turn and ask for a frame
/// after each.
pub open spec fn one_by_one(frames: Seq<Frame>) -> Seq<JitterOp> {
    Seq::new(
        2 * frames.len(),
        |k: int|
            if k % 2 == 0 {
                JitterOp::Enqueue(frames[k / 2])
            } else {
                JitterOp::Select
            },
    )
}

/// Within one half of the counter's range the signed difference is the
/// plain one.
pub proof fn lemma_delta_in_window(seq: u32, last: u32, lo: int)
    requires
        in_window(seq, lo),
        in_window(last, lo),
    ensures
        seq_delta(seq, last) == seq - last,
{
}

/// What `select` gives was in the cache; it lies ahead of the frame played
/// before it, unless none was; it becomes the frame played last; and what
/// stays in the cache was there before and lies above it.
pub proof fn lemma_select_gives(s: JitterState)
    requires
        s.select().1 is Some,
    ensures
        ({
            let (after, given) = s.select();
            let frame = given.unwrap();
            &&& s.cache.contains(frame)
            &&& s.last_played != 0 ==> seq_delta(frame.seq(), s.last_played) >= 1
            &&& after.last_played == frame.seq()
            &&& forall|k: int|
                0 <= k < after.cache.len() ==> s.cache.contains(#[trigger] after.cache[k])
                    && after.cache[k].seq() > frame.seq()
        }),
{
    let i = s.choice().unwrap();
    assert(s.picks(i));
    let (after, given) = s.select();
    let keep = newer_than(s.cache[i].seq());
    assert forall|k: int| 0 <= k < after.cache.len() implies s.cache.contains(
        #[trigger] after.cache[k],
    ) && after.cache[k].seq() > s.cache[i].seq() by {
        s.cache.lemma_filter_pred(keep, k);
        assert(s.cache.filter(keep).contains(after.cache[k]));
        s.cache.lemma_filter_contains_rev(keep, after.cache[k]);
    }
}

/// While no frame follows directly and the cache holds fewer than 32 frames,
/// `select` gives nothing and changes nothing.
pub proof fn lemma_select_waits(s: JitterState)
    requires
        s.starved(),
        s.cache.len() < 32,
    ensures
        s.select() == (s, None::<Frame>),
{
    assert forall|i: int| !s.picks(i) by {}
}

/// While the cache holds fewer than 32 frames no frame is skipped: what
/// `select` gives follows the frame played last directly, unless nothing had
/// been played.
pub proof fn lemma_no_skip_below_full(s: JitterState)
    requires
        s.cache.len() < 32,
        s.last_played != 0,
        s.select().1 is Some,
    ensures
        seq_delta(s.select().1.unwrap().seq(), s.last_played) == 1,
{
    let i = s.choice().unwrap();
    assert(s.picks(i));
}

/// Among the first `n` cached frames, if any lies ahead of the frame played
/// last, one lies ahead by the least and arrived before any other that lies
/// ahead by as little.
proof fn lemma_closest_among(s: JitterState, n: int) -> (i: int)
    requires
        0 <= n <= s.cache.len(),
        exists|j: int| 0 <= j < n && s.delta(j) > 0,
    ensures
        0 <= i < n,
        s.delta(i) > 0,
        forall|j: int| 0 <= j < n && s.delta(j) > 0 ==> s.delta(i) <= s.delta(j),
        forall|j: int| 0 <= j < i ==> s.delta(j) != s.delta(i),
    decreases n,
{
    if exists|j: int| 0 <= j < n - 1 && s.delta(j) > 0 {
        let best = lemma_closest_among(s, n - 1);
        if s.delta(n - 1) > 0 && s.delta(n - 1) < s.delta(best) {
            n - 1
        } else {
            best
        }
    } else {
        n - 1
    }
}

/// A full cache gives up on a gap: where no frame follows the last played
/// directly, the cache holds 32 frames or more, and some frame lies ahead,
/// `select` gives a frame, one that lies ahead by more than one and by no
/// more than any other cached frame does.
pub proof fn lemma_skips_when_full(s: JitterState)
    requires
        s.starved(),
        s.cache.len() >= 32,
        exists|j: int| 0 <= j < s.cache.len() && s.delta(j) > 0,
    ensures
        s.select().1 is Some,
        seq_delta(s.select().1.unwrap().seq(), s.last_played) > 1,
        forall|j: int|
            0 <= j < s.cache.len() && s.delta(j) > 0 ==> seq_delta(
                s.select().1.unwrap().seq(),
                s.last_played,
            ) <= s.delta(j),
{
    let i = lemma_closest_among(s, s.cache.len() as int);
    assert(s.closest_following(i));
    lemma_choice_is(s, i);
    assert(!s.is_next(i));
}

/// Over any run of arrivals and selections, from any state, each frame given
/// lies ahead of the one given before it, by the signed difference of their
/// sequence numbers, unless that one had the number 0, which reads as
/// nothing played. The first frame given lies ahead, in the same way, of
/// what had been played before the run.
pub proof fn lemma_played_ahead(s: JitterState, ops: Seq<JitterOp>)
    ensures
        ({
            let (end, played) = s.run(ops);
            &&& forall|i: int|
                #![trigger played[i]]
                0 < i < played.len() ==> played[i - 1].seq() == 0 || seq_delta(
                    played[i].seq(),
                    played[i - 1].seq(),
                ) >= 1
            &&& played.len() > 0 && s.last_played != 0 ==> seq_delta(
                played[0].seq(),
                s.last_played,
            ) >= 1
            &&& end.last_played == if played.len() == 0 {
                s.last_played
            } else {
                played.last().seq()
            }
        }),
    decreases ops.len(),
{
    if ops.len() > 0 {
        lemma_played_ahead(s, ops.drop_last());
        let (before, played) = s.run(ops.drop_last());
        let (after, given) = before.step(ops.last());
        if ops.last() is Select && given is Some {
            lemma_select_gives(before);
        }
    }
}

/// Frames come out in ascending order of sequence number, each above
/// whatever had been played before the run, and the last played sequence
/// number never falls: from any state, over any run of arrivals and
/// selections, as long as the sequence numbers in play are not 0 and lie
/// within one half of the counter's range.
///
/// Without that bound the order can break where the counter wraps round:
/// after 0xFFFF_FFFF the frame with number 0 follows directly and is given.
pub proof fn lemma_played_ascending(s: JitterState, ops: Seq<JitterOp>, lo: int)
    requires
        lo >= 1,
        s.last_played == 0 || in_window(s.last_played, lo),
        cache_in_window(s.cache, lo),
        arrivals_in_window(ops, lo),
    ensures
        ({
            let (end, played) = s.run(ops);
            &&& ascending(played)
            &&& forall|i: int| 0 <= i < played.len() ==> (#[trigger] played[i]).seq() > s.last_played
            &&& end.last_played == if played.len() == 0 {
                s.last_played
            } else {
                played.last().seq()
            }
            &&& end.last_played >= s.last_played
            &&& end.last_played == 0 || in_window(end.last_played, lo)
            &&& cache_in_window(end.cache, lo)
        }),
    decreases ops.len(),
{
    if ops.len() > 0 {
        let earlier = ops.drop_last();
        assert forall|i: int| 0 <= i < earlier.len() implies (#[trigger] earlier[i] matches JitterOp::Enqueue(
            frame,
        ) ==> in_window(frame.seq(), lo)) by {
            assert(earlier[i] == ops[i]);
        }
        lemma_played_ascending(s, earlier, lo);
        let (before, played) = s.run(earlier);
        let (after, given) = before.step(ops.last());
        match ops.last() {
            JitterOp::Enqueue(frame) => {
                assert(in_window(frame.seq(), lo));
            },
            JitterOp::Select => {
                if given is Some {
                    lemma_select_gives(before);
                    let frame = given.unwrap();
                    let at = choose|k: int| 0 <= k < before.cache.len() && before.cache[k] == frame;
                    assert(in_window(before.cache[at].seq(), lo));
                    if before.last_played != 0 {
                        lemma_delta_in_window(frame.seq(), before.last_played, lo);
                    }
                    assert forall|k: int| 0 <= k < after.cache.len() implies in_window(
                        #[trigger] after.cache[k].seq(),
                        lo,
                    ) by {
                        let from = choose|m: int|
                            0 <= m < before.cache.len() && before.cache[m] == after.cache[k];
                        assert(in_window(before.cache[from].seq(), lo));
                    }
                }
            },
        }
    }
}

/// Frames numbered 1, 2, 3, ... that arrive in that order, each followed by
/// a selection, are given in that order, one at each selection, and leave
/// the cache empty.
pub proof fn lemma_in_order_delivery(frames: Seq<Frame>)
    requires
        forall|i: int| 0 <= i < frames.len() ==> (#[trigger] frames[i]).seq() == i + 1,
    ensures
        JitterState::fresh().run(one_by_one(frames)) == (
            JitterState { cache: Seq::empty(), last_played: frames.len() as u32 },
            frames,
        ),
    decreases frames.len(),
{
    let ops = one_by_one(frames);
    if frames.len() == 0 {
        assert(ops.len() == 0);
    } else {
        let n = frames.len() as int;
        let earlier = frames.drop_last();
        let frame = frames.last();
        lemma_in_order_delivery(earlier);
        assert(ops.drop_last().drop_last() =~= one_by_one(earlier));
        assert(ops.drop_last().last() == JitterOp::Enqueue(frame)) by {
            assert(ops.drop_last().last() == ops[2 * n - 2]);
        }
        assert(ops.last() == JitterOp::Select);
        let start = JitterState { cache: Seq::<Frame>::empty(), last_played: (n - 1) as u32 };
        let (s0, played0) = JitterState::fresh().run(one_by_one(earlier));
        assert(s0 == start && played0 == earlier);
        let (s1, played1) = JitterState::fresh().run(ops.drop_last());
        assert(s1 == start.enqueue(frame) && played1 == earlier);
        assert(s1.cache =~= seq![frame]);
        assert(s1.first_next(0));
        lemma_choice_is(s1, 0);
        assert(s1.cache.filter(newer_than(frame.seq())) =~= Seq::<Frame>::empty()) by {
            reveal_with_fuel(Seq::filter, 2);
        }
        assert(earlier.push(frame) =~= frames);
    }
}

} // verus!
