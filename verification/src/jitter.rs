//! The jitter buffer: a cache of frames as they arrived, and the rule that
//! picks the next one to play.
//!
//! Sequence numbers are compared by their signed 32-bit difference, so the
//! rule follows the counter where it wraps; what is evicted is decided by
//! plain unsigned order, which does not.

use vstd::prelude::*;
use vstd::seq_lib::lemma_filter_view_commute;
use crate::vban::VBanPacket;

verus! {

/// Number of cached frames from which a gap counts as a loss.
pub const MAX_CACHED_PACKETS: usize = 32;

/// A frame that waits in the cache: its header and its payload.
#[derive(Debug, PartialEq, Eq)]
pub struct PendingFrame {
    pub header: VBanPacket,
    pub payload: Vec<u8>,
}

/// A frame as a value: its header and the bytes of its payload.
pub struct Frame {
    pub header: VBanPacket,
    pub payload: Seq<u8>,
}

impl Frame {
    /// The frame's sequence number.
    pub open spec fn seq(self) -> u32 {
        self.header.frame_ordering
    }
}

impl View for PendingFrame {
    type V = Frame;

    open spec fn view(&self) -> Frame {
        Frame { header: self.header, payload: self.payload@ }
    }
}

/// The frames of a cache as values, in the same order.
pub open spec fn frames_of(cache: Seq<PendingFrame>) -> Seq<Frame> {
    cache.map_values(|f: PendingFrame| f@)
}

/// How far `seq` lies ahead of `last`: their difference modulo 2^32, read as
/// a signed 32-bit number. Negative where `seq` lies behind.
pub open spec fn seq_delta(seq: u32, last: u32) -> int {
    let d = (seq - last) % 0x1_0000_0000;
    if d >= 0x8000_0000 {
        d - 0x1_0000_0000
    } else {
        d
    }
}

/// The frames that eviction keeps: those whose sequence number is above
/// `last` as an unsigned number.
pub open spec fn newer_than(last: u32) -> spec_fn(Frame) -> bool {
    |f: Frame| f.seq() > last
}

/// What a jitter buffer holds: the cache in order of arrival, and the
/// sequence number played last, 0 while nothing has been played.
pub struct JitterState {
    pub cache: Seq<Frame>,
    pub last_played: u32,
}

impl JitterState {
    /// The state before any frame has arrived.
    pub open spec fn fresh() -> JitterState {
        JitterState { cache: Seq::empty(), last_played: 0 }
    }

    /// How far the frame at `i` lies ahead of the one played last.
    pub open spec fn delta(self, i: int) -> int {
        seq_delta(self.cache[i].seq(), self.last_played)
    }

    /// The frame at `i` may be played next without a gap: it follows the last
    /// one directly, or nothing has been played yet.
    pub open spec fn is_next(self, i: int) -> bool {
        self.last_played == 0 || self.delta(i) == 1
    }

    /// No cached frame may be played next without a gap.
    pub open spec fn starved(self) -> bool {
        forall|j: int| 0 <= j < self.cache.len() ==> !self.is_next(j)
    }

    /// The frame at `i` is the earliest arrival that may be played next
    /// without a gap.
    pub open spec fn first_next(self, i: int) -> bool {
        &&& 0 <= i < self.cache.len()
        &&& self.is_next(i)
        &&& forall|j: int| 0 <= j < i ==> !self.is_next(j)
    }

    /// The frame at `i` lies ahead of the last one played, no cached frame
    /// lies ahead by less, and none that arrived earlier by as little.
    pub open spec fn closest_following(self, i: int) -> bool {
        &&& 0 <= i < self.cache.len()
        &&& self.delta(i) > 0
        &&& forall|j: int|
            0 <= j < self.cache.len() && self.delta(j) > 0 ==> self.delta(i) <= self.delta(j)
        &&& forall|j: int| 0 <= j < i ==> self.delta(j) != self.delta(i)
    }

    /// The frame at `i` is the one that `select` takes: the earliest that
    /// follows without a gap; or, where there is none and the cache is full,
    /// the closest that follows at all.
    pub open spec fn picks(self, i: int) -> bool {
        ||| self.first_next(i)
        ||| (self.starved() && self.cache.len() >= MAX_CACHED_PACKETS
            && self.closest_following(i))
    }

    /// The index of the frame that `select` takes, if it takes one.
    pub open spec fn choice(self) -> Option<int> {
        if exists|i: int| self.picks(i) {
            Some(choose|i: int| self.picks(i))
        } else {
            None
        }
    }

    /// The state after `frame` has arrived.
    pub open spec fn enqueue(self, frame: Frame) -> JitterState {
        JitterState { cache: self.cache.push(frame), last_played: self.last_played }
    }

    /// The state after every frame at or below the last one played has been
    /// dropped.
    pub open spec fn evict(self) -> JitterState {
        JitterState {
            cache: self.cache.filter(newer_than(self.last_played)),
            last_played: self.last_played,
        }
    }

    /// The state after the frame at `i` has been played.
    pub open spec fn play(self, i: int) -> JitterState {
        JitterState { cache: self.cache, last_played: self.cache[i].seq() }.evict()
    }

    /// The state after `select`, and the frame it gave, if any.
    pub open spec fn select(self) -> (JitterState, Option<Frame>) {
        match self.choice() {
            Some(i) => (self.play(i), Some(self.cache[i])),
            None => (self, None),
        }
    }
}

/// At most one frame is picked.
pub proof fn lemma_pick_unique(s: JitterState, i: int, j: int)
    requires
        s.picks(i),
        s.picks(j),
    ensures
        i == j,
{
    if s.first_next(i) {
        if !s.first_next(j) {
            assert(s.is_next(i));
        }
    } else {
        if s.first_next(j) {
            assert(s.is_next(j));
        }
    }
}

/// The picked frame is the choice.
pub proof fn lemma_choice_is(s: JitterState, i: int)
    requires
        s.picks(i),
    ensures
        s.choice() == Some(i),
{
    lemma_pick_unique(s, i, choose|k: int| s.picks(k));
}

/// A jitter buffer.
pub struct JitterBuffer {
    pending_frames: Vec<PendingFrame>,
    last_played_seq: u32,
}

impl View for JitterBuffer {
    type V = JitterState;

    closed spec fn view(&self) -> JitterState {
        JitterState { cache: frames_of(self.pending_frames@), last_played: self.last_played_seq }
    }
}

impl JitterBuffer {
    /// An empty buffer that has played nothing.
    pub fn new() -> (jb: JitterBuffer)
        ensures
            jb@ == JitterState::fresh(),
    {
        let jb = JitterBuffer {
            pending_frames: Vec::with_capacity(MAX_CACHED_PACKETS),
            last_played_seq: 0,
        };
        assert(jb@.cache =~= Seq::empty());
        jb
    }

    /// The sequence number of the frame played last; 0 while none has been.
    pub fn last_played_seq(&self) -> (n: u32)
        ensures
            n == self@.last_played,
    {
        self.last_played_seq
    }

    /// Number of frames in the cache.
    pub fn len(&self) -> (n: usize)
        ensures
            n == self@.cache.len(),
    {
        self.pending_frames.len()
    }

    /// Stores a frame at the end of the cache, whatever its sequence number:
    /// a frame that arrives twice is stored twice.
    pub fn enqueue(&mut self, header: VBanPacket, payload: Vec<u8>)
        ensures
            final(self)@ == old(self)@.enqueue(Frame { header, payload: payload@ }),
    {
        self.pending_frames.push(PendingFrame { header, payload });
        assert(self@.cache =~= old(self)@.cache.push(Frame { header, payload: payload@ }));
    }

    /// Takes the next frame to play out of the cache, if there is one.
    ///
    /// The earliest arrival that follows the last played frame directly is
    /// taken; while nothing has been played, that is the earliest arrival
    /// of all. Where no frame follows directly, a cache of fewer than 32
    /// frames gives nothing, since the missing frame may still come; a cache
    /// of 32 or more gives up on it and takes the frame that lies ahead by
    /// the least. Taking a frame makes it the last played and drops every
    /// cached frame at or below it. Where nothing is taken nothing changes.
    pub fn select(&mut self) -> (r: Option<PendingFrame>)
        ensures
            final(self)@ == old(self)@.select().0,
            match r {
                Some(frame) => old(self)@.select().1 == Some(frame@),
                None => old(self)@.select().1 is None,
            },
    {
        let n = self.pending_frames.len();
        let last = self.last_played_seq;
        let mut found: Option<usize> = None;
        let mut i: usize = 0;
        while i < n
            invariant_except_break
                found is None,
                forall|j: int| 0 <= j < i ==> !self@.is_next(j),
            invariant
                n == self.pending_frames@.len(),
                last == self.last_played_seq,
                self@ == old(self)@,
                i <= n,
            ensures
                i <= n,
                match found {
                    Some(k) => self@.first_next(k as int),
                    None => self@.starved(),
                },
            decreases n - i,
        {
            if last == 0 || signed_delta(self.pending_frames[i].header.frame_ordering, last) == 1 {
                found = Some(i);
                break;
            }
            i += 1;
        }
        if found.is_none() && n >= MAX_CACHED_PACKETS {
            let mut k: usize = 0;
            let mut delta_min: i32 = 0;
            while k < n
                invariant
                    n == self.pending_frames@.len(),
                    last == self.last_played_seq,
                    self@ == old(self)@,
                    k <= n,
                    match found {
                        Some(b) => {
                            &&& b < k
                            &&& delta_min == self@.delta(b as int)
                            &&& delta_min > 0
                            &&& forall|j: int|
                                0 <= j < k && self@.delta(j) > 0 ==> delta_min <= self@.delta(j)
                            &&& forall|j: int| 0 <= j < b ==> self@.delta(j) != delta_min
                        },
                        None => forall|j: int| 0 <= j < k ==> self@.delta(j) <= 0,
                    },
                decreases n - k,
            {
                let delta = signed_delta(self.pending_frames[k].header.frame_ordering, last);
                if delta > 0 && (found.is_none() || delta < delta_min) {
                    found = Some(k);
                    delta_min = delta;
                }
                k += 1;
            }
        }
        match found {
            Some(index) => {
                proof {
                    lemma_choice_is(self@, index as int);
                }
                let frame = self.pending_frames.remove(index);
                self.last_played_seq = frame.header.frame_ordering;
                proof {
                    assert(self@.cache =~= old(self)@.cache.remove(index as int));
                    lemma_filter_remove(
                        old(self)@.cache,
                        index as int,
                        newer_than(self.last_played_seq),
                    );
                }
                self.drop_old_packets();
                Some(frame)
            },
            None => {
                proof {
                    assert forall|j: int| !self@.picks(j) by {}
                }
                None
            },
        }
    }

    /// Drops every cached frame whose sequence number is at or below the
    /// last one played, and keeps the others in their order.
    fn drop_old_packets(&mut self)
        ensures
            final(self)@ == old(self)@.evict(),
    {
        let ghost before = self.pending_frames@;
        let last = self.last_played_seq;
        let ghost keep = |f: PendingFrame| f.header.frame_ordering > last;
        let mut i: usize = 0;
        let ghost mut k: int = 0;
        proof {
            assert(before.take(0).filter(keep) =~= self.pending_frames@.take(0)) by {
                reveal(Seq::filter);
            }
        }
        while i < self.pending_frames.len()
            invariant
                last == self.last_played_seq,
                last == old(self).last_played_seq,
                keep == |f: PendingFrame| f.header.frame_ordering > last,
                before == old(self).pending_frames@,
                i <= self.pending_frames@.len(),
                0 <= k <= before.len(),
                self.pending_frames@.take(i as int) == before.take(k).filter(keep),
                self.pending_frames@.skip(i as int) == before.skip(k),
            decreases self.pending_frames@.len() - i,
        {
            let ghost cur = self.pending_frames@;
            proof {
                assert(cur.skip(i as int).len() == cur.len() - i);
                assert(before.skip(k).len() == before.len() - k);
                assert(cur[i as int] == cur.skip(i as int)[0]);
                assert(before[k] == before.skip(k)[0]);
                assert(before.take(k + 1) =~= before.take(k).push(before[k]));
                before.take(k).lemma_filter_push(before[k], keep);
            }
            if self.pending_frames[i].header.frame_ordering > last {
                proof {
                    assert(cur.take(i + 1) =~= cur.take(i as int).push(cur[i as int]));
                    assert(cur.skip(i + 1) =~= cur.skip(i as int).skip(1));
                    assert(before.skip(k + 1) =~= before.skip(k).skip(1));
                }
                i += 1;
            } else {
                self.pending_frames.remove(i);
                proof {
                    assert(self.pending_frames@.take(i as int) =~= cur.take(i as int));
                    assert(self.pending_frames@.skip(i as int) =~= cur.skip(i as int).skip(1));
                    assert(before.skip(k + 1) =~= before.skip(k).skip(1));
                }
            }
            proof {
                k = k + 1;
            }
        }
        proof {
            assert(self.pending_frames@.take(i as int) =~= self.pending_frames@);
            assert(before.skip(k).len() == 0);
            assert(before.take(k) =~= before);
            lemma_filter_view_commute(before, keep, newer_than(last));
        }
    }
}

/// The signed 32-bit difference of two sequence numbers.
fn signed_delta(seq: u32, last: u32) -> (d: i32)
    ensures
        d == seq_delta(seq, last),
{
    let wide: i64 = seq as i64 - last as i64;
    if wide >= 0x8000_0000 {
        (wide - 0x1_0000_0000) as i32
    } else if wide < -0x8000_0000 {
        (wide + 0x1_0000_0000) as i32
    } else {
        wide as i32
    }
}

/// Taking out an element that a filter drops does not change what the
/// filter keeps.
pub proof fn lemma_filter_remove<A>(s: Seq<A>, i: int, pred: spec_fn(A) -> bool)
    requires
        0 <= i < s.len(),
        !pred(s[i]),
    ensures
        s.remove(i).filter(pred) == s.filter(pred),
{
    let head = s.subrange(0, i);
    let tail = s.subrange(i + 1, s.len() as int);
    assert(s =~= head.push(s[i]) + tail);
    head.lemma_filter_push(s[i], pred);
    Seq::filter_distributes_over_add(head.push(s[i]), tail, pred);
    Seq::filter_distributes_over_add(head, tail, pred);
}

} // verus!
