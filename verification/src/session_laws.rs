//! What holds of a receive session over a whole run of datagrams and turns,
//! and between a transmit session and a receive session.

use vstd::prelude::*;
use vstd::utf8::{encode_utf8, encode_utf8_decode_utf8, encode_utf8_valid_utf8};
use crate::output::{OpenStream, OutputState, Plan};
use crate::recv::{ReceiveState, Verdict};
use crate::transmit::{lemma_samples_roundtrip, name_field, sample_bytes, TransmitState};
use crate::vban::{
    decoded, lemma_audio_packet_decodes, lemma_header_of_prefix, lemma_header_of_wire,
    lemma_until_nul, rate_index_of, until_nul, DecodeError, VBanBitFormat, VBanPacket,
    VbanProtocol,
};

verus! {

/// A name of at most 14 bytes without a NUL is read back whole from the name
/// field made of it.
pub proof fn lemma_name_field_holds(name: Seq<u8>)
    requires
        name.len() <= 14,
        !name.contains(0u8),
    ensures
        until_nul(name_field(name)@) == name,
{
    let field = name_field(name)@;
    let n = name.len() as int;
    assert forall|j: int| 0 <= j < n implies field[j] != 0 by {
        assert(name.contains(name[j]));
    }
    lemma_until_nul(field, n);
    assert(field.take(n) =~= name);
}

/// What a transmit session sends, a receive session that listens to a
/// stream of the same name stores, and finds in it the sender's sequence
/// number, sample rate and samples, its frame count where that is 1 to 256,
/// and its channel count where that is not 0: as long as the name takes at
/// most 14 bytes in UTF-8 and holds no NUL, so that it fits the header
/// whole.
pub proof fn lemma_sent_is_stored(
    tx: TransmitState,
    rx: ReceiveState,
    sample_rate: i32,
    channels: u8,
    frames: u16,
    audio: Seq<i16>,
)
    requires
        rate_index_of(sample_rate) is Some,
        rx.target == tx.name,
        encode_utf8(tx.name).len() <= 14,
        !encode_utf8(tx.name).contains(0u8),
    ensures
        ({
            let packet = tx.packet(sample_rate, channels, frames, audio);
            &&& rx.verdict(packet) == Verdict::Stored
            &&& decoded(packet) matches Ok((header, payload))
            &&& header.frame_ordering == tx.seq
            &&& header.sample_rate() == Some(sample_rate)
            &&& 1 <= frames <= 256 ==> header.frame_count() == frames
            &&& 1 <= channels ==> header.channel_count() == channels
            &&& payload == sample_bytes(audio)
        }),
{
    let name = encode_utf8(tx.name);
    lemma_audio_packet_decodes(
        sample_rate,
        name_field(name),
        frames,
        channels as u16,
        sample_bytes(audio),
        VBanBitFormat::I16,
        tx.seq,
    );
    lemma_name_field_holds(name);
    encode_utf8_valid_utf8(tx.name);
    encode_utf8_decode_utf8(tx.name);
}

/// One thing that happens to a receive session.
pub enum SessionOp {
    /// A datagram arrives.
    Datagram(Seq<u8>),
    /// The loop takes a turn at playing.
    Turn,
}

impl ReceiveState {
    /// The state after one event, and what it gave to play, if anything.
    pub open spec fn step(self, op: SessionOp) -> (ReceiveState, Option<Plan>) {
        match op {
            SessionOp::Datagram(bytes) => (self.take(bytes), None),
            SessionOp::Turn => self.turn(),
        }
    }

    /// The state after a run of events, and what was given to play on the
    /// way, in order.
    pub open spec fn run(self, ops: Seq<SessionOp>) -> (ReceiveState, Seq<Plan>)
        decreases ops.len(),
    {
        if ops.len() == 0 {
            (self, Seq::empty())
        } else {
            let (before, played) = self.run(ops.drop_last());
            let (after, given) = before.step(ops.last());
            (
                after,
                match given {
                    Some(plan) => played.push(plan),
                    None => played,
                },
            )
        }
    }

    /// This state and `other` differ at most in the names of the streams
    /// seen.
    pub open spec fn plays_like(self, other: ReceiveState) -> bool {
        &&& self.target == other.target
        &&& self.jitter == other.jitter
        &&& self.output == other.output
    }
}

/// The event is a datagram that decodes and names a stream other than
/// `target`.
pub open spec fn foreign_to(target: Seq<char>) -> spec_fn(SessionOp) -> bool {
    |op: SessionOp|
        op matches SessionOp::Datagram(bytes) && decoded(bytes) matches Ok((header, _))
            && header.name_text() != target
}

/// The event is not a datagram of a stream other than `target`.
pub open spec fn own_to(target: Seq<char>) -> spec_fn(SessionOp) -> bool {
    |op: SessionOp| !foreign_to(target)(op)
}

/// A datagram of another stream is never stored and never played: it
/// changes neither the cache, nor the last played sequence number, nor the
/// output stream.
pub proof fn lemma_foreign_is_turned_away(s: ReceiveState, datagram: Seq<u8>)
    requires
        foreign_to(s.target)(SessionOp::Datagram(datagram)),
    ensures
        s.verdict(datagram) is Foreign,
        s.take(datagram).plays_like(s),
{
}

/// Datagrams of other streams leave no trace in what is played: over any run
/// of datagrams and turns, from any state, the same is given to play, turn
/// for turn, as in the run without them, and the session ends with the same
/// cache, the same last played sequence number and the same output stream.
pub proof fn lemma_foreign_never_played(s: ReceiveState, ops: Seq<SessionOp>)
    ensures
        s.run(ops).1 == s.run(ops.filter(own_to(s.target))).1,
        s.run(ops).0.plays_like(s.run(ops.filter(own_to(s.target))).0),
        s.run(ops).0.target == s.target,
    decreases ops.len(),
{
    let own = own_to(s.target);
    if ops.len() == 0 {
        assert(ops.filter(own) =~= ops) by {
            reveal(Seq::filter);
        }
    } else {
        let earlier = ops.drop_last();
        let op = ops.last();
        lemma_foreign_never_played(s, earlier);
        assert(earlier.push(op) =~= ops);
        earlier.lemma_filter_push(op, own);
        let (with, played) = s.run(earlier);
        let (without, _) = s.run(earlier.filter(own));
        if own(op) {
            let rest = earlier.filter(own).push(op);
            assert(rest.drop_last() =~= earlier.filter(own));
            assert(rest.last() == op);
            match op {
                SessionOp::Datagram(bytes) => {
                    assert(with.verdict(bytes) is Foreign <==> without.verdict(bytes) is Foreign);
                },
                SessionOp::Turn => {},
            }
        }
    }
}

/// A frame whose header names no sample rate of the table is read like any
/// other, but for its rate: its datagram decodes to the fault of the sample
/// rate and to no other, and pushing it opens no stream, plays nothing and
/// leaves the output stream as it was.
pub proof fn lemma_rate_past_table(h: VBanPacket, payload: Seq<u8>, out: OutputState)
    requires
        h.rate_index() >= 21,
    ensures
        h.sample_rate() is None,
        out.plan(h, payload) == Plan::Dropped,
        out.after(h) == out,
        h.has_magic() && h.protocol() == VbanProtocol::AUDIO && h.pcm() ==> decoded(
            h.wire() + payload,
        ) == Err::<(VBanPacket, Seq<u8>), _>(DecodeError::BadSampleRate),
{
    lemma_header_of_wire(h);
    lemma_header_of_prefix(h.wire(), payload);
}

/// A turn that selects a frame whose header names no sample rate still
/// makes that frame the last played, though nothing is played and no stream
/// is opened.
pub proof fn lemma_unplayable_frame_moves_on(s: ReceiveState)
    requires
        s.jitter.select().1 matches Some(frame) && frame.header.sample_rate() is None,
    ensures
        s.turn().1 == Some(Plan::Dropped),
        s.turn().0.output == s.output,
        s.turn().0.jitter == s.jitter.select().0,
        s.turn().0.jitter.last_played == s.jitter.select().1.unwrap().seq(),
{
    crate::jitter_laws::lemma_select_gives(s.jitter);
}

/// Pushing a frame that names a sample rate leaves a stream open at that
/// rate, and opens one exactly where none was open or the open one ran at
/// another rate.
pub proof fn lemma_stream_follows_rate(out: OutputState, h: VBanPacket)
    requires
        h.sample_rate() is Some,
    ensures
        out.after(h).stream matches Some(cur) && cur.sample_rate == h.sample_rate().unwrap(),
        out.opens(h) is Some <==> !(out.stream matches Some(cur) && cur.sample_rate
            == h.sample_rate().unwrap()),
        out.opens(h) is None ==> out.after(h).stream == out.stream,
{
}

/// A chunk that is sent whole is played whole: where a transmit session
/// sends 1 to 256 frames of one channel or more, with a sample for each
/// frame and channel, pushing the frame that the datagram decodes to plays
/// the same number of frames and the same samples, and does not count as
/// short.
pub proof fn lemma_sent_is_played_whole(
    tx: TransmitState,
    out: OutputState,
    sample_rate: i32,
    channels: u8,
    frames: u16,
    audio: Seq<i16>,
)
    requires
        rate_index_of(sample_rate) is Some,
        1 <= frames <= 256,
        1 <= channels,
        audio.len() == frames * channels,
    ensures
        ({
            let packet = tx.packet(sample_rate, channels, frames, audio);
            &&& decoded(packet) matches Ok((header, payload))
            &&& out.plan(header, payload) == (Plan::Play {
                open: out.opens(header),
                frames: frames as int,
                samples: audio,
                short: false,
            })
        }),
{
    lemma_audio_packet_decodes(
        sample_rate,
        name_field(encode_utf8(tx.name)),
        frames,
        channels as u16,
        sample_bytes(audio),
        VBanBitFormat::I16,
        tx.seq,
    );
    lemma_samples_roundtrip(audio);
    let per_frame = 2 * channels as int;
    assert(frames as int * channels as int * 2 == frames as int * per_frame) by (nonlinear_arith)
        requires
            per_frame == 2 * channels as int,
    ;
    assert((frames as int * per_frame) / per_frame == frames as int) by (nonlinear_arith)
        requires
            per_frame >= 2,
    ;
}

impl OutputState {
    /// The state after the frames with the given headers have been pushed
    /// one after the other, and for each push the settings of the stream
    /// that it opened, if it opened one.
    pub open spec fn feed(self, headers: Seq<VBanPacket>) -> (OutputState, Seq<Option<OpenStream>>)
        decreases headers.len(),
    {
        if headers.len() == 0 {
            (self, Seq::empty())
        } else {
            let (before, opened) = self.feed(headers.drop_last());
            (before.after(headers.last()), opened.push(before.opens(headers.last())))
        }
    }
}

/// Over a run of frames that each name a sample rate, a stream is opened
/// exactly where the rate changes: at a frame whose rate differs from that
/// of the frame before it, and at the first frame unless a stream was open
/// at its rate. After the run the open stream runs at the rate of the last
/// frame.
pub proof fn lemma_stream_opens_where_rate_changes(out: OutputState, headers: Seq<VBanPacket>)
    requires
        forall|i: int| 0 <= i < headers.len() ==> (#[trigger] headers[i]).sample_rate() is Some,
    ensures
        ({
            let (end, opened) = out.feed(headers);
            &&& opened.len() == headers.len()
            &&& forall|i: int|
                #![trigger opened[i]]
                0 < i < headers.len() ==> (opened[i] is Some <==> headers[i].sample_rate()
                    != headers[i - 1].sample_rate())
            &&& headers.len() > 0 ==> (opened[0] is Some <==> !(out.stream matches Some(cur)
                && Some(cur.sample_rate) == headers[0].sample_rate()))
            &&& headers.len() > 0 ==> (end.stream matches Some(cur) && Some(cur.sample_rate)
                == headers.last().sample_rate())
            &&& headers.len() == 0 ==> end == out
        }),
    decreases headers.len(),
{
    if headers.len() > 0 {
        let earlier = headers.drop_last();
        lemma_stream_opens_where_rate_changes(out, earlier);
        let (before, opened) = out.feed(earlier);
        lemma_stream_follows_rate(before, headers.last());
        if earlier.len() > 0 {
            assert(earlier.last() == headers[headers.len() - 2]);
        }
    }
}

} // verus!
