//! A transmit session: the stream name as it goes into headers, the
//! sequence counter, and the making of one packet from one chunk of
//! captured samples.
//!
//! The session owns no socket and no device. Its owner captures the samples
//! and sends what `do_send` returns.

use vstd::prelude::*;
use vstd::utf8::encode_utf8;
use crate::endian::{i16_from_le, i16_le_bytes, i16_to_le, lemma_i16_le_roundtrip};
use crate::output::samples_of;
use crate::vban::{audio_packet, rate_index_of, VBanBitFormat, VBanPacket};

verus! {

/// Number of bytes of the stream name that go into a header.
pub const MAX_NAME_BYTES: usize = 14;

/// Largest number of frames sent in one packet.
pub const MAX_FRAMES_PER_PACKET: usize = 256;

/// The byte of `name` at `i`, or NUL past its end.
pub open spec fn name_byte(name: Seq<u8>, i: int) -> u8 {
    if 0 <= i < name.len() {
        name[i]
    } else {
        0
    }
}

/// The name field of a header for a stream whose name has the bytes `name`:
/// the first 14 of them, then NUL up to 16.
pub open spec fn name_field(name: Seq<u8>) -> [u8; 16] {
    [
        name_byte(name, 0), name_byte(name, 1), name_byte(name, 2), name_byte(name, 3),
        name_byte(name, 4), name_byte(name, 5), name_byte(name, 6), name_byte(name, 7),
        name_byte(name, 8), name_byte(name, 9), name_byte(name, 10), name_byte(name, 11),
        name_byte(name, 12), name_byte(name, 13), 0, 0,
    ]
}

/// Samples as payload bytes: two for each, least significant first.
pub open spec fn sample_bytes(samples: Seq<i16>) -> Seq<u8> {
    Seq::new(2 * samples.len(), |k: int| i16_le_bytes(samples[k / 2])[k % 2])
}

/// The sequence number after `seq`; after the largest comes 0.
pub open spec fn next_seq(seq: u32) -> u32 {
    if seq == u32::MAX {
        0
    } else {
        (seq + 1) as u32
    }
}

/// What a transmit session holds: the name of its stream and the sequence
/// number of the next packet.
pub struct TransmitState {
    pub name: Seq<char>,
    pub seq: u32,
}

impl TransmitState {
    /// The packet that the session makes of a chunk of `frames` frames.
    pub open spec fn packet(self, sample_rate: i32, channels: u8, frames: u16, audio: Seq<i16>) -> Seq<
        u8,
    > {
        audio_packet(
            sample_rate,
            name_field(encode_utf8(self.name)),
            frames,
            channels as u16,
            sample_bytes(audio),
            VBanBitFormat::I16,
            self.seq,
        )
    }
}

/// A transmit session.
pub struct TransmitStream {
    stream_name: String,
    seq: u32,
}

impl View for TransmitStream {
    type V = TransmitState;

    closed spec fn view(&self) -> TransmitState {
        TransmitState { name: self.stream_name@, seq: self.seq }
    }
}

impl TransmitStream {
    /// A session for the stream `stream_name`, whose first packet gets the
    /// sequence number 1.
    pub fn new(stream_name: String) -> (ts: TransmitStream)
        ensures
            ts@ == (TransmitState { name: stream_name@, seq: 1 }),
    {
        TransmitStream { stream_name, seq: 1 }
    }

    /// The sequence number that the next packet gets.
    pub fn next_sequence(&self) -> (n: u32)
        ensures
            n == self@.seq,
    {
        self.seq
    }

    /// The name field for the headers of this stream: the first 14 bytes of
    /// the name in UTF-8, NUL after them.
    pub fn stream_name_bytes(&self) -> (field: [u8; 16])
        ensures
            field == name_field(encode_utf8(self@.name)),
    {
        let name = self.stream_name.as_str().as_bytes();
        [
            byte_at(name, 0), byte_at(name, 1), byte_at(name, 2), byte_at(name, 3),
            byte_at(name, 4), byte_at(name, 5), byte_at(name, 6), byte_at(name, 7),
            byte_at(name, 8), byte_at(name, 9), byte_at(name, 10), byte_at(name, 11),
            byte_at(name, 12), byte_at(name, 13), 0, 0,
        ]
    }

    /// Number of frames to capture for the next packet when `available` are
    /// waiting: all of them, up to 256.
    pub fn frames_to_write(available: usize) -> (frames: u16)
        ensures
            frames == if available < 256 {
                available as int
            } else {
                256
            },
    {
        if available < MAX_FRAMES_PER_PACKET {
            available as u16
        } else {
            MAX_FRAMES_PER_PACKET as u16
        }
    }

    /// Makes the next packet from a chunk of captured samples and moves the
    /// sequence counter on.
    ///
    /// The packet carries the samples as signed 16-bit, the session's stream
    /// name and sequence number, and `frames` and `channels` as its frame
    /// count and channel count; the header stores each less one in a byte, so
    /// that 1 to 256 frames read back as they went in. The sample rate has to
    /// be one of the table.
    pub fn do_send(&mut self, sample_rate: i32, channels: u8, frames: u16, audio_data: &[i16]) -> (packet:
        Vec<u8>)
        requires
            rate_index_of(sample_rate) is Some,
        ensures
            packet@ == old(self)@.packet(sample_rate, channels, frames, audio_data@),
            final(self)@ == (TransmitState { seq: next_seq(old(self)@.seq), ..old(self)@ }),
    {
        let datau8 = samples_to_bytes(audio_data);
        let packet = VBanPacket::make_audio_packet(
            sample_rate,
            self.stream_name_bytes(),
            frames,
            channels as u16,
            datau8.as_slice(),
            VBanBitFormat::I16,
            self.seq,
        );
        self.seq = if self.seq == u32::MAX {
            0
        } else {
            self.seq + 1
        };
        packet
    }
}

fn byte_at(bytes: &[u8], i: usize) -> (b: u8)
    ensures
        b == name_byte(bytes@, i as int),
{
    if i < bytes.len() {
        bytes[i]
    } else {
        0
    }
}

/// Samples as payload bytes: two for each, least significant first.
pub fn samples_to_bytes(samples: &[i16]) -> (bytes: Vec<u8>)
    ensures
        bytes@ == sample_bytes(samples@),
{
    let mut bytes: Vec<u8> = Vec::new();
    let mut i: usize = 0;
    while i < samples.len()
        invariant
            i <= samples@.len(),
            bytes@ == sample_bytes(samples@.take(i as int)),
        decreases samples@.len() - i,
    {
        let pair = i16_to_le(samples[i]);
        bytes.push(pair[0]);
        bytes.push(pair[1]);
        i += 1;
    }
    bytes
}

/// The samples read from the bytes written for a chunk are the chunk.
pub proof fn lemma_samples_roundtrip(samples: Seq<i16>)
    ensures
        sample_bytes(samples).len() == 2 * samples.len(),
        samples_of(sample_bytes(samples), samples.len() as int) == samples,
{
    let bytes = sample_bytes(samples);
    assert forall|i: int| 0 <= i < samples.len() implies i16_from_le(
        bytes.subrange(2 * i, 2 * i + 2),
    ) == samples[i] by {
        lemma_i16_le_roundtrip(samples[i]);
    }
}

} // verus!
