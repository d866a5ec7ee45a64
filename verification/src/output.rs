//! The output stream: which stream is open on the device, when it has to be
//! opened anew, and what is written to it for a frame.
//!
//! Nothing here touches a device. `push` says what has to be done; whoever
//! owns the device does it.

use vstd::prelude::*;
use crate::endian::{i16_from_le, read_i16_le};
use crate::vban::{rate_index_of, VBanPacket, VBAN_SRLIST};
use vstd::slice::slice_subrange;

verus! {

/// Bytes in one sample of the format that is played, signed 16-bit.
pub const SAMPLE_WIDTH: usize = 2;

/// The settings of a stream that is open on the device.
#[derive(Debug, Clone, Copy, PartialEq, Eq, Structural)]
pub struct OpenStream {
    pub sample_rate: i32,
    pub channels: u16,
}

/// What is to be done with the device for one frame.
#[derive(Debug, PartialEq, Eq)]
pub enum Playback {
    /// Nothing: the frame names no sample rate, and its audio is dropped.
    Dropped,
    /// `samples` are written, `frames` frames of them. Where `open` holds
    /// settings, a stream with these settings is opened first and takes the
    /// place of the one before. `short` says that the payload held fewer
    /// bytes than the header announced.
    Play { open: Option<OpenStream>, frames: u16, samples: Vec<i16>, short: bool },
}

/// `Playback` with its samples as a sequence.
pub enum Plan {
    Dropped,
    Play { open: Option<OpenStream>, frames: int, samples: Seq<i16>, short: bool },
}

impl View for Playback {
    type V = Plan;

    open spec fn view(&self) -> Plan {
        match *self {
            Playback::Dropped => Plan::Dropped,
            Playback::Play { open, frames, samples, short } => Plan::Play {
                open,
                frames: frames as int,
                samples: samples@,
                short,
            },
        }
    }
}

/// What an output stream remembers: the stream that is open, if any, and the
/// number of frames of the packet pushed last.
pub struct OutputState {
    pub stream: Option<OpenStream>,
    pub last_frames: int,
}

/// Number of payload bytes that the header announces.
pub open spec fn expected_bytes(h: VBanPacket) -> int {
    h.frame_count() * h.channel_count() * 2
}

/// Number of whole frames that can be played from a payload of `len` bytes:
/// as many as lie within the announced bytes and within the payload.
pub open spec fn playable_frames(h: VBanPacket, len: int) -> int {
    let usable = if len < expected_bytes(h) {
        len
    } else {
        expected_bytes(h)
    };
    usable / (2 * h.channel_count())
}

/// The first `count` samples of `bytes`, two bytes each, least significant
/// first.
pub open spec fn samples_of(bytes: Seq<u8>, count: int) -> Seq<i16> {
    Seq::new(count as nat, |i: int| i16_from_le(bytes.subrange(2 * i, 2 * i + 2)))
}

impl OutputState {
    /// The state in which no stream is open.
    pub open spec fn closed() -> OutputState {
        OutputState { stream: None, last_frames: 0 }
    }

    /// The settings with which a stream is opened for a frame with header
    /// `h`: those of the frame, where no stream is open or the open one runs
    /// at another sample rate; none where the frame names no sample rate or
    /// the rate is that of the open stream. The channel count of the open
    /// stream is not looked at.
    pub open spec fn opens(self, h: VBanPacket) -> Option<OpenStream> {
        match h.sample_rate() {
            None => None,
            Some(rate) => {
                if self.stream matches Some(cur) && cur.sample_rate == rate {
                    None
                } else {
                    Some(OpenStream { sample_rate: rate, channels: h.channel_count() as u16 })
                }
            },
        }
    }

    /// What is done with the device for a frame.
    pub open spec fn plan(self, h: VBanPacket, payload: Seq<u8>) -> Plan {
        if h.sample_rate() is None {
            Plan::Dropped
        } else {
            let frames = playable_frames(h, payload.len() as int);
            Plan::Play {
                open: self.opens(h),
                frames,
                samples: samples_of(payload, frames * h.channel_count()),
                short: payload.len() < expected_bytes(h),
            }
        }
    }

    /// The state after a frame has been pushed.
    pub open spec fn after(self, h: VBanPacket) -> OutputState {
        if h.sample_rate() is None {
            self
        } else {
            OutputState {
                stream: match self.opens(h) {
                    Some(opened) => Some(opened),
                    None => self.stream,
                },
                last_frames: h.frame_count(),
            }
        }
    }

    /// Nanoseconds to rest when no datagram is waiting: half the time that
    /// the packet pushed last takes to play, rounded down; nothing while no
    /// stream is open.
    pub open spec fn idle_nanos(self) -> Option<int> {
        match self.stream {
            None => None,
            Some(cur) => Some(self.last_frames * 1_000_000_000 / (2 * cur.sample_rate)),
        }
    }
}

/// The output stream of a session.
pub struct OutputStream {
    stream: Option<OpenStream>,
    last_frames_pushed: u16,
}

impl View for OutputStream {
    type V = OutputState;

    closed spec fn view(&self) -> OutputState {
        OutputState { stream: self.stream, last_frames: self.last_frames_pushed as int }
    }
}

impl OutputStream {
    #[verifier::type_invariant]
    spec fn inv(self) -> bool {
        &&& self.last_frames_pushed <= 256
        &&& self.stream matches Some(cur) ==> rate_index_of(cur.sample_rate) is Some
    }

    /// An output stream with no stream open.
    pub fn new() -> (out: OutputStream)
        ensures
            out@ == OutputState::closed(),
    {
        OutputStream { stream: None, last_frames_pushed: 0 }
    }

    /// The settings of the open stream, if one is open.
    pub fn current(&self) -> (cur: Option<OpenStream>)
        ensures
            cur == self@.stream,
    {
        self.stream
    }

    /// Takes a frame for playing and says what to do with the device.
    ///
    /// A frame whose header names no sample rate is dropped, and nothing
    /// changes. Otherwise a stream is opened for the frame's rate and channel
    /// count where none is open or the open one runs at another rate; a
    /// change of the channel count alone opens nothing. Of the payload, the
    /// whole frames that lie within the bytes announced by the header are
    /// turned into samples; a payload shorter than announced is flagged.
    pub fn push(&mut self, header: &VBanPacket, payload: &[u8]) -> (r: Playback)
        ensures
            r@ == old(self)@.plan(*header, payload@),
            final(self)@ == old(self)@.after(*header),
    {
        proof {
            use_type_invariant(&*self);
        }
        let rate = match header.get_sr() {
            Ok(rate) => rate,
            Err(_) => {
                return Playback::Dropped;
            },
        };
        let channels = header.get_channels();
        let frames = header.get_frame_count();
        let reopen = match self.stream {
            Some(cur) => cur.sample_rate != rate,
            None => true,
        };
        let open = if reopen {
            Some(OpenStream { sample_rate: rate, channels })
        } else {
            None
        };
        let per_frame: usize = channels as usize * SAMPLE_WIDTH;
        assert(frames as int * channels as int * 2 <= 131072) by (nonlinear_arith)
            requires
                1 <= frames <= 256,
                1 <= channels <= 256,
        ;
        assert(frames as int * channels as int * 2 == frames as int * (channels as int * 2))
            by (nonlinear_arith);
        let max_bytes: usize = frames as usize * per_frame;
        let short = payload.len() < max_bytes;
        let usable: usize = if short {
            payload.len()
        } else {
            max_bytes
        };
        let whole: usize = usable / per_frame;
        assert(whole <= frames && whole * per_frame <= usable) by (nonlinear_arith)
            requires
                whole == usable as int / per_frame as int,
                usable <= frames * per_frame,
                per_frame > 0,
        ;
        assert(whole * channels <= 65536 && 2 * (whole * channels) == whole * per_frame)
            by (nonlinear_arith)
            requires
                per_frame == channels * 2,
                whole <= 256,
                channels <= 256,
        ;
        let count: usize = whole * channels as usize;
        let samples = samples_from_bytes(payload, count);
        proof {
            VBAN_SRLIST@.index_of_first_ensures(rate);
        }
        if reopen {
            self.stream = open;
        }
        self.last_frames_pushed = frames;
        Playback::Play { open, frames: whole as u16, samples, short }
    }

    /// Nanoseconds to rest when no datagram is waiting, if any.
    pub fn idle_wait_nanos(&self) -> (r: Option<u64>)
        ensures
            match r {
                Some(nanos) => self@.idle_nanos() == Some(nanos as int),
                None => self@.idle_nanos() is None,
            },
    {
        proof {
            use_type_invariant(self);
        }
        match self.stream {
            None => None,
            Some(cur) => {
                proof {
                    lemma_table_rate_positive(cur.sample_rate);
                }
                Some(self.last_frames_pushed as u64 * 1_000_000_000 / (2 * cur.sample_rate as u64))
            },
        }
    }
}

/// Every sample rate of the table is at least 6000.
pub proof fn lemma_table_rate_positive(rate: i32)
    requires
        rate_index_of(rate) is Some,
    ensures
        rate >= 6000,
{
    VBAN_SRLIST@.index_of_first_ensures(rate);
}

/// The first `count` samples of a payload.
pub fn samples_from_bytes(data: &[u8], count: usize) -> (samples: Vec<i16>)
    requires
        2 * count <= data@.len(),
    ensures
        samples@ == samples_of(data@, count as int),
{
    let len = data.len();
    let mut samples: Vec<i16> = Vec::with_capacity(count);
    let mut i: usize = 0;
    while i < count
        invariant
            i <= count,
            2 * count <= data@.len() == len,
            samples@ == samples_of(data@, i as int),
        decreases count - i,
    {
        let sample = read_i16_le(slice_subrange(data, 2 * i, 2 * i + 2));
        samples.push(sample);
        i += 1;
    }
    samples
}

} // verus!
