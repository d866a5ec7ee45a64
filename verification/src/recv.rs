//! A receive session: what a receiver holds between datagrams, and what it
//! does with each datagram and on each turn of its loop.
//!
//! The session owns no socket and no device. Its owner hands it each
//! datagram that arrives, asks it on every turn what to play, and does what
//! the answer says.

use vstd::prelude::*;
use crate::jitter::{Frame, JitterBuffer, JitterState, PendingFrame};
use crate::output::{OpenStream, OutputState, OutputStream, Plan, Playback};
use crate::vban::{decoded, DecodeError, VBanBitFormat, VBanPacket};
use vstd::slice::slice_to_vec;

verus! {

/// What became of a datagram.
#[derive(Debug, PartialEq, Eq)]
pub enum Intake {
    /// It is not an audio packet that can be played, for the reason given.
    Invalid(DecodeError),
    /// It belongs to the stream `name`, which is not the one listened to.
    /// `first` says that no datagram of that stream had been seen before.
    Foreign { name: String, first: bool },
    /// Its samples are in the format given, which is not signed 16-bit.
    Unsupported(VBanBitFormat),
    /// It was stored in the cache.
    Stored,
}

/// `Intake` with the stream name as a sequence.
pub enum Verdict {
    Invalid(DecodeError),
    Foreign { name: Seq<char>, first: bool },
    Unsupported(VBanBitFormat),
    Stored,
}

impl View for Intake {
    type V = Verdict;

    open spec fn view(&self) -> Verdict {
        match *self {
            Intake::Invalid(e) => Verdict::Invalid(e),
            Intake::Foreign { name, first } => Verdict::Foreign { name: name@, first },
            Intake::Unsupported(format) => Verdict::Unsupported(format),
            Intake::Stored => Verdict::Stored,
        }
    }
}

/// What a session holds: the name of the stream it listens to, its jitter
/// buffer, the names of other streams it has seen, and its output stream.
pub struct ReceiveState {
    pub target: Seq<char>,
    pub jitter: JitterState,
    pub seen: Set<Seq<char>>,
    pub output: OutputState,
}

impl ReceiveState {
    /// What becomes of a datagram: it is turned away where it does not
    /// decode; else where it names another stream; else where its samples
    /// are not signed 16-bit; and stored otherwise.
    pub open spec fn verdict(self, datagram: Seq<u8>) -> Verdict {
        match decoded(datagram) {
            Err(e) => Verdict::Invalid(e),
            Ok((header, payload)) => {
                if header.name_text() != self.target {
                    Verdict::Foreign {
                        name: header.name_text(),
                        first: !self.seen.contains(header.name_text()),
                    }
                } else if header.bit_format() != VBanBitFormat::I16 {
                    Verdict::Unsupported(header.bit_format())
                } else {
                    Verdict::Stored
                }
            },
        }
    }

    /// The state in which a datagram leaves this state: with its frame at
    /// the end of the cache where it is stored, with its stream's name among
    /// those seen where it belongs to another stream, and unchanged
    /// otherwise.
    pub open spec fn take(self, datagram: Seq<u8>) -> ReceiveState {
        match self.verdict(datagram) {
            Verdict::Invalid(_) => self,
            Verdict::Unsupported(_) => self,
            Verdict::Foreign { name, first } => ReceiveState { seen: self.seen.insert(name), ..self },
            Verdict::Stored => ReceiveState {
                jitter: self.jitter.enqueue(
                    Frame {
                        header: decoded(datagram).unwrap().0,
                        payload: decoded(datagram).unwrap().1,
                    },
                ),
                ..self
            },
        }
    }

    /// The state after one turn of the loop, and what the turn gives to
    /// play: the next frame is selected and, where there is one, pushed.
    pub open spec fn turn(self) -> (ReceiveState, Option<Plan>) {
        let (jitter, given) = self.jitter.select();
        match given {
            None => (self, None),
            Some(frame) => (
                ReceiveState { jitter, output: self.output.after(frame.header), ..self },
                Some(self.output.plan(frame.header, frame.payload)),
            ),
        }
    }
}

/// A receive session.
pub struct ReceiveStream {
    stream_name: String,
    jitter: JitterBuffer,
    seen_stream_names: SeenNames,
    output: OutputStream,
}

impl View for ReceiveStream {
    type V = ReceiveState;

    closed spec fn view(&self) -> ReceiveState {
        ReceiveState {
            target: self.stream_name@,
            jitter: self.jitter@,
            seen: self.seen_stream_names@,
            output: self.output@,
        }
    }
}

/// The names that occur in a list.
pub open spec fn names_in(names: Seq<String>) -> Set<Seq<char>> {
    Set::new(|name: Seq<char>| exists|i: int| 0 <= i < names.len() && (#[trigger] names[i])@ == name)
}

/// A set of stream names, kept as a list in which no name stands twice.
pub struct SeenNames {
    names: Vec<String>,
}

impl View for SeenNames {
    type V = Set<Seq<char>>;

    closed spec fn view(&self) -> Set<Seq<char>> {
        names_in(self.names@)
    }
}

impl SeenNames {
    #[verifier::type_invariant]
    spec fn inv(self) -> bool {
        forall|i: int, j: int|
            0 <= i < j < self.names@.len() ==> (#[trigger] self.names@[i])@ != (
            #[trigger] self.names@[j])@
    }

    /// The empty set.
    pub fn new() -> (seen: SeenNames)
        ensures
            seen@ == Set::<Seq<char>>::empty(),
    {
        let seen = SeenNames { names: Vec::new() };
        assert(names_in(seen.names@) =~= Set::empty());
        seen
    }

    /// Whether `name` is in the set.
    pub fn contains(&self, name: &String) -> (found: bool)
        ensures
            found == self@.contains(name@),
    {
        let mut i: usize = 0;
        while i < self.names.len()
            invariant
                i <= self.names@.len(),
                forall|j: int| 0 <= j < i ==> self.names@[j]@ != name@,
            decreases self.names@.len() - i,
        {
            if self.names[i] == *name {
                return true;
            }
            i += 1;
        }
        false
    }

    /// Puts `name` into the set, and says whether it was new.
    pub fn insert(&mut self, name: String) -> (fresh: bool)
        ensures
            fresh == !old(self)@.contains(name@),
            final(self)@ == old(self)@.insert(name@),
    {
        proof {
            use_type_invariant(&*self);
        }
        let ghost before = self.names@;
        let fresh = !self.contains(&name);
        if fresh {
            let mut names: Vec<String> = Vec::new();
            std::mem::swap(&mut names, &mut self.names);
            names.push(name);
            std::mem::swap(&mut names, &mut self.names);
        }
        proof {
            let now = self.names@;
            assert forall|n: Seq<char>| names_in(now).contains(n) <==> names_in(before).insert(
                name@,
            ).contains(n) by {
                if names_in(now).contains(n) {
                    let i = choose|i: int| 0 <= i < now.len() && (#[trigger] now[i])@ == n;
                    if i < before.len() {
                        assert(before[i]@ == n);
                    }
                }
                if names_in(before).contains(n) {
                    let i = choose|i: int| 0 <= i < before.len() && (#[trigger] before[i])@ == n;
                    assert(now[i]@ == n);
                }
                if n == name@ && fresh {
                    assert(now[before.len() as int]@ == n);
                }
            }
            assert(names_in(now) =~= names_in(before).insert(name@));
        }
        fresh
    }
}

impl ReceiveStream {
    /// A session that listens to the stream `stream_name`: nothing cached,
    /// nothing played, no other stream seen, no stream open.
    pub fn new(stream_name: String) -> (rs: ReceiveStream)
        ensures
            rs@ == (ReceiveState {
                target: stream_name@,
                jitter: JitterState::fresh(),
                seen: Set::empty(),
                output: OutputState::closed(),
            }),
    {
        ReceiveStream {
            stream_name,
            jitter: JitterBuffer::new(),
            seen_stream_names: SeenNames::new(),
            output: OutputStream::new(),
        }
    }

    /// The sequence number of the frame played last; 0 while none has been.
    pub fn last_played_seq(&self) -> (n: u32)
        ensures
            n == self@.jitter.last_played,
    {
        self.jitter.last_played_seq()
    }

    /// Number of frames in the cache.
    pub fn pending(&self) -> (n: usize)
        ensures
            n == self@.jitter.cache.len(),
    {
        self.jitter.len()
    }

    /// The settings of the open stream, if one is open.
    pub fn open_stream(&self) -> (cur: Option<OpenStream>)
        ensures
            cur == self@.output.stream,
    {
        self.output.current()
    }

    /// Takes a datagram off the network.
    ///
    /// A datagram that does not decode is turned away. So is one that names
    /// a stream other than the one listened to: it leaves the cache and the
    /// output stream as they were, and only its stream's name is remembered,
    /// so that the caller can tell the first such datagram from the later
    /// ones. So is one whose samples are not signed 16-bit. Any other is
    /// stored in the cache.
    pub fn get_network_data(&mut self, datagram: &[u8]) -> (r: Intake)
        ensures
            r@ == old(self)@.verdict(datagram@),
            final(self)@ == old(self)@.take(datagram@),
    {
        let (header, payload) = match VBanPacket::decode(datagram) {
            Ok(parts) => parts,
            Err(e) => {
                return Intake::Invalid(e);
            },
        };
        let packet_stream_name = header.get_stream_name();
        if !(self.stream_name == packet_stream_name) {
            let first = self.seen_stream_names.insert(packet_stream_name.clone());
            return Intake::Foreign { name: packet_stream_name, first };
        }
        let format = header.get_bit_format();
        if format != VBanBitFormat::I16 {
            return Intake::Unsupported(format);
        }
        self.jitter.enqueue(header, slice_to_vec(payload));
        Intake::Stored
    }

    /// Stores a frame in the cache, whatever its stream name, format and
    /// sequence number.
    pub fn enqueue(&mut self, header: VBanPacket, payload: Vec<u8>)
        ensures
            final(self)@ == (ReceiveState {
                jitter: old(self)@.jitter.enqueue(Frame { header, payload: payload@ }),
                ..old(self)@
            }),
    {
        self.jitter.enqueue(header, payload);
    }

    /// Takes the next frame to play out of the cache, if there is one, by
    /// the rule of the jitter buffer.
    pub fn select(&mut self) -> (r: Option<PendingFrame>)
        ensures
            final(self)@ == (ReceiveState { jitter: old(self)@.jitter.select().0, ..old(self)@ }),
            match r {
                Some(frame) => old(self)@.jitter.select().1 == Some(frame@),
                None => old(self)@.jitter.select().1 is None,
            },
    {
        self.jitter.select()
    }

    /// Hands a frame to the output stream and says what to do with the
    /// device.
    pub fn push(&mut self, frame: &PendingFrame) -> (r: Playback)
        ensures
            r@ == old(self)@.output.plan(frame.header, frame.payload@),
            final(self)@ == (ReceiveState {
                output: old(self)@.output.after(frame.header),
                ..old(self)@
            }),
    {
        self.output.push(&frame.header, frame.payload.as_slice())
    }

    /// One turn of the receive loop after the network has been looked at:
    /// selects the next frame and, where there is one, pushes it. `None`
    /// says that no frame can be played yet; then nothing has changed.
    pub fn do_receive(&mut self) -> (r: Option<Playback>)
        ensures
            final(self)@ == old(self)@.turn().0,
            match r {
                Some(playback) => old(self)@.turn().1 == Some(playback@),
                None => old(self)@.turn().1 is None,
            },
    {
        match self.jitter.select() {
            None => None,
            Some(frame) => Some(self.output.push(&frame.header, frame.payload.as_slice())),
        }
    }

    /// Nanoseconds to rest when no datagram is waiting: half the playing
    /// time of the packet pushed last; `None` while no stream is open, when
    /// the loop polls without rest.
    pub fn idle_wait_nanos(&self) -> (r: Option<u64>)
        ensures
            match r {
                Some(nanos) => self@.output.idle_nanos() == Some(nanos as int),
                None => self@.output.idle_nanos() is None,
            },
    {
        self.output.idle_wait_nanos()
    }
}

} // verus!
