//! The VBAN packet header: its fields, its 28-byte wire image, and the
//! values derived from it.

use crate::endian::{
    lemma_u32_le_bytes_of_from_le, lemma_u32_le_roundtrip, read_u32_le, u32_from_le, u32_le_bytes,
    write_u32_le,
};
use crate::text::{string_from_utf8_lossy, text_of};
use vstd::prelude::*;
use vstd::slice::slice_subrange;
use vstd::std_specs::convert::FromSpecImpl;

verus! {

/// Sub-protocol carried by a packet, selected by the top three bits of the
/// fifth header byte.
#[derive(Debug, Clone, Copy, PartialEq, Eq, Structural)]
pub enum VbanProtocol {
    AUDIO,
    SERIAL,
    TXT,
    SERVICE,
    UNDEF1,
    UNDEF2,
    UNDEF3,
    USER,
}

/// The protocol that the top three bits of `val` select; the low five bits
/// play no part.
pub open spec fn protocol_of(val: u8) -> VbanProtocol {
    let kind = val / 32;
    if kind == 0 {
        VbanProtocol::AUDIO
    } else if kind == 1 {
        VbanProtocol::SERIAL
    } else if kind == 2 {
        VbanProtocol::TXT
    } else if kind == 3 {
        VbanProtocol::SERVICE
    } else if kind == 4 {
        VbanProtocol::UNDEF1
    } else if kind == 5 {
        VbanProtocol::UNDEF2
    } else if kind == 6 {
        VbanProtocol::UNDEF3
    } else {
        VbanProtocol::USER
    }
}

/// The byte that stands for a protocol on the wire, low five bits clear.
pub open spec fn protocol_code(p: VbanProtocol) -> u8 {
    match p {
        VbanProtocol::AUDIO => 0x00,
        VbanProtocol::SERIAL => 0x20,
        VbanProtocol::TXT => 0x40,
        VbanProtocol::SERVICE => 0x60,
        VbanProtocol::UNDEF1 => 0x80,
        VbanProtocol::UNDEF2 => 0xA0,
        VbanProtocol::UNDEF3 => 0xC0,
        VbanProtocol::USER => 0xE0,
    }
}

impl From<u8> for VbanProtocol {
    fn from(val: u8) -> (p: Self) {
        let kind: u8 = val / 32;
        match kind {
            0 => VbanProtocol::AUDIO,
            1 => VbanProtocol::SERIAL,
            2 => VbanProtocol::TXT,
            3 => VbanProtocol::SERVICE,
            4 => VbanProtocol::UNDEF1,
            5 => VbanProtocol::UNDEF2,
            6 => VbanProtocol::UNDEF3,
            _ => VbanProtocol::USER,
        }
    }
}

impl FromSpecImpl<u8> for VbanProtocol {
    open spec fn obeys_from_spec() -> bool {
        true
    }

    open spec fn from_spec(val: u8) -> Self {
        protocol_of(val)
    }
}

impl From<VbanProtocol> for u8 {
    fn from(val: VbanProtocol) -> (code: Self) {
        match val {
            VbanProtocol::AUDIO => 0x00,
            VbanProtocol::SERIAL => 0x20,
            VbanProtocol::TXT => 0x40,
            VbanProtocol::SERVICE => 0x60,
            VbanProtocol::UNDEF1 => 0x80,
            VbanProtocol::UNDEF2 => 0xA0,
            VbanProtocol::UNDEF3 => 0xC0,
            VbanProtocol::USER => 0xE0,
        }
    }
}

impl FromSpecImpl<VbanProtocol> for u8 {
    open spec fn obeys_from_spec() -> bool {
        true
    }

    open spec fn from_spec(val: VbanProtocol) -> Self {
        protocol_code(val)
    }
}

/// Converting a protocol to its byte and back gives the protocol again.
pub proof fn lemma_protocol_code_roundtrip(p: VbanProtocol)
    ensures
        protocol_of(protocol_code(p)) == p,
        protocol_code(p) % 32 == 0,
{
}

/// Sample format of the payload, selected by the low three bits of the
/// sixth header byte.
#[derive(Debug, Clone, Copy, PartialEq, Eq, Structural)]
pub enum VBanBitFormat {
    U8,
    I16,
    I24,
    I32,
    F32,
    F64,
    I12,
    I10,
}

/// The sample format that the low three bits of `bits` select; the high five
/// bits play no part.
pub open spec fn format_of(bits: u8) -> VBanBitFormat {
    let code = bits % 8;
    if code == 0 {
        VBanBitFormat::U8
    } else if code == 1 {
        VBanBitFormat::I16
    } else if code == 2 {
        VBanBitFormat::I24
    } else if code == 3 {
        VBanBitFormat::I32
    } else if code == 4 {
        VBanBitFormat::F32
    } else if code == 5 {
        VBanBitFormat::F64
    } else if code == 6 {
        VBanBitFormat::I12
    } else {
        VBanBitFormat::I10
    }
}

/// The number that stands for a sample format on the wire.
pub open spec fn format_code(f: VBanBitFormat) -> u8 {
    match f {
        VBanBitFormat::U8 => 0,
        VBanBitFormat::I16 => 1,
        VBanBitFormat::I24 => 2,
        VBanBitFormat::I32 => 3,
        VBanBitFormat::F32 => 4,
        VBanBitFormat::F64 => 5,
        VBanBitFormat::I12 => 6,
        VBanBitFormat::I10 => 7,
    }
}

impl From<u8> for VBanBitFormat {
    fn from(bits: u8) -> (f: Self) {
        let code: u8 = bits % 8;
        match code {
            0 => VBanBitFormat::U8,
            1 => VBanBitFormat::I16,
            2 => VBanBitFormat::I24,
            3 => VBanBitFormat::I32,
            4 => VBanBitFormat::F32,
            5 => VBanBitFormat::F64,
            6 => VBanBitFormat::I12,
            _ => VBanBitFormat::I10,
        }
    }
}

impl FromSpecImpl<u8> for VBanBitFormat {
    open spec fn obeys_from_spec() -> bool {
        true
    }

    open spec fn from_spec(bits: u8) -> Self {
        format_of(bits)
    }
}

impl From<VBanBitFormat> for u8 {
    fn from(it: VBanBitFormat) -> (code: u8) {
        match it {
            VBanBitFormat::U8 => 0,
            VBanBitFormat::I16 => 1,
            VBanBitFormat::I24 => 2,
            VBanBitFormat::I32 => 3,
            VBanBitFormat::F32 => 4,
            VBanBitFormat::F64 => 5,
            VBanBitFormat::I12 => 6,
            VBanBitFormat::I10 => 7,
        }
    }
}

impl FromSpecImpl<VBanBitFormat> for u8 {
    open spec fn obeys_from_spec() -> bool {
        true
    }

    open spec fn from_spec(it: VBanBitFormat) -> Self {
        format_code(it)
    }
}

/// Converting a sample format to its number and back gives the format again,
/// and the number leaves the five high bits clear.
pub proof fn lemma_format_code_roundtrip(f: VBanBitFormat)
    ensures
        format_of(format_code(f)) == f,
        format_code(f) / 8 == 0,
{
}

/// Number of bytes in a header on the wire.
pub const HEADER_SIZE: usize = 28;

/// Largest UDP payload that fits an Ethernet frame of 1500 bytes.
pub const VBAN_MAX_PACKET_SIZE: usize = 1472;

/// The four ASCII letters `VBAN` that open every packet.
pub const VBAN_MAGIC: [u8; 4] = [0x56, 0x42, 0x41, 0x4E];

/// The sample rates that a header can name, in the order of their index on
/// the wire. The order is part of the protocol; it is not ascending.
pub const VBAN_SRLIST: [i32; 21] = [
    6000, 12000, 24000, 48000, 96000, 192000, 384000,
    8000, 16000, 32000, 64000, 128000, 256000, 512000,
    11025, 22050, 44100, 88200, 176400, 352800, 705600,
];

/// The place of `rate` in the table of sample rates, if it has one.
pub open spec fn rate_index_of(rate: i32) -> Option<int> {
    VBAN_SRLIST@.index_of_first(rate)
}

/// The bytes of `s` that come before its first NUL; all of `s` where it
/// holds none.
pub open spec fn until_nul(s: Seq<u8>) -> Seq<u8> {
    match s.index_of_first(0u8) {
        Some(i) => s.take(i),
        None => s,
    }
}

/// A packet header. On the wire it takes 28 bytes: the magic, the byte of
/// protocol and sample rate, the byte of codec and sample format, the frame
/// count less one, the channel count less one, the stream name, and the
/// sequence counter. Every combination of field values is a header; whether
/// it is one this library plays is a question for `decode`.
#[derive(Debug, Copy, Clone, PartialEq, Eq)]
pub struct VBanPacket {
    pub four_c: [u8; 4],
    pub sub_protocol: u8,
    pub smp_count: u8,
    pub channels: u8,
    pub data_format: u8,
    pub stream_name: [u8; 16],
    pub frame_ordering: u32,
}

impl VBanPacket {
    /// Whether the header opens with the four letters `VBAN`.
    pub open spec fn has_magic(self) -> bool {
        self.four_c@ == VBAN_MAGIC@
    }

    /// The protocol named by the top three bits of the fifth byte.
    pub open spec fn protocol(self) -> VbanProtocol {
        protocol_of(self.sub_protocol)
    }

    /// The index into the table of sample rates: the low five bits of the
    /// fifth byte.
    pub open spec fn rate_index(self) -> int {
        self.sub_protocol as int % 32
    }

    /// The sample rate, where the index lies in the table.
    pub open spec fn sample_rate(self) -> Option<i32> {
        if self.rate_index() < 21 {
            Some(VBAN_SRLIST@[self.rate_index()])
        } else {
            None
        }
    }

    /// The sample format named by the low three bits of the sixth byte.
    pub open spec fn bit_format(self) -> VBanBitFormat {
        format_of(self.data_format)
    }

    /// Whether the codec bits, the high five of the sixth byte, say PCM.
    pub open spec fn pcm(self) -> bool {
        self.data_format / 8 == 0
    }

    /// Number of channels, 1 to 256.
    pub open spec fn channel_count(self) -> int {
        self.channels + 1
    }

    /// Number of frames in the packet, 1 to 256.
    pub open spec fn frame_count(self) -> int {
        self.smp_count + 1
    }

    /// The stream name as bytes: the name field up to its first NUL, or all
    /// of it where it holds none.
    pub open spec fn name_bytes(self) -> Seq<u8> {
        until_nul(self.stream_name@)
    }

    /// The stream name as text, decoded leniently.
    pub open spec fn name_text(self) -> Seq<char> {
        text_of(self.name_bytes())
    }

    /// The 28 bytes of the header on the wire.
    pub open spec fn wire(self) -> Seq<u8> {
        self.four_c@ + seq![self.sub_protocol, self.data_format, self.smp_count, self.channels]
            + self.stream_name@ + u32_le_bytes(self.frame_ordering)
    }
}

/// Why a datagram is not an audio packet that this library plays.
#[derive(Debug, Clone, Copy, PartialEq, Eq, Structural)]
pub enum DecodeError {
    /// Fewer than 28 bytes: there is no whole header.
    TooShort,
    /// The first four bytes are not `VBAN`.
    BadMagic,
    /// The protocol bits name something other than audio.
    WrongProtocol,
    /// The codec bits name something other than PCM.
    NotPcm,
    /// The sample-rate index lies past the end of the table.
    BadSampleRate,
}

/// The first fault that `decode` finds in `bytes`, in the order length,
/// magic, protocol, codec, sample rate; `None` where there is none.
pub open spec fn decode_fault(bytes: Seq<u8>) -> Option<DecodeError> {
    let h = header_of(bytes);
    if bytes.len() < 28 {
        Some(DecodeError::TooShort)
    } else if !h.has_magic() {
        Some(DecodeError::BadMagic)
    } else if h.protocol() != VbanProtocol::AUDIO {
        Some(DecodeError::WrongProtocol)
    } else if !h.pcm() {
        Some(DecodeError::NotPcm)
    } else if h.sample_rate() is None {
        Some(DecodeError::BadSampleRate)
    } else {
        None
    }
}

/// What `decode` makes of `bytes`: the fault, or the header and the payload
/// that follows it.
pub open spec fn decoded(bytes: Seq<u8>) -> Result<(VBanPacket, Seq<u8>), DecodeError> {
    match decode_fault(bytes) {
        Some(e) => Err(e),
        None => Ok((header_of(bytes), bytes.subrange(28, bytes.len() as int))),
    }
}

/// The header whose wire image is the first 28 bytes of `b`.
pub open spec fn header_of(b: Seq<u8>) -> VBanPacket
    recommends
        b.len() >= 28,
{
    VBanPacket {
        four_c: [b[0], b[1], b[2], b[3]],
        sub_protocol: b[4],
        data_format: b[5],
        smp_count: b[6],
        channels: b[7],
        stream_name: [
            b[8], b[9], b[10], b[11], b[12], b[13], b[14], b[15],
            b[16], b[17], b[18], b[19], b[20], b[21], b[22], b[23],
        ],
        frame_ordering: u32_from_le(b.subrange(24, 28)),
    }
}

/// The byte that stores a count of 1 to 256: the count less one. Counts
/// outside that range wrap round modulo 256.
pub open spec fn count_byte_of(count: u16) -> u8 {
    ((count - 1) % 256) as u8
}

/// The header of an audio packet with the given values.
pub open spec fn audio_header(
    rate_index: int,
    stream_name: [u8; 16],
    smp_count: u16,
    channels: u16,
    bit_fmt: VBanBitFormat,
    frame_ordering: u32,
) -> VBanPacket {
    VBanPacket {
        four_c: VBAN_MAGIC,
        sub_protocol: rate_index as u8,
        smp_count: count_byte_of(smp_count),
        channels: count_byte_of(channels),
        data_format: format_code(bit_fmt),
        stream_name,
        frame_ordering,
    }
}

/// The bytes of an audio packet: header, then payload.
pub open spec fn audio_packet(
    sample_rate: i32,
    stream_name: [u8; 16],
    smp_count: u16,
    channels: u16,
    stream_data: Seq<u8>,
    bit_fmt: VBanBitFormat,
    frame_ordering: u32,
) -> Seq<u8>
    recommends
        rate_index_of(sample_rate) is Some,
{
    audio_header(
        rate_index_of(sample_rate).unwrap(),
        stream_name,
        smp_count,
        channels,
        bit_fmt,
        frame_ordering,
    ).wire() + stream_data
}

impl VBanPacket {
    /// Whether the header opens with the four letters `VBAN`.
    pub fn is_vban(&self) -> (ok: bool)
        ensures
            ok == self.has_magic(),
    {
        let ok = self.four_c[0] == VBAN_MAGIC[0] && self.four_c[1] == VBAN_MAGIC[1]
            && self.four_c[2] == VBAN_MAGIC[2] && self.four_c[3] == VBAN_MAGIC[3];
        proof {
            if ok {
                assert(self.four_c@ =~= VBAN_MAGIC@);
            }
        }
        ok
    }

    /// The sample rate that the header names. An index past the end of the
    /// table gives the error and nothing else does.
    pub fn get_sr(&self) -> (r: Result<i32, &'static str>)
        ensures
            match r {
                Ok(rate) => self.sample_rate() == Some(rate),
                Err(msg) => self.sample_rate() is None && msg@ == "invalid subprotocol value"@,
            },
    {
        let smp_masked: usize = (self.sub_protocol % 32) as usize;
        if smp_masked >= VBAN_SRLIST.len() {
            Err("invalid subprotocol value")
        } else {
            Ok(VBAN_SRLIST[smp_masked])
        }
    }

    /// Whether the packet carries audio.
    pub fn is_audio(&self) -> (r: bool)
        ensures
            r == (self.protocol() == VbanProtocol::AUDIO),
    {
        self.sub_protocol / 32 == 0
    }

    /// The protocol that the packet carries. Every value of the three bits
    /// names one, so the result is never `None`.
    pub fn get_protocol(&self) -> (r: Option<VbanProtocol>)
        ensures
            r == Some(self.protocol()),
    {
        Some(VbanProtocol::from(self.sub_protocol))
    }

    /// The sample format of the payload.
    pub fn get_bit_format(&self) -> (f: VBanBitFormat)
        ensures
            f == self.bit_format(),
    {
        VBanBitFormat::from(self.data_format)
    }

    /// Whether the payload is PCM.
    pub fn is_pcm(&self) -> (r: bool)
        ensures
            r == self.pcm(),
    {
        self.data_format / 8 == 0
    }

    /// Number of channels: the stored byte plus one, so that 256 channels
    /// fit.
    pub fn get_channels(&self) -> (n: u16)
        ensures
            n == self.channel_count(),
            1 <= n <= 256,
    {
        self.channels as u16 + 1
    }

    /// The sender's sequence counter.
    pub fn get_seq_num(&self) -> (n: u32)
        ensures
            n == self.frame_ordering,
    {
        self.frame_ordering
    }

    /// Number of frames in the packet: the stored byte plus one, so that 256
    /// frames fit.
    pub fn get_frame_count(&self) -> (n: u16)
        ensures
            n == self.frame_count(),
            1 <= n <= 256,
    {
        self.smp_count as u16 + 1
    }

    /// The stream name: the name field cut at its first NUL and decoded as
    /// text, with U+FFFD wherever the bytes are not UTF-8.
    pub fn get_stream_name(&self) -> (name: String)
        ensures
            name@ == self.name_text(),
    {
        let mut nul_idx: usize = 0;
        while nul_idx < 16 && self.stream_name[nul_idx] != 0
            invariant
                nul_idx <= 16,
                forall|j: int| 0 <= j < nul_idx ==> self.stream_name@[j] != 0,
            decreases 16 - nul_idx,
        {
            nul_idx += 1;
        }
        proof {
            lemma_until_nul(self.stream_name@, nul_idx as int);
        }
        string_from_utf8_lossy(slice_subrange(self.stream_name.as_slice(), 0, nul_idx))
    }

    /// The header as its 28 bytes on the wire, the sequence counter least
    /// significant byte first.
    pub fn to_bytes(&self) -> (out: Vec<u8>)
        ensures
            out@ == self.wire(),
            out@.len() == HEADER_SIZE,
    {
        let mut out: Vec<u8> = Vec::with_capacity(HEADER_SIZE);
        out.extend_from_slice(self.four_c.as_slice());
        out.push(self.sub_protocol);
        out.push(self.data_format);
        out.push(self.smp_count);
        out.push(self.channels);
        out.extend_from_slice(self.stream_name.as_slice());
        let counter = write_u32_le(self.frame_ordering);
        out.extend_from_slice(counter.as_slice());
        out
    }

    /// The header that 28 bytes from the wire spell.
    pub fn from_bytes(bytes: &[u8; HEADER_SIZE]) -> (h: VBanPacket)
        ensures
            h == header_of(bytes@),
            h.wire() == bytes@,
    {
        proof {
            lemma_wire_of_header(bytes@);
        }
        header_from_slice(bytes.as_slice())
    }

    /// A whole audio packet: the header for the given values, then
    /// `stream_data`. `smp_count` and `channels` are stored less one in a
    /// byte each, so only 1 to 256 come back as they went in; any other value
    /// is taken modulo 256 and reads back as another count. The sample rate
    /// has to be one of the table.
    pub fn make_audio_packet(
        sample_rate: i32,
        stream_name: [u8; 16],
        smp_count: u16,
        channels: u16,
        stream_data: &[u8],
        bit_fmt: VBanBitFormat,
        frame_ordering: u32,
    ) -> (packet: Vec<u8>)
        requires
            rate_index_of(sample_rate) is Some,
        ensures
            packet@ == audio_packet(
                sample_rate,
                stream_name,
                smp_count,
                channels,
                stream_data@,
                bit_fmt,
                frame_ordering,
            ),
    {
        let sr_index: u8 = match sample_rate_index(sample_rate) {
            Some(i) => i,
            None => 0,
        };
        let header = VBanPacket {
            four_c: VBAN_MAGIC,
            sub_protocol: sr_index,
            smp_count: count_byte(smp_count),
            channels: count_byte(channels),
            data_format: bit_fmt.into(),
            stream_name,
            frame_ordering,
        };
        let mut packet = header.to_bytes();
        packet.extend_from_slice(stream_data);
        packet
    }

    /// Splits a datagram into header and payload and checks the header: it
    /// must be whole, open with `VBAN`, carry audio, say PCM, and name a
    /// sample rate of the table. The sample format is not checked here;
    /// which formats can be played is for the caller to say.
    pub fn decode<'a>(bytes: &'a [u8]) -> (r: Result<(VBanPacket, &'a [u8]), DecodeError>)
        ensures
            match r {
                Ok((h, payload)) => decoded(bytes@) == Ok::<_, DecodeError>((h, payload@)),
                Err(e) => decoded(bytes@) == Err::<(VBanPacket, Seq<u8>), _>(e),
            },
    {
        if bytes.len() < HEADER_SIZE {
            return Err(DecodeError::TooShort);
        }
        let header = header_from_slice(bytes);
        if !header.is_vban() {
            return Err(DecodeError::BadMagic);
        }
        if !header.is_audio() {
            return Err(DecodeError::WrongProtocol);
        }
        if !header.is_pcm() {
            return Err(DecodeError::NotPcm);
        }
        if header.get_sr().is_err() {
            return Err(DecodeError::BadSampleRate);
        }
        Ok((header, slice_subrange(bytes, HEADER_SIZE, bytes.len())))
    }
}

/// The place of `rate` in the table of sample rates. Only an exact match
/// counts; there is no nearest rate.
pub fn sample_rate_index(rate: i32) -> (r: Option<u8>)
    ensures
        match r {
            Some(i) => rate_index_of(rate) == Some(i as int),
            None => rate_index_of(rate) is None,
        },
        r matches Some(i) ==> i < 21 && VBAN_SRLIST@[i as int] == rate,
{
    let mut i: usize = 0;
    while i < 21
        invariant
            i <= 21,
            forall|j: int| 0 <= j < i ==> VBAN_SRLIST@[j] != rate,
        decreases 21 - i,
    {
        if VBAN_SRLIST[i] == rate {
            proof {
                VBAN_SRLIST@.index_of_first_ensures(rate);
            }
            return Some(i as u8);
        }
        i += 1;
    }
    proof {
        VBAN_SRLIST@.index_of_first_ensures(rate);
    }
    None
}

fn count_byte(count: u16) -> (b: u8)
    ensures
        b == count_byte_of(count),
{
    if count == 0 {
        255
    } else {
        ((count - 1) % 256) as u8
    }
}

fn header_from_slice(bytes: &[u8]) -> (h: VBanPacket)
    requires
        bytes@.len() >= 28,
    ensures
        h == header_of(bytes@),
{
    let counter = read_u32_le(slice_subrange(bytes, 24, 28));
    VBanPacket {
        four_c: [bytes[0], bytes[1], bytes[2], bytes[3]],
        sub_protocol: bytes[4],
        data_format: bytes[5],
        smp_count: bytes[6],
        channels: bytes[7],
        stream_name: [
            bytes[8], bytes[9], bytes[10], bytes[11], bytes[12], bytes[13], bytes[14], bytes[15],
            bytes[16], bytes[17], bytes[18], bytes[19], bytes[20], bytes[21], bytes[22], bytes[23],
        ],
        frame_ordering: counter,
    }
}

/// `until_nul` cuts at `n` where no byte before `n` is NUL and `n` is the
/// end or holds a NUL.
pub proof fn lemma_until_nul(s: Seq<u8>, n: int)
    requires
        0 <= n <= s.len(),
        forall|j: int| 0 <= j < n ==> s[j] != 0,
        n < s.len() ==> s[n] == 0,
    ensures
        until_nul(s) == s.take(n),
{
    s.index_of_first_ensures(0u8);
}

/// The wire image of the header read from 28 bytes is those bytes.
pub proof fn lemma_wire_of_header(b: Seq<u8>)
    requires
        b.len() == 28,
    ensures
        header_of(b).wire() == b,
{
    lemma_u32_le_bytes_of_from_le(b.subrange(24, 28));
}

/// The header read from a header's wire image is that header.
pub proof fn lemma_header_of_wire(h: VBanPacket)
    ensures
        h.wire().len() == 28,
        header_of(h.wire()) == h,
{
    let b = h.wire();
    let back = header_of(b);
    assert(u32_from_le(b.subrange(24, 28)) == h.frame_ordering) by {
        lemma_u32_le_roundtrip(h.frame_ordering);
    }
    assert(back.four_c == h.four_c) by {
        assert(back.four_c@ =~= h.four_c@);
    }
    assert(back.stream_name == h.stream_name) by {
        assert(back.stream_name@ =~= h.stream_name@);
    }
}

/// A packet made from a sample rate of the table decodes without fault, to
/// the header it was made with and the payload it was given; and that header
/// names the sample rate and the sample format that went in.
pub proof fn lemma_audio_packet_decodes(
    sample_rate: i32,
    stream_name: [u8; 16],
    smp_count: u16,
    channels: u16,
    stream_data: Seq<u8>,
    bit_fmt: VBanBitFormat,
    frame_ordering: u32,
)
    requires
        rate_index_of(sample_rate) is Some,
    ensures
        ({
            let header = audio_header(
                rate_index_of(sample_rate).unwrap(),
                stream_name,
                smp_count,
                channels,
                bit_fmt,
                frame_ordering,
            );
            &&& decoded(
                audio_packet(
                    sample_rate,
                    stream_name,
                    smp_count,
                    channels,
                    stream_data,
                    bit_fmt,
                    frame_ordering,
                ),
            ) == Ok::<_, DecodeError>((header, stream_data))
            &&& header.sample_rate() == Some(sample_rate)
            &&& header.bit_format() == bit_fmt
        }),
{
    VBAN_SRLIST@.index_of_first_ensures(sample_rate);
    let index = rate_index_of(sample_rate).unwrap();
    let header = audio_header(index, stream_name, smp_count, channels, bit_fmt, frame_ordering);
    let packet = header.wire() + stream_data;
    lemma_header_of_wire(header);
    lemma_header_of_prefix(header.wire(), stream_data);
    lemma_format_code_roundtrip(bit_fmt);
    assert(packet.subrange(28, packet.len() as int) =~= stream_data);
}

/// Encoding and then decoding gives back what went in: a packet made from a
/// sample rate of the table, 1 to 256 frames and 1 to 256 channels decodes
/// without fault, and the header read back gives the same sample rate, frame
/// count, channel count, stream name, sample format and sequence number,
/// followed by the same payload.
pub proof fn lemma_encode_decode_roundtrip(
    sample_rate: i32,
    stream_name: [u8; 16],
    smp_count: u16,
    channels: u16,
    stream_data: Seq<u8>,
    bit_fmt: VBanBitFormat,
    frame_ordering: u32,
)
    requires
        rate_index_of(sample_rate) is Some,
        1 <= smp_count <= 256,
        1 <= channels <= 256,
    ensures
        ({
            let packet = audio_packet(
                sample_rate,
                stream_name,
                smp_count,
                channels,
                stream_data,
                bit_fmt,
                frame_ordering,
            );
            &&& decoded(packet) matches Ok((h, payload))
            &&& h.sample_rate() == Some(sample_rate)
            &&& h.frame_count() == smp_count
            &&& h.channel_count() == channels
            &&& h.stream_name == stream_name
            &&& h.name_text() == text_of(until_nul(stream_name@))
            &&& h.bit_format() == bit_fmt
            &&& h.frame_ordering == frame_ordering
            &&& payload == stream_data
        }),
{
    lemma_audio_packet_decodes(
        sample_rate,
        stream_name,
        smp_count,
        channels,
        stream_data,
        bit_fmt,
        frame_ordering,
    );
}

/// Reading a header looks at the first 28 bytes only.
pub proof fn lemma_header_of_prefix(head: Seq<u8>, rest: Seq<u8>)
    requires
        head.len() == 28,
    ensures
        header_of(head + rest) == header_of(head),
{
    let b = head + rest;
}

} // verus!
