use vban_mini::output::{samples_from_bytes, OpenStream, OutputStream, Playback, SAMPLE_WIDTH};
use vban_mini::vban::{VBanPacket, VBAN_MAGIC};

fn header(rate_index: u8, frames: u16, channels: u16) -> VBanPacket {
    VBanPacket {
        four_c: VBAN_MAGIC,
        sub_protocol: rate_index,
        smp_count: (frames - 1) as u8,
        channels: (channels - 1) as u8,
        data_format: 1,
        stream_name: [0u8; 16],
        frame_ordering: 1,
    }
}

fn opened(playback: &Playback) -> Option<OpenStream> {
    match playback {
        Playback::Play { open, .. } => *open,
        Playback::Dropped => panic!("frame was dropped"),
    }
}

#[test]
fn the_first_frame_opens_a_stream() {
    let mut out = OutputStream::new();
    assert_eq!(out.current(), None);
    let playback = out.push(&header(3, 2, 2), &[1, 0, 2, 0, 3, 0, 4, 0]);
    assert_eq!(
        playback,
        Playback::Play {
            open: Some(OpenStream { sample_rate: 48000, channels: 2 }),
            frames: 2,
            samples: vec![1, 2, 3, 4],
            short: false,
        }
    );
    assert_eq!(out.current(), Some(OpenStream { sample_rate: 48000, channels: 2 }));
    assert_eq!(SAMPLE_WIDTH, 2);
}

#[test]
fn a_new_rate_opens_a_stream_once() {
    let mut out = OutputStream::new();
    let mut opens = Vec::new();
    for rate_index in [3u8, 3, 3, 16, 16, 16] {
        opens.push(opened(&out.push(&header(rate_index, 1, 2), &[0, 0, 0, 0])));
    }
    assert_eq!(
        opens,
        vec![
            Some(OpenStream { sample_rate: 48000, channels: 2 }),
            None,
            None,
            Some(OpenStream { sample_rate: 44100, channels: 2 }),
            None,
            None,
        ]
    );
    assert_eq!(out.current(), Some(OpenStream { sample_rate: 44100, channels: 2 }));
}

#[test]
fn going_back_to_the_old_rate_opens_again() {
    let mut out = OutputStream::new();
    assert!(opened(&out.push(&header(3, 1, 1), &[0, 0])).is_some());
    assert!(opened(&out.push(&header(16, 1, 1), &[0, 0])).is_some());
    assert_eq!(
        opened(&out.push(&header(3, 1, 1), &[0, 0])),
        Some(OpenStream { sample_rate: 48000, channels: 1 })
    );
}

#[test]
fn a_new_channel_count_alone_opens_nothing() {
    let mut out = OutputStream::new();
    assert!(opened(&out.push(&header(3, 1, 2), &[0, 0, 0, 0])).is_some());
    assert_eq!(opened(&out.push(&header(3, 1, 1), &[0, 0])), None);
    assert_eq!(opened(&out.push(&header(3, 1, 8), &[0; 16])), None);
    assert_eq!(out.current(), Some(OpenStream { sample_rate: 48000, channels: 2 }));
}

#[test]
fn a_frame_without_a_rate_is_dropped_and_opens_nothing() {
    for rate_index in 21u8..32 {
        let mut out = OutputStream::new();
        assert_eq!(out.push(&header(rate_index, 1, 1), &[0, 0]), Playback::Dropped);
        assert_eq!(out.current(), None);
        assert_eq!(out.idle_wait_nanos(), None);
    }
}

#[test]
fn a_frame_without_a_rate_leaves_the_open_stream() {
    let mut out = OutputStream::new();
    out.push(&header(3, 100, 2), &[0; 400]);
    let idle = out.idle_wait_nanos();
    assert_eq!(out.push(&header(31, 7, 1), &[0, 0]), Playback::Dropped);
    assert_eq!(out.current(), Some(OpenStream { sample_rate: 48000, channels: 2 }));
    assert_eq!(out.idle_wait_nanos(), idle);
}

#[test]
fn a_short_payload_is_flagged_and_played_as_far_as_it_goes() {
    let mut out = OutputStream::new();
    let payload = [1u8, 0, 2, 0, 3, 0, 4, 0, 5, 0];
    let playback = out.push(&header(3, 4, 2), &payload);
    assert_eq!(
        playback,
        Playback::Play {
            open: Some(OpenStream { sample_rate: 48000, channels: 2 }),
            frames: 2,
            samples: vec![1, 2, 3, 4],
            short: true,
        }
    );
    let playback = out.push(&header(3, 4, 2), &[]);
    assert_eq!(
        playback,
        Playback::Play { open: None, frames: 0, samples: vec![], short: true }
    );
}

#[test]
fn a_long_payload_is_cut_at_what_the_header_says() {
    let mut out = OutputStream::new();
    let payload: Vec<u8> = (1..=20).collect();
    let playback = out.push(&header(3, 4, 2), &payload);
    assert_eq!(
        playback,
        Playback::Play {
            open: Some(OpenStream { sample_rate: 48000, channels: 2 }),
            frames: 4,
            samples: vec![0x0201, 0x0403, 0x0605, 0x0807, 0x0a09, 0x0c0b, 0x0e0d, 0x100f],
            short: false,
        }
    );
}

#[test]
fn the_largest_packet_is_played_whole() {
    let mut out = OutputStream::new();
    let payload = vec![0x11u8; 256 * 256 * 2];
    match out.push(&header(20, 256, 256), &payload) {
        Playback::Play { open, frames, samples, short } => {
            assert_eq!(open, Some(OpenStream { sample_rate: 705600, channels: 256 }));
            assert_eq!(frames, 256);
            assert_eq!(samples.len(), 65536);
            assert!(samples.iter().all(|s| *s == 0x1111));
            assert!(!short);
        }
        Playback::Dropped => panic!("frame was dropped"),
    }
}

#[test]
fn samples_are_signed_little_endian() {
    let bytes = [0x34u8, 0x12, 0xff, 0xff, 0x00, 0x80, 0xff, 0x7f, 0x01, 0x00, 0x00, 0x01];
    assert_eq!(samples_from_bytes(&bytes, 6), vec![0x1234, -1, -32768, 32767, 1, 256]);
    assert_eq!(samples_from_bytes(&bytes, 2), vec![0x1234, -1]);
    assert_eq!(samples_from_bytes(&bytes, 0), Vec::<i16>::new());
}

#[test]
fn the_idle_wait_is_half_the_last_packet() {
    let mut out = OutputStream::new();
    assert_eq!(out.idle_wait_nanos(), None);
    out.push(&header(3, 256, 1), &[0; 512]);
    assert_eq!(out.idle_wait_nanos(), Some(2_666_666));
    out.push(&header(3, 48, 1), &[0; 96]);
    assert_eq!(out.idle_wait_nanos(), Some(500_000));
    out.push(&header(16, 128, 1), &[0; 256]);
    assert_eq!(out.idle_wait_nanos(), Some(1_451_247));
    out.push(&header(0, 1, 1), &[]);
    assert_eq!(out.idle_wait_nanos(), Some(83_333));
}
