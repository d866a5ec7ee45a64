use vban_mini::jitter::{JitterBuffer, PendingFrame, MAX_CACHED_PACKETS};
use vban_mini::vban::{VBanPacket, VBAN_MAGIC};

fn header(seq: u32) -> VBanPacket {
    VBanPacket {
        four_c: VBAN_MAGIC,
        sub_protocol: 3,
        smp_count: 0,
        channels: 1,
        data_format: 1,
        stream_name: [0u8; 16],
        frame_ordering: seq,
    }
}

fn put(jb: &mut JitterBuffer, seq: u32) {
    jb.enqueue(header(seq), vec![seq as u8, (seq >> 8) as u8]);
}

fn seq_of(frame: Option<PendingFrame>) -> Option<u32> {
    frame.map(|f| f.header.get_seq_num())
}

#[test]
fn a_fresh_buffer_gives_nothing() {
    let mut jb = JitterBuffer::new();
    assert_eq!(jb.len(), 0);
    assert_eq!(jb.last_played_seq(), 0);
    assert!(jb.select().is_none());
    assert_eq!(jb.last_played_seq(), 0);
    assert_eq!(MAX_CACHED_PACKETS, 32);
}

#[test]
fn in_order_frames_come_out_one_per_arrival() {
    let mut jb = JitterBuffer::new();
    for seq in 1..=100u32 {
        put(&mut jb, seq);
        let frame = jb.select().unwrap();
        assert_eq!(frame.header.get_seq_num(), seq);
        assert_eq!(frame.payload, vec![seq as u8, 0]);
        assert_eq!(jb.last_played_seq(), seq);
        assert_eq!(jb.len(), 0);
        assert!(jb.select().is_none());
    }
}

#[test]
fn in_order_frames_stored_ahead_come_out_in_order() {
    let mut jb = JitterBuffer::new();
    for seq in 1..=40u32 {
        put(&mut jb, seq);
    }
    for seq in 1..=40u32 {
        assert_eq!(seq_of(jb.select()), Some(seq));
        assert_eq!(jb.len(), (40 - seq) as usize);
    }
    assert!(jb.select().is_none());
}

#[test]
fn a_swapped_pair_is_put_right() {
    let mut jb = JitterBuffer::new();
    let mut played = Vec::new();
    for seq in [1u32, 3, 2] {
        put(&mut jb, seq);
        if let Some(frame) = jb.select() {
            played.push(frame.header.get_seq_num());
        }
    }
    assert_eq!(played, vec![1, 2]);
    assert_eq!(jb.len(), 1);
    assert_eq!(seq_of(jb.select()), Some(3));
    assert!(jb.select().is_none());
    assert_eq!(jb.len(), 0);
}

#[test]
fn a_gap_is_waited_for_below_32_frames() {
    let mut jb = JitterBuffer::new();
    put(&mut jb, 1);
    assert_eq!(seq_of(jb.select()), Some(1));
    for seq in 3..=33u32 {
        put(&mut jb, seq);
        assert!(jb.select().is_none());
        assert_eq!(jb.last_played_seq(), 1);
        assert_eq!(jb.len(), (seq - 2) as usize);
    }
    assert_eq!(jb.len(), 31);
}

#[test]
fn a_lost_frame_is_skipped_at_32_frames() {
    let mut jb = JitterBuffer::new();
    put(&mut jb, 1);
    assert_eq!(seq_of(jb.select()), Some(1));
    for seq in 3..=33u32 {
        put(&mut jb, seq);
    }
    assert_eq!(jb.len(), 31);
    assert!(jb.select().is_none());
    put(&mut jb, 34);
    assert_eq!(jb.len(), 32);
    assert_eq!(seq_of(jb.select()), Some(3));
    assert_eq!(jb.last_played_seq(), 3);
    assert_eq!(jb.len(), 31);
    for seq in 4..=34u32 {
        assert_eq!(seq_of(jb.select()), Some(seq));
    }
    assert!(jb.select().is_none());
}

#[test]
fn a_lost_frame_is_skipped_with_1_and_3_to_33_stored_ahead() {
    let mut jb = JitterBuffer::new();
    put(&mut jb, 1);
    for seq in 3..=33u32 {
        put(&mut jb, seq);
    }
    assert_eq!(jb.len(), 32);
    assert_eq!(seq_of(jb.select()), Some(1));
    assert_eq!(jb.len(), 31);
    assert!(jb.select().is_none());
    put(&mut jb, 34);
    assert_eq!(seq_of(jb.select()), Some(3));
}

#[test]
fn the_skip_goes_to_the_closest_frame_ahead() {
    let mut jb = JitterBuffer::new();
    put(&mut jb, 100);
    assert_eq!(seq_of(jb.select()), Some(100));
    for seq in (110..141u32).rev() {
        put(&mut jb, seq);
    }
    put(&mut jb, 105);
    assert_eq!(jb.len(), 32);
    assert_eq!(seq_of(jb.select()), Some(105));
    assert_eq!(jb.len(), 31);
    assert!(jb.select().is_none());
}

#[test]
fn frames_behind_are_never_skipped_to() {
    let mut jb = JitterBuffer::new();
    put(&mut jb, 100);
    assert_eq!(seq_of(jb.select()), Some(100));
    for seq in 50..82u32 {
        put(&mut jb, seq);
    }
    assert_eq!(jb.len(), 32);
    assert!(jb.select().is_none());
    assert_eq!(jb.len(), 32);
    assert_eq!(jb.last_played_seq(), 100);
    put(&mut jb, 101);
    assert_eq!(seq_of(jb.select()), Some(101));
    assert_eq!(jb.len(), 0);
}

#[test]
fn the_first_arrival_starts_the_stream_whatever_its_number() {
    let mut jb = JitterBuffer::new();
    put(&mut jb, 7);
    put(&mut jb, 5);
    put(&mut jb, 6);
    put(&mut jb, 8);
    assert_eq!(seq_of(jb.select()), Some(7));
    assert_eq!(jb.len(), 1);
    assert_eq!(seq_of(jb.select()), Some(8));
    assert_eq!(jb.len(), 0);
}

#[test]
fn a_frame_that_arrives_twice_is_stored_twice_and_played_once() {
    let mut jb = JitterBuffer::new();
    put(&mut jb, 1);
    put(&mut jb, 1);
    put(&mut jb, 2);
    put(&mut jb, 2);
    assert_eq!(jb.len(), 4);
    assert_eq!(seq_of(jb.select()), Some(1));
    assert_eq!(jb.len(), 2);
    assert_eq!(seq_of(jb.select()), Some(2));
    assert_eq!(jb.len(), 0);
    put(&mut jb, 2);
    assert_eq!(jb.len(), 1);
    assert!(jb.select().is_none());
    put(&mut jb, 3);
    assert_eq!(seq_of(jb.select()), Some(3));
    assert_eq!(jb.len(), 0);
}

#[test]
fn the_earlier_of_two_equal_frames_is_given() {
    let mut jb = JitterBuffer::new();
    jb.enqueue(header(1), vec![1]);
    assert!(jb.select().is_some());
    jb.enqueue(header(2), vec![10]);
    jb.enqueue(header(2), vec![20]);
    assert_eq!(jb.select().unwrap().payload, vec![10]);
    for seq in 0..31u32 {
        put(&mut jb, 20 + seq);
    }
    jb.enqueue(header(9), vec![30]);
    jb.enqueue(header(9), vec![40]);
    assert_eq!(jb.select().unwrap().payload, vec![30]);
}

#[test]
fn what_was_played_is_never_given_again() {
    let mut jb = JitterBuffer::new();
    let arrivals = [
        3u32, 1, 2, 4, 4, 2, 6, 5, 9, 7, 3, 8, 10, 12, 11, 1, 13, 15, 14, 16, 18, 17, 20, 19,
    ];
    let mut played = Vec::new();
    for seq in arrivals {
        put(&mut jb, seq);
        while let Some(frame) = jb.select() {
            played.push(frame.header.get_seq_num());
        }
    }
    for pair in played.windows(2) {
        assert!(pair[0] < pair[1]);
    }
    assert_eq!(played, vec![3, 4, 5, 6, 7, 8, 9, 10, 11, 12, 13, 14, 15, 16, 17, 18, 19, 20]);
}

#[test]
fn the_counter_is_followed_where_it_wraps() {
    let mut jb = JitterBuffer::new();
    put(&mut jb, 0xFFFF_FFFE);
    assert_eq!(seq_of(jb.select()), Some(0xFFFF_FFFE));
    put(&mut jb, 0xFFFF_FFFF);
    assert_eq!(seq_of(jb.select()), Some(0xFFFF_FFFF));
    put(&mut jb, 0);
    assert_eq!(seq_of(jb.select()), Some(0));
    assert_eq!(jb.last_played_seq(), 0);
}

#[test]
fn the_signed_difference_turns_at_half_the_range() {
    let mut jb = JitterBuffer::new();
    put(&mut jb, 0x7FFF_FFFF);
    assert_eq!(seq_of(jb.select()), Some(0x7FFF_FFFF));
    put(&mut jb, 0x8000_0000);
    assert_eq!(seq_of(jb.select()), Some(0x8000_0000));

    let mut jb = JitterBuffer::new();
    put(&mut jb, 1);
    assert_eq!(seq_of(jb.select()), Some(1));
    for _ in 0..32 {
        put(&mut jb, 0x8000_0001);
    }
    assert!(jb.select().is_none());
    put(&mut jb, 0x8000_0000);
    assert_eq!(seq_of(jb.select()), Some(0x8000_0000));
    assert_eq!(jb.len(), 32);
}

#[test]
fn eviction_goes_by_unsigned_order() {
    let mut jb = JitterBuffer::new();
    put(&mut jb, 10);
    assert_eq!(seq_of(jb.select()), Some(10));
    put(&mut jb, 5);
    put(&mut jb, 10);
    put(&mut jb, 0xF000_0000);
    put(&mut jb, 12);
    put(&mut jb, 11);
    assert_eq!(jb.len(), 5);
    assert_eq!(seq_of(jb.select()), Some(11));
    assert_eq!(jb.len(), 2);
    assert_eq!(seq_of(jb.select()), Some(12));
    assert_eq!(jb.len(), 1);
    assert!(jb.select().is_none());
}
