use mjpeg_stream::framing::{contains_terminator, Framer, FramerStatus, TERMINATOR_LEN};

#[test]
fn terminator_is_four_bytes() {
    assert_eq!(TERMINATOR_LEN, 4);
}

#[test]
fn terminator_is_found_anywhere() {
    assert!(contains_terminator(b"\r\n\r\n"));
    assert!(contains_terminator(b"GET / HTTP/1.1\r\nHost: x\r\n\r\n"));
    assert!(contains_terminator(b"\r\n\r\nbody follows"));
    assert!(contains_terminator(b"a\r\n\r\nb\r\n\r\n"));
    assert!(contains_terminator(b"\r\r\n\r\n"));
}

#[test]
fn terminator_is_not_found_where_there_is_none() {
    assert!(!contains_terminator(b""));
    assert!(!contains_terminator(b"\r\n"));
    assert!(!contains_terminator(b"\r\n\r"));
    assert!(!contains_terminator(b"\n\r\n\r"));
    assert!(!contains_terminator(b"\r\n \r\n"));
    assert!(!contains_terminator(b"GET / HTTP/1.1\r\nHost: x\r\n"));
    assert!(!contains_terminator(b"\n\n\n\n"));
}

#[test]
fn terminator_is_found_among_bytes_that_are_no_text() {
    assert!(contains_terminator(&[0xff, 0xfe, 0x80, 13, 10, 13, 10]));
    assert!(contains_terminator(&[13, 10, 13, 10, 0xc3]));
    assert!(!contains_terminator(&[0xff, 13, 10, 0xff, 13, 10]));
}

#[test]
fn new_framer_is_empty_and_undecided() {
    let framer = Framer::new(2048);
    assert_eq!(framer.status(), FramerStatus::NeedMore);
    assert_eq!(framer.cursor(), 0);
    assert_eq!(framer.capacity(), 2048);
    assert_eq!(framer.room(), 2048);
    assert_eq!(framer.read_limit(), 2048);
    assert_eq!(framer.received(), b"");
}

#[test]
fn request_in_one_read_is_ready() {
    let mut framer = Framer::new(2048);
    let request = b"GET /stream HTTP/1.1\r\nHost: camera\r\n\r\n";
    assert_eq!(framer.feed(request), FramerStatus::Ready);
    assert_eq!(framer.status(), FramerStatus::Ready);
    assert_eq!(framer.cursor(), request.len());
    assert_eq!(framer.received(), &request[..]);
}

#[test]
fn terminator_split_over_two_reads_is_found() {
    let mut framer = Framer::new(64);
    assert_eq!(framer.feed(b"GET / HTTP/1.1\r\n\r"), FramerStatus::NeedMore);
    assert_eq!(framer.cursor(), 17);
    assert_eq!(framer.room(), 47);
    assert_eq!(framer.read_limit(), 47);
    assert_eq!(framer.feed(b"\n"), FramerStatus::Ready);
    assert_eq!(framer.received(), b"GET / HTTP/1.1\r\n\r\n");
}

#[test]
fn every_chunking_stops_at_the_same_point() {
    let stream: &[u8] = b"GET / HTTP/1.1\r\nA: b\r\n\r\ntrailing bytes";
    let end_of_headers = 24;
    for size in 1..=stream.len() {
        let mut framer = Framer::new(2048);
        let mut fed = 0;
        let mut stopped_at = None;
        for chunk in stream.chunks(size) {
            fed += chunk.len();
            let status = framer.feed(chunk);
            if status == FramerStatus::Ready {
                stopped_at = Some(fed);
                break;
            }
            assert_eq!(status, FramerStatus::NeedMore);
            assert!(fed < end_of_headers);
        }
        let stopped_at = stopped_at.unwrap();
        assert!(stopped_at >= end_of_headers);
        assert!(stopped_at - end_of_headers < size);
        assert_eq!(framer.received(), &stream[..stopped_at]);
    }
}

#[test]
fn close_before_terminator_is_ready() {
    let mut framer = Framer::new(2048);
    assert_eq!(framer.feed(b"GET / HT"), FramerStatus::NeedMore);
    assert_eq!(framer.feed(b""), FramerStatus::Ready);
    assert_eq!(framer.received(), b"GET / HT");
}

#[test]
fn close_before_any_byte_is_ready() {
    let mut framer = Framer::new(2048);
    assert_eq!(framer.feed(b""), FramerStatus::Ready);
    assert_eq!(framer.cursor(), 0);
}

#[test]
fn full_buffer_without_terminator_is_still_undecided() {
    let mut framer = Framer::new(8);
    assert_eq!(framer.feed(b"abcdefgh"), FramerStatus::NeedMore);
    assert_eq!(framer.cursor(), 8);
    assert_eq!(framer.room(), 0);
    assert_eq!(framer.read_limit(), 1);
}

#[test]
fn full_buffer_then_close_is_ready() {
    let mut framer = Framer::new(8);
    assert_eq!(framer.feed(b"abcdefgh"), FramerStatus::NeedMore);
    assert_eq!(framer.feed(b""), FramerStatus::Ready);
}

#[test]
fn one_byte_past_a_full_buffer_is_overflow() {
    let mut framer = Framer::new(8);
    assert_eq!(framer.feed(b"abcdefgh"), FramerStatus::NeedMore);
    assert_eq!(framer.feed(b"i"), FramerStatus::Overflow);
    assert_eq!(framer.status(), FramerStatus::Overflow);
    assert_eq!(framer.cursor(), 8);
    assert_eq!(framer.received(), b"abcdefgh");
}

#[test]
fn long_read_without_terminator_is_overflow() {
    let mut framer = Framer::new(2048);
    let flood = vec![b'x'; 2049];
    assert_eq!(framer.feed(&flood), FramerStatus::Overflow);
    assert_eq!(framer.cursor(), 2048);
}

#[test]
fn overflow_comes_at_the_same_byte_for_every_chunking() {
    let flood = vec![b'x'; 40];
    for size in 1..=40usize {
        let mut framer = Framer::new(16);
        let mut fed = 0;
        let mut overflowed_at = None;
        for chunk in flood.chunks(size) {
            fed += chunk.len();
            match framer.feed(chunk) {
                FramerStatus::Overflow => {
                    overflowed_at = Some(fed);
                    break;
                }
                status => {
                    assert_eq!(status, FramerStatus::NeedMore);
                    assert!(fed <= 16);
                }
            }
        }
        let overflowed_at = overflowed_at.unwrap();
        assert!(overflowed_at > 16);
        assert!(overflowed_at - 16 <= size);
        assert_eq!(framer.cursor(), 16);
    }
}

#[test]
fn terminator_that_ends_at_capacity_wins_over_overflow() {
    let mut framer = Framer::new(8);
    assert_eq!(framer.feed(b"abcd\r\n\r\nmore"), FramerStatus::Ready);
    assert_eq!(framer.received(), b"abcd\r\n\r\n");
}

#[test]
fn terminator_cut_by_capacity_is_overflow() {
    let mut framer = Framer::new(8);
    assert_eq!(framer.feed(b"abcde\r\n\r\n"), FramerStatus::Overflow);
    assert_eq!(framer.received(), b"abcde\r\n\r");
}

#[test]
fn decided_framer_ignores_later_reads() {
    let mut ready = Framer::new(32);
    assert_eq!(ready.feed(b"\r\n\r\n"), FramerStatus::Ready);
    assert_eq!(ready.feed(b"more"), FramerStatus::Ready);
    assert_eq!(ready.received(), b"\r\n\r\n");

    let mut overflowed = Framer::new(2);
    assert_eq!(overflowed.feed(b"abc"), FramerStatus::Overflow);
    assert_eq!(overflowed.feed(b""), FramerStatus::Overflow);
    assert_eq!(overflowed.feed(b"\r\n\r\n"), FramerStatus::Overflow);
    assert_eq!(overflowed.received(), b"ab");
}

#[test]
fn zero_capacity_framer_overflows_on_the_first_byte() {
    let mut framer = Framer::new(0);
    assert_eq!(framer.read_limit(), 1);
    assert_eq!(framer.feed(b"G"), FramerStatus::Overflow);
    let mut closed = Framer::new(0);
    assert_eq!(closed.feed(b""), FramerStatus::Ready);
}
