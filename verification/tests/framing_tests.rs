//! Tests of the framing buffer: splitting a byte stream into
//! newline-terminated messages, however the reads split it.

use iterm_mcp::framing::FrameBuffer;

#[test]
fn two_lines_in_one_read_give_two_messages_in_order() {
    let mut fb = FrameBuffer::new();
    fb.feed(b"first\nsecond\n");
    assert_eq!(fb.next_message(), Some(b"first".to_vec()));
    assert_eq!(fb.next_message(), Some(b"second".to_vec()));
    assert_eq!(fb.next_message(), None);
    assert_eq!(fb.pending_len(), 0);
}

#[test]
fn message_split_across_reads_is_parsed_once_complete() {
    let mut fb = FrameBuffer::new();
    fb.feed(b"hel");
    assert_eq!(fb.next_message(), None);
    fb.feed(b"lo wor");
    assert_eq!(fb.next_message(), None);
    fb.feed(b"ld\ntrail");
    assert_eq!(fb.next_message(), Some(b"hello world".to_vec()));
    assert_eq!(fb.next_message(), None);
    fb.feed(b"er\n");
    assert_eq!(fb.next_message(), Some(b"trailer".to_vec()));
}

#[test]
fn oversized_message_grows_the_buffer_and_still_parses() {
    let mut fb = FrameBuffer::new();
    assert_eq!(fb.capacity(), 8192);
    let big = vec![b'x'; 20_000];
    fb.feed(&big);
    assert!(fb.capacity() > 8192, "the allocation should have grown");
    assert_eq!(fb.next_message(), None);
    fb.feed(b"\n");
    let msg = fb.next_message().expect("the complete line should frame");
    assert_eq!(msg.len(), 20_000);
    assert_eq!(msg, big);
}

#[test]
fn empty_lines_frame_as_empty_messages() {
    let mut fb = FrameBuffer::new();
    fb.feed(b"\n\nx\n");
    assert_eq!(fb.next_message(), Some(Vec::new()));
    assert_eq!(fb.next_message(), Some(Vec::new()));
    assert_eq!(fb.next_message(), Some(b"x".to_vec()));
    assert_eq!(fb.next_message(), None);
}
