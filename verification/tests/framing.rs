//! Building frames and finding them in a stream.
use networked_filesystem::{FileFrameStatus, FrameEncoder, FrameHandler};

fn encoder() -> FrameEncoder {
    FrameEncoder::new(Some(b"\\\\f".to_vec()), Some(b"//f".to_vec()), None)
}

fn parts(encoder: &mut FrameEncoder, bytes: &[u8]) -> Result<Vec<(Vec<u8>, Vec<u8>)>, FileFrameStatus> {
    let mut counter = 9;
    let frames = encoder.append_bytes_recv(&bytes.to_vec(), &mut counter);
    assert_eq!(counter, 9);
    frames.map(|held| held.iter().map(|f| (f.get_chunks(), f.get_remainder())).collect())
}

#[test]
fn frames_stand_between_delimiters() {
    assert_eq!(encoder().encode_bytes(vec![1, 2], b"abc".to_vec()), b"\\\\f\x01\x02abc//f".to_vec());
}

#[test]
fn frames_can_do_without_delimiters() {
    let bare = FrameEncoder::default();
    assert_eq!(bare.encode_bytes(vec![1], vec![2]), vec![1, 2]);
    let ended = FrameEncoder::new(None, Some(vec![9]), Some(5));
    assert_eq!(ended.encode_bytes(vec![1], vec![9]), vec![1, 9, 9]);
}

#[test]
fn first_bytes_of_delimiters_are_escaped() {
    let escaping = FrameEncoder::new(Some(b"<s".to_vec()), Some(b">e".to_vec()), Some(b'!'));
    assert_eq!(
        escaping.encode_bytes(b"<h".to_vec(), b"a<b>c!".to_vec()),
        b"<s<ha!<b!>c!>e".to_vec()
    );
}

#[test]
fn escaped_content_hides_the_ending_delimiter() {
    let mut escaping = FrameEncoder::new(Some(b"\\\\f".to_vec()), Some(b"//f".to_vec()), Some(b'!'));
    let frame = escaping.encode_bytes(vec![0, 0], b"a//f/".to_vec());
    assert_eq!(frame, b"\\\\f\x00\x00a!/!/f!///f".to_vec());
    assert_eq!(
        parts(&mut escaping, &frame),
        Ok(vec![(b"\x00\x00a!/!/f!/".to_vec(), b"//f".to_vec())])
    );
}

#[test]
fn a_frame_is_found_alone() {
    let mut receiving = encoder();
    let frame = receiving.encode_bytes(vec![1], b"abc".to_vec());
    assert_eq!(parts(&mut receiving, &frame), Ok(vec![(b"\x01abc".to_vec(), b"//f".to_vec())]));
}

#[test]
fn frames_are_found_in_order() {
    let found = parts(&mut encoder(), b"..\\\\fone//f..\\\\ftwo//f\\\\fth").unwrap();
    assert_eq!(
        found,
        vec![
            (b"one".to_vec(), b"//f..\\\\ftwo//f\\\\fth".to_vec()),
            (b"two".to_vec(), b"//f\\\\fth".to_vec()),
        ]
    );
}

#[test]
fn a_frame_that_does_not_begin_is_not_found() {
    assert_eq!(parts(&mut encoder(), b"one//f"), Err(FileFrameStatus::FrameNoBegins));
    assert_eq!(parts(&mut encoder(), b""), Err(FileFrameStatus::FrameNoBegins));
}

#[test]
fn a_frame_that_does_not_end_is_kept() {
    let mut receiving = encoder();
    assert_eq!(parts(&mut receiving, b"\\\\fabcdef"), Err(FileFrameStatus::FrameNoEnds));
    assert_eq!(receiving.get_chunks(), b"abc".to_vec());
    assert_eq!(receiving.get_remainder(), Vec::<u8>::new());
    assert!(receiving.collect_buffer);
    let mut receiving = encoder();
    assert_eq!(parts(&mut receiving, b".\\\\fabcdef"), Err(FileFrameStatus::FrameNoEnds));
    assert_eq!(receiving.get_chunks(), b"abcdef".to_vec());
    assert_eq!(receiving.get_remainder(), b".".to_vec());
    let mut receiving = encoder();
    assert_eq!(parts(&mut receiving, b"...\\\\fabcd"), Err(FileFrameStatus::FrameNoEnds));
    assert_eq!(receiving.get_chunks(), b"a".to_vec());
}

#[test]
fn a_collecting_encoder_ignores_what_arrives() {
    let mut receiving = encoder();
    receiving.file_chunks = b"one//f\\\\ftwo//f".to_vec();
    receiving.collect_buffer = true;
    assert_eq!(
        parts(&mut receiving, b"anything"),
        Ok(vec![
            (b"one".to_vec(), b"//f\\\\ftwo//f".to_vec()),
            (b"two".to_vec(), b"//f".to_vec()),
        ])
    );
    assert!(!receiving.collect_buffer);
}

#[test]
fn without_an_ending_delimiter_a_frame_is_all_there_is() {
    let mut receiving = FrameEncoder::new(Some(b"<".to_vec()), None, None);
    assert_eq!(parts(&mut receiving, b"a<b<c"), Ok(vec![(b"b<c".to_vec(), Vec::new())]));
}

#[test]
fn without_a_starting_delimiter_nothing_is_found() {
    let mut receiving = FrameEncoder::new(None, Some(b">".to_vec()), None);
    assert_eq!(parts(&mut receiving, b"a>b"), Err(FileFrameStatus::FrameNoEnds));
}

#[test]
fn what_is_left_comes_before_what_arrives() {
    let mut receiving = encoder();
    receiving.set_chunks(b"\\\\fon".to_vec());
    assert_eq!(parts(&mut receiving, b"e//f"), Ok(vec![(b"one".to_vec(), b"//f".to_vec())]));
    let copy = receiving.clone();
    assert_eq!(copy.get_chunks(), receiving.get_chunks());
    assert_eq!(copy.get_remainder(), receiving.get_remainder());
}

#[test]
fn escaping_keeps_contents_apart() {
    let escaping = FrameEncoder::new(Some(b"<s".to_vec()), Some(b">e".to_vec()), Some(b'!'));
    let sent = |content: &[u8]| escaping.encode_bytes(Vec::new(), content.to_vec());
    assert_eq!(sent(b"!<"), b"<s!!<>e".to_vec());
    assert_eq!(sent(b"<"), b"<s!<>e".to_vec());
    assert_eq!(sent(b"!!<"), b"<s!!!<>e".to_vec());
    assert_eq!(sent(b"plain!"), b"<splain!>e".to_vec());
}
