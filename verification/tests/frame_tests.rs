use splinter_transport::transport::frame::{frame, unframe, FrameReader, HEADER_LEN};

#[test]
fn frame_layout() {
    assert_eq!(HEADER_LEN, 4);
    assert_eq!(frame(&[]), Ok(vec![0, 0, 0, 0]));
    assert_eq!(frame(&[0, 1, 2]), Ok(vec![0, 0, 0, 3, 0, 1, 2]));
    let long = vec![7u8; 0x1_02_03];
    let bytes = frame(&long).unwrap();
    assert_eq!(&bytes[..4], &[0, 1, 2, 3]);
    assert_eq!(bytes.len(), 4 + 0x1_02_03);
    assert_eq!(&bytes[4..], &long[..]);
}

#[test]
fn unframe_waits_for_the_whole_frame() {
    assert_eq!(unframe(&[]), None);
    assert_eq!(unframe(&[0, 0, 0]), None);
    assert_eq!(unframe(&[0, 0, 0, 2]), None);
    assert_eq!(unframe(&[0, 0, 0, 2, 9]), None);
    assert_eq!(unframe(&[0, 0, 0, 2, 9, 8]), Some((vec![9, 8], 6)));
    assert_eq!(unframe(&[0, 0, 0, 2, 9, 8, 7]), Some((vec![9, 8], 6)));
    assert_eq!(unframe(&[0, 0, 0, 0]), Some((vec![], 4)));
    assert_eq!(unframe(&[0, 0, 1, 0, 5]), None);
    assert_eq!(unframe(&[255, 255, 255, 255, 1, 2, 3]), None);
}

#[test]
fn frame_round_trip() {
    for payload in [vec![], vec![0u8], b"hello world".to_vec(), vec![255u8; 300]] {
        let bytes = frame(&payload).unwrap();
        assert_eq!(unframe(&bytes), Some((payload.clone(), payload.len() + 4)));
        for cut in 0..bytes.len() {
            assert_eq!(unframe(&bytes[..cut]), None);
        }
    }
}

#[test]
fn reader_reassembles_payloads_in_order() {
    let mut stream = frame(&[0, 1, 2]).unwrap();
    stream.extend(frame(&[3, 4, 5]).unwrap());
    stream.extend(frame(&[]).unwrap());

    let mut reader = FrameReader::new();
    assert_eq!(reader.len(), 0);
    assert_eq!(reader.next_frame(), None);
    // The stream yields its bytes in pieces that ignore the frames.
    reader.extend(&stream[..2]);
    assert_eq!(reader.next_frame(), None);
    assert_eq!(reader.len(), 2);
    reader.extend(&stream[2..9]);
    assert_eq!(reader.next_frame(), Some(vec![0, 1, 2]));
    assert_eq!(reader.len(), 2);
    assert_eq!(reader.next_frame(), None);
    reader.extend(&stream[9..]);
    assert_eq!(reader.next_frame(), Some(vec![3, 4, 5]));
    assert_eq!(reader.next_frame(), Some(vec![]));
    assert_eq!(reader.next_frame(), None);
    assert_eq!(reader.len(), 0);
}
