use thor::observers::ObserverSet;
use thor::protocol::{
    encode_frame, frame_batch, needs_blocking_write, parse_repo_request, repo_request_complete,
    split_frames, ConnectionType, FrameError, RepoRequest, SetupError,
};

#[test]
fn connection_tags() {
    assert_eq!(ConnectionType::from_tag(0), ConnectionType::ProcessUnderTest);
    assert_eq!(ConnectionType::from_tag(1), ConnectionType::Client);
    assert_eq!(ConnectionType::from_tag(200), ConnectionType::Client);
    assert_eq!(ConnectionType::ProcessUnderTest.tag(), 0);
    assert_eq!(ConnectionType::Client.tag(), 1);
}

#[test]
fn frames_split_and_keep_partial_tail() {
    let data = vec![2, 10, 11, 0, 3, 1, 2, 3, 4, 9];
    let (frames, used) = split_frames(&data);
    assert_eq!(frames, vec![vec![10, 11], vec![], vec![1, 2, 3]]);
    assert_eq!(used, 8);
    let (none, zero) = split_frames(&vec![]);
    assert!(none.is_empty());
    assert_eq!(zero, 0);
}

#[test]
fn frame_round_trip() {
    let payload: Vec<u8> = (0..255u8).collect();
    let framed = encode_frame(&payload).unwrap();
    assert_eq!(framed.len(), 256);
    assert_eq!(framed[0], 255);
    let (frames, used) = split_frames(&framed);
    assert_eq!(frames, vec![payload]);
    assert_eq!(used, 256);
}

#[test]
fn oversized_frame_is_refused() {
    let payload = vec![7u8; 256];
    assert_eq!(encode_frame(&payload), Err(FrameError::PayloadTooLong));
    assert_eq!(encode_frame(&vec![]), Ok(vec![0]));
}

#[test]
fn batch_frame_has_big_endian_length() {
    let payload = vec![1u8; 0x0102];
    let framed = frame_batch(&payload).unwrap();
    assert_eq!(&framed[..4], &[0, 0, 1, 2]);
    assert_eq!(&framed[4..], &payload[..]);
    assert_eq!(frame_batch(&vec![]).unwrap(), vec![0, 0, 0, 0]);
}

#[test]
fn blocking_threshold() {
    assert!(!needs_blocking_write(1000));
    assert!(needs_blocking_write(1001));
    assert!(!needs_blocking_write(0));
}

#[test]
fn setup_request_completion() {
    assert!(!repo_request_complete(&b"none".to_vec()));
    assert!(repo_request_complete(&b"none#".to_vec()));
    assert!(repo_request_complete(&vec![b'x'; 1024]));
    assert!(!repo_request_complete(&vec![]));
}

#[test]
fn setup_request_kinds() {
    assert!(matches!(parse_repo_request(&b"none#".to_vec()), Ok(RepoRequest::ObserverOnly)));
    assert!(matches!(parse_repo_request(&b"#".to_vec()), Ok(RepoRequest::ObserverOnly)));
    assert!(matches!(parse_repo_request(&b"\0\0none\0#".to_vec()), Ok(RepoRequest::ObserverOnly)));
    match parse_repo_request(&b"\0https://host/r\xc3\xa9po.git main\0\0#".to_vec()) {
        Ok(RepoRequest::Build(r)) => assert_eq!(r, "https://host/répo.git main"),
        other => panic!("unexpected {:?}", other),
    }
    match parse_repo_request(&b"nonex#".to_vec()) {
        Ok(RepoRequest::Build(r)) => assert_eq!(r, "nonex"),
        other => panic!("unexpected {:?}", other),
    }
}

#[test]
fn setup_request_errors() {
    assert!(matches!(parse_repo_request(&b"none".to_vec()), Err(SetupError::Unterminated)));
    assert!(matches!(parse_repo_request(&vec![b'a'; 1024]), Err(SetupError::Unterminated)));
    assert!(matches!(parse_repo_request(&b"ab\xff#".to_vec()), Err(SetupError::InvalidUtf8)));
}

#[test]
fn failed_observer_is_pruned() {
    let mut set: ObserverSet<&str> = ObserverSet::new();
    let a = set.add("a").unwrap();
    let x = set.add("x").unwrap();
    let b = set.add("b").unwrap();
    assert_eq!(set.len(), 3);
    let dead = set.retain_delivered(&vec![true, false, true]);
    assert_eq!(dead, vec!["x"]);
    assert_eq!(set.len(), 2);
    assert_eq!((set.id_at(0), *set.connection(0)), (a, "a"));
    assert_eq!((set.id_at(1), *set.connection(1)), (b, "b"));
    // next cycle: x is gone, the others still receive
    let dead = set.retain_delivered(&vec![true, true]);
    assert!(dead.is_empty());
    assert_eq!(set.remove(x), None);
}

#[test]
fn session_removes_its_own_observer() {
    let mut set: ObserverSet<u32> = ObserverSet::new();
    let first = set.add(10).unwrap();
    let second = set.add(20).unwrap();
    assert_ne!(first, second);
    assert_eq!(set.remove(first), Some(10));
    assert_eq!(set.len(), 1);
    assert_eq!(*set.connection(0), 20);
    assert_eq!(set.remove(first), None);
}
