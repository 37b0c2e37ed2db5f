use bpm_capture::capture::CaptureBuffer;
use bpm_capture::pipe::{CapturePipe, SendError};
use bpm_capture::session::{CaptureAction, CaptureSession, CaptureState, WaitOutcome};

#[test]
fn append_keeps_order() {
    let mut b = CaptureBuffer::new();
    b.append(&[1, 2, 3]);
    b.append(&[]);
    b.append(&[4, 5]);
    assert_eq!(b.len(), 5);
    assert_eq!(b.to_vec(), vec![1, 2, 3, 4, 5]);
}

#[test]
fn drain_cuts_chunks_in_order() {
    let mut b = CaptureBuffer::with_capacity(16);
    let data: Vec<u8> = (1..=10).collect();
    b.append(&data);
    let chunks = b.drain_chunks(3);
    assert_eq!(chunks, vec![vec![1, 2, 3], vec![4, 5, 6], vec![7, 8, 9]]);
    assert_eq!(b.to_vec(), vec![10]);
    let mut joined: Vec<u8> = chunks.concat();
    joined.extend(b.to_vec());
    assert_eq!(joined, data);
}

#[test]
fn drain_keeps_an_exact_chunk() {
    let mut b = CaptureBuffer::new();
    b.append(&[1, 2, 3, 4, 5, 6]);
    let chunks = b.drain_chunks(3);
    assert_eq!(chunks, vec![vec![1, 2, 3]]);
    assert_eq!(b.to_vec(), vec![4, 5, 6]);
    assert!(b.drain_chunks(3).is_empty());
    assert!(CaptureBuffer::new().drain_chunks(4).is_empty());
}

#[test]
fn next_chunk_only_when_more_than_a_chunk() {
    let mut b = CaptureBuffer::new();
    b.append(&[9, 8, 7]);
    assert_eq!(b.next_chunk(3), None);
    assert_eq!(b.next_chunk(2), Some(vec![9, 8]));
    assert_eq!(b.to_vec(), vec![7]);
}

#[test]
fn pipe_of_two_holds_back_the_third_chunk() {
    let mut p = CapturePipe::new(2);
    assert_eq!(p.capacity(), 2);
    assert!(p.try_send(vec![1]).is_ok());
    assert!(p.try_send(vec![2]).is_ok());
    match p.try_send(vec![3]) {
        Err(SendError::Full(c)) => assert_eq!(c, vec![3]),
        other => panic!("expected a full pipe, got {:?}", other),
    }
    assert_eq!(p.len(), 2);
    assert_eq!(p.try_recv(), Some(vec![1]));
    assert!(p.try_send(vec![3]).is_ok());
    assert_eq!(p.try_recv(), Some(vec![2]));
    assert_eq!(p.try_recv(), Some(vec![3]));
    assert_eq!(p.try_recv(), None);
}

#[test]
fn closed_pipe_refuses_and_drains() {
    let mut p = CapturePipe::new(2);
    assert!(p.try_send(vec![5, 6]).is_ok());
    p.close();
    assert!(p.is_closed());
    match p.try_send(vec![7]) {
        Err(SendError::Closed(c)) => assert_eq!(c, vec![7]),
        other => panic!("expected a closed pipe, got {:?}", other),
    }
    assert!(!p.is_finished());
    assert_eq!(p.try_recv(), Some(vec![5, 6]));
    assert!(p.is_finished());
}

#[test]
fn session_cycles_through_its_states() {
    let mut s = CaptureSession::new(2, 64);
    assert_eq!(s.state(), CaptureState::Draining);
    assert!(matches!(s.next_action(), CaptureAction::ReadDevice));
    assert_eq!(s.state(), CaptureState::Buffering);
    s.on_read(&[1, 2, 3, 4, 5]);
    assert_eq!(s.state(), CaptureState::WaitingForDevice);
    assert!(matches!(s.next_action(), CaptureAction::WaitForDevice));
    s.on_wait(WaitOutcome::TimedOut);
    assert_eq!(s.state(), CaptureState::WaitingForDevice);
    s.on_wait(WaitOutcome::Ready);
    assert_eq!(s.state(), CaptureState::Draining);
    match s.next_action() {
        CaptureAction::SendChunk(c) => assert_eq!(c, vec![1, 2]),
        other => panic!("expected a chunk, got {:?}", other),
    }
    match s.next_action() {
        CaptureAction::SendChunk(c) => assert_eq!(c, vec![3, 4]),
        other => panic!("expected a chunk, got {:?}", other),
    }
    assert!(matches!(s.next_action(), CaptureAction::ReadDevice));
    assert_eq!(s.buffered_len(), 1);
}

#[test]
fn session_stops_on_device_failure() {
    let mut s = CaptureSession::new(4, 0);
    s.next_action();
    s.on_read(&[]);
    s.on_wait(WaitOutcome::Failed);
    assert_eq!(s.state(), CaptureState::FatalError);
    assert!(matches!(s.next_action(), CaptureAction::Stop));
    s.on_wait(WaitOutcome::Ready);
    assert_eq!(s.state(), CaptureState::FatalError);
}

#[test]
fn session_failure_ends_capture() {
    let mut s = CaptureSession::new(4, 0);
    s.on_failure();
    assert!(matches!(s.next_action(), CaptureAction::Stop));
}
