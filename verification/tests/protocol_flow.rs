use drop_backend::chunks::{ChunkInfo, FileMetadata, FileTransfer};
use drop_backend::errors::DropError;
use drop_backend::protocol::{
    ChunkReceipt, Receiver, Sender, TransferCommand, TransferState,
};

fn patterned(len: usize) -> Vec<u8> {
    (0..len).map(|i| (i % 251) as u8).collect()
}

fn open_transfer(data: Vec<u8>, chunk_size: usize) -> (Sender, Receiver, FileMetadata) {
    let ft = FileTransfer::with_chunk_size("file.bin".to_string(), data, chunk_size);
    let mut sender = Sender::new(ft);
    let cmd = sender.start().unwrap();
    let meta = match cmd {
        TransferCommand::StartTransfer(m) => m,
        _ => panic!("sender must open with StartTransfer"),
    };
    let mut receiver = Receiver::new(chunk_size);
    receiver.on_start(meta.clone()).unwrap();
    (sender, receiver, meta)
}

#[test]
fn test_transfer_round_trip() {
    let data = patterned(1000);
    let (mut sender, mut receiver, meta) = open_transfer(data.clone(), 128);
    assert_eq!(meta.chunks.len(), 8);
    assert_eq!(sender.state, TransferState::Transferring);
    assert_eq!(receiver.state, TransferState::Transferring);

    for index in receiver.pending_requests() {
        let reply = sender.on_request(index).unwrap();
        match reply {
            TransferCommand::SendChunk(i, bytes) => {
                assert_eq!(i, index);
                let receipt = receiver.on_send_chunk(i, bytes).unwrap();
                assert_eq!(receipt, ChunkReceipt::Stored);
            }
            _ => panic!("sender must answer with SendChunk"),
        }
    }
    assert!(receiver.is_complete());
    assert!(receiver.pending_requests().is_empty());

    let done = sender.finish().unwrap();
    assert!(matches!(done, TransferCommand::Complete));
    assert_eq!(sender.state, TransferState::Completed);

    receiver.on_complete().unwrap();
    assert_eq!(receiver.state, TransferState::Completed);
    assert_eq!(receiver.transfer.content(), &data);
}

#[test]
fn test_replay_of_verified_chunk_changes_nothing() {
    let data = patterned(300);
    let (mut sender, mut receiver, _meta) = open_transfer(data.clone(), 100);

    let bytes = match sender.on_request(1).unwrap() {
        TransferCommand::SendChunk(_, b) => b,
        _ => panic!(),
    };
    assert_eq!(
        receiver.on_send_chunk(1, bytes.clone()).unwrap(),
        ChunkReceipt::Stored
    );
    let snapshot = receiver.transfer.content().clone();

    // Replaying the same delivery is ignored and corrupts nothing.
    assert_eq!(
        receiver.on_send_chunk(1, bytes).unwrap(),
        ChunkReceipt::AlreadyVerified
    );
    assert_eq!(receiver.transfer.content(), &snapshot);

    // Even a differing replay for a verified index is ignored.
    assert_eq!(
        receiver.on_send_chunk(1, vec![0u8; 100]).unwrap(),
        ChunkReceipt::AlreadyVerified
    );
    assert_eq!(receiver.transfer.content(), &snapshot);
}

#[test]
fn test_corrupt_chunk_is_retried_then_fails() {
    let data = patterned(300);
    let (mut sender, mut receiver, _meta) = open_transfer(data, 100);

    let mut bytes = match sender.on_request(0).unwrap() {
        TransferCommand::SendChunk(_, b) => b,
        _ => panic!(),
    };
    bytes[50] = bytes[50].wrapping_add(1);

    for _ in 0..3 {
        let receipt = receiver.on_send_chunk(0, bytes.clone()).unwrap();
        assert_eq!(receipt, ChunkReceipt::RetryRequested);
        assert_eq!(receiver.state, TransferState::Transferring);
    }
    // The bounded retries are exhausted: the transfer fails for integrity.
    let err = receiver.on_send_chunk(0, bytes).unwrap_err();
    assert!(matches!(err, DropError::IntegrityFailure(_)));
    assert_eq!(receiver.state, TransferState::Errored);
}

#[test]
fn test_incomplete_file_fails_whole_file_check() {
    let data = patterned(300);
    let (mut sender, mut receiver, _meta) = open_transfer(data, 100);

    for index in [0u32, 1] {
        let bytes = match sender.on_request(index).unwrap() {
            TransferCommand::SendChunk(_, b) => b,
            _ => panic!(),
        };
        receiver.on_send_chunk(index, bytes).unwrap();
    }
    assert!(!receiver.is_complete());
    let err = receiver.on_complete().unwrap_err();
    assert!(matches!(err, DropError::IntegrityFailure(_)));
    assert_eq!(receiver.state, TransferState::Errored);
}

#[test]
fn test_unsafe_destination_names_rejected() {
    for bad in ["", ".", "..", "a/b", "a\\b", "../etc"] {
        let mut ft = FileTransfer::with_chunk_size(bad.to_string(), b"xy".to_vec(), 16);
        let meta = ft.prepare_metadata();
        let mut receiver = Receiver::new(16);
        let err = receiver.on_start(meta).unwrap_err();
        assert!(matches!(err, DropError::ProtocolViolation(_)));
        assert_eq!(receiver.state, TransferState::AwaitingMetadata);
    }
    let mut ft = FileTransfer::with_chunk_size("fine.bin".to_string(), b"xy".to_vec(), 16);
    let meta = ft.prepare_metadata();
    let mut receiver = Receiver::new(16);
    assert!(receiver.on_start(meta).is_ok());
}

#[test]
fn test_inconsistent_manifest_rejected() {
    // A manifest whose chunk list does not cover its size is refused.
    let meta = FileMetadata {
        name: "x.bin".to_string(),
        size: 100,
        hash: "00".to_string(),
        chunks: vec![ChunkInfo {
            index: 0,
            size: 10,
            hash: "00".to_string(),
        }],
    };
    let mut receiver = Receiver::new(16);
    let err = receiver.on_start(meta).unwrap_err();
    assert!(matches!(err, DropError::ProtocolViolation(_)));
}

#[test]
fn test_commands_out_of_sequence() {
    let mut receiver = Receiver::new(16);
    let err = receiver.on_send_chunk(0, vec![1, 2, 3]).unwrap_err();
    assert!(matches!(err, DropError::ProtocolViolation(_)));
    let err = receiver.on_complete().unwrap_err();
    assert!(matches!(err, DropError::ProtocolViolation(_)));

    let ft = FileTransfer::with_chunk_size("y".to_string(), b"abc".to_vec(), 16);
    let mut sender = Sender::new(ft);
    let err = sender.on_request(0).unwrap_err();
    assert!(matches!(err, DropError::ProtocolViolation(_)));
    let err = sender.finish().unwrap_err();
    assert!(matches!(err, DropError::ProtocolViolation(_)));
    // Opening twice is refused too.
    sender.start().unwrap();
    let err = sender.start().unwrap_err();
    assert!(matches!(err, DropError::ProtocolViolation(_)));
}

#[test]
fn test_chunk_index_out_of_range_rejected() {
    let data = patterned(300);
    let (_sender, mut receiver, _meta) = open_transfer(data, 100);
    let err = receiver.on_send_chunk(3, vec![0u8; 100]).unwrap_err();
    assert!(matches!(err, DropError::ProtocolViolation(_)));
}

#[test]
fn test_cancel_is_prompt_and_idempotent() {
    let data = patterned(300);
    let (mut sender, mut receiver, _meta) = open_transfer(data, 100);

    assert!(receiver.cancel().is_ok());
    assert_eq!(receiver.state, TransferState::Errored);
    // A second teardown does not panic; it reports the channel closed.
    let err = receiver.cancel().unwrap_err();
    assert!(matches!(err, DropError::TransportFailure(_)));
    assert_eq!(receiver.state, TransferState::Errored);

    assert!(sender.cancel().is_ok());
    assert_eq!(sender.state, TransferState::Errored);
    let err = sender.cancel().unwrap_err();
    assert!(matches!(err, DropError::TransportFailure(_)));
}

#[test]
fn test_peer_error_forces_errored() {
    let data = patterned(300);
    let (mut sender, mut receiver, _meta) = open_transfer(data, 100);
    receiver.on_error();
    assert_eq!(receiver.state, TransferState::Errored);
    // No chunk traffic is valid afterwards.
    let err = receiver.on_send_chunk(0, vec![0u8; 100]).unwrap_err();
    assert!(matches!(err, DropError::ProtocolViolation(_)));

    let cmd = sender.abort("peer gone".to_string());
    match cmd {
        TransferCommand::Error(message) => assert_eq!(message, "peer gone"),
        _ => panic!("abort must emit Error"),
    }
    assert_eq!(sender.state, TransferState::Errored);
}

#[test]
fn test_error_message_accessor() {
    let e = DropError::ProtocolViolation("session not found".to_string());
    assert_eq!(e.message(), "session not found");
    let e = DropError::IoFailure("open failed".to_string());
    assert_eq!(e.message(), "open failed");
    let e = DropError::TransportFailure("closed".to_string());
    assert_eq!(e.message(), "closed");
    let e = DropError::IntegrityFailure("mismatch".to_string());
    assert_eq!(e.message(), "mismatch");
}
