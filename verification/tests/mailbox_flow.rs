use drop_backend::errors::DropError;
use drop_backend::mailbox::{
    CreateSessionResponse, Mailbox, SignalingMessage, SESSION_CODE_LEN,
};

#[test]
fn test_create_session() {
    let mut mailbox = Mailbox::new();
    let session_id = mailbox.create_session().unwrap();
    assert!(!session_id.is_empty());
    assert_eq!(session_id.len(), SESSION_CODE_LEN);
    assert!(mailbox.contains_session(&session_id));
    let response = CreateSessionResponse { session_id };
    assert!(mailbox.contains_session(&response.session_id));
}

#[test]
fn test_create_session_twice_distinct() {
    let mut mailbox = Mailbox::new();
    let first = mailbox.create_session().unwrap();
    let second = mailbox.create_session().unwrap();
    assert_ne!(first, second);
    assert!(mailbox.contains_session(&first));
    assert!(mailbox.contains_session(&second));
}

#[test]
fn test_send_and_receive_signal() {
    let mut mailbox = Mailbox::new();
    let session_id = mailbox.create_session().unwrap();

    let signal_msg = SignalingMessage {
        message_type: "offer".to_string(),
        payload: "sdp_offer_payload".to_string(),
    };
    mailbox.send(&session_id, signal_msg.clone()).unwrap();

    let received_msgs = mailbox.receive(&session_id).unwrap();
    assert_eq!(received_msgs.len(), 1);
    assert_eq!(received_msgs[0].message_type, signal_msg.message_type);
    assert_eq!(received_msgs[0].payload, signal_msg.payload);

    // Messages are drained after receiving.
    let after = mailbox.receive(&session_id).unwrap();
    assert!(after.is_empty());
}

#[test]
fn test_receive_signal_no_messages() {
    let mut mailbox = Mailbox::new();
    let session_id = mailbox.create_session().unwrap();
    let received_msgs = mailbox.receive(&session_id).unwrap();
    assert!(received_msgs.is_empty());
}

#[test]
fn test_signal_to_invalid_session() {
    let mut mailbox = Mailbox::new();
    let invalid_session_id = "invalid-session-id".to_string();
    let signal_msg = SignalingMessage {
        message_type: "offer".to_string(),
        payload: "test".to_string(),
    };

    let err = mailbox.send(&invalid_session_id, signal_msg).unwrap_err();
    assert!(matches!(err, DropError::ProtocolViolation(_)));

    let err = mailbox.receive(&invalid_session_id).unwrap_err();
    assert!(matches!(err, DropError::ProtocolViolation(_)));
}

#[test]
fn test_receive_preserves_arrival_order() {
    let mut mailbox = Mailbox::new();
    let session_id = mailbox.create_session().unwrap();

    let m1 = SignalingMessage {
        message_type: "offer".to_string(),
        payload: "first".to_string(),
    };
    let m2 = SignalingMessage {
        message_type: "candidate".to_string(),
        payload: "second".to_string(),
    };
    mailbox.send(&session_id, m1).unwrap();
    mailbox.send(&session_id, m2).unwrap();

    let drained = mailbox.receive(&session_id).unwrap();
    assert_eq!(drained.len(), 2);
    assert_eq!(drained[0].message_type, "offer");
    assert_eq!(drained[0].payload, "first");
    assert_eq!(drained[1].message_type, "candidate");
    assert_eq!(drained[1].payload, "second");

    // A second immediate receive finds nothing.
    assert!(mailbox.receive(&session_id).unwrap().is_empty());
}

#[test]
fn test_sessions_are_independent() {
    let mut mailbox = Mailbox::new();
    let a = mailbox.create_session().unwrap();
    let b = mailbox.create_session().unwrap();

    mailbox
        .send(
            &a,
            SignalingMessage {
                message_type: "offer".to_string(),
                payload: "for-a".to_string(),
            },
        )
        .unwrap();

    // Draining one session leaves the other's queue untouched.
    assert!(mailbox.receive(&b).unwrap().is_empty());
    let got = mailbox.receive(&a).unwrap();
    assert_eq!(got.len(), 1);
    assert_eq!(got[0].payload, "for-a");
}

#[test]
fn test_session_code_alphabet() {
    let mut mailbox = Mailbox::new();
    // A fresh mailbox owes success: the first draw cannot collide.
    let id = mailbox.create_session().unwrap();
    assert_eq!(id.len(), SESSION_CODE_LEN);
    for c in id.chars() {
        assert!(c.is_ascii_uppercase() || c.is_ascii_digit());
    }
}
