use mailsync::errors::MailError;
use mailsync::pop::{
    is_success_pop, line_is_success, parse_stat, pass_command, quit_command, retr_command,
    retrieve_payload, stat_command, user_command, PopDirective, PopEvent, PopPhase, PopSession,
    StatReply,
};

#[test]
fn success_marker() {
    assert!(is_success_pop("+OK ready"));
    assert!(is_success_pop("+OK"));
    assert!(!is_success_pop("-ERR nope"));
    assert!(!is_success_pop("+O"));
    assert!(line_is_success(b"+OK 2 320"));
    assert!(!line_is_success(b"-ERR"));
}

#[test]
fn command_composition() {
    assert_eq!(user_command(b"alice@example.com"), b"user alice@example.com\r\n".to_vec());
    assert_eq!(pass_command(b"hunter2"), b"pass hunter2\r\n".to_vec());
    assert_eq!(stat_command(), b"stat\r\n".to_vec());
    assert_eq!(retr_command(42), b"retr 42\r\n".to_vec());
    assert_eq!(quit_command(), b"quit\r\n".to_vec());
}

#[test]
fn stat_parsing() {
    assert_eq!(
        parse_stat(b"+OK 6 120450".to_vec()),
        Ok(StatReply { count: 6, octets: 120450 })
    );
    // extra fields are ignored, as interactive servers append text
    assert_eq!(
        parse_stat(b"+OK 2 320 trailing".to_vec()),
        Ok(StatReply { count: 2, octets: 320 })
    );
    assert_eq!(
        parse_stat(b"+OK".to_vec()),
        Err(MailError::Protocol { reply: b"+OK".to_vec() })
    );
    assert_eq!(
        parse_stat(b"+OK x 1".to_vec()),
        Err(MailError::Protocol { reply: b"+OK x 1".to_vec() })
    );
}

#[test]
fn retrieve_payload_joins_with_lf() {
    let lines = vec![b"+OK 13 octets".to_vec(), b"header: v".to_vec(), b"".to_vec(), b"body".to_vec()];
    assert_eq!(retrieve_payload(lines), Ok(b"header: v\n\nbody".to_vec()));
    assert_eq!(
        retrieve_payload(vec![b"-ERR gone".to_vec()]),
        Err(MailError::Protocol { reply: b"-ERR gone".to_vec() })
    );
    assert_eq!(
        retrieve_payload(Vec::new()),
        Err(MailError::Protocol { reply: Vec::new() })
    );
}

#[test]
fn download_session_walkthrough() {
    let mut s = PopSession::new(b"alice@example.com");
    assert_eq!(s.outgoing, b"user alice@example.com\r\n".to_vec());

    assert_eq!(s.next(PopEvent::CommandSent), PopDirective::ReadLine);
    assert_eq!(
        s.next(PopEvent::LineReceived { line: b"+OK".to_vec() }),
        PopDirective::ResolveSecret
    );
    assert_eq!(
        s.next(PopEvent::SecretResolved { secret: b"pw".to_vec() }),
        PopDirective::WriteOutgoing
    );
    assert_eq!(s.outgoing, b"pass pw\r\n".to_vec());
    assert_eq!(s.next(PopEvent::CommandSent), PopDirective::ReadLine);
    // the pass command was wiped after sending
    assert!(s.outgoing.is_empty());
    assert_eq!(
        s.next(PopEvent::LineReceived { line: b"+OK logged in".to_vec() }),
        PopDirective::WriteOutgoing
    );
    assert_eq!(s.outgoing, b"stat\r\n".to_vec());
    assert_eq!(s.next(PopEvent::CommandSent), PopDirective::ReadLine);
    assert_eq!(
        s.next(PopEvent::LineReceived { line: b"+OK 2 640".to_vec() }),
        PopDirective::ScanMaildir
    );
    assert_eq!(s.stat, Some(StatReply { count: 2, octets: 640 }));

    // local high-water mark 0: fetch 1 and 2, in that order
    assert_eq!(s.next(PopEvent::LocalScanned { high: 0 }), PopDirective::WriteOutgoing);
    assert_eq!(s.outgoing, b"retr 1\r\n".to_vec());
    assert_eq!(s.next(PopEvent::CommandSent), PopDirective::ReadBlock);
    let block = vec![b"+OK".to_vec(), b"mail one".to_vec()];
    assert_eq!(
        s.next(PopEvent::BlockReceived { block_lines: block }),
        PopDirective::StoreMessage { index: 1 }
    );
    assert_eq!(s.payload, b"mail one".to_vec());
    assert_eq!(s.next(PopEvent::MessageStored), PopDirective::WriteOutgoing);
    assert_eq!(s.outgoing, b"retr 2\r\n".to_vec());
    assert_eq!(s.next(PopEvent::CommandSent), PopDirective::ReadBlock);
    let block = vec![b"+OK".to_vec(), b"mail two".to_vec()];
    assert_eq!(
        s.next(PopEvent::BlockReceived { block_lines: block }),
        PopDirective::StoreMessage { index: 2 }
    );
    assert_eq!(s.next(PopEvent::MessageStored), PopDirective::WriteOutgoing);
    assert_eq!(s.outgoing, b"quit\r\n".to_vec());
    assert_eq!(s.next(PopEvent::CommandSent), PopDirective::ReadLine);
    assert_eq!(
        s.next(PopEvent::LineReceived { line: b"+OK bye".to_vec() }),
        PopDirective::Finished
    );
    assert_eq!(s.phase, PopPhase::Closed);
    assert!(s.error.is_none());
}

#[test]
fn no_new_messages_goes_straight_to_quit() {
    let mut s = PopSession::new(b"a@b.co");
    s.next(PopEvent::CommandSent);
    s.next(PopEvent::LineReceived { line: b"+OK".to_vec() });
    s.next(PopEvent::SecretResolved { secret: b"pw".to_vec() });
    s.next(PopEvent::CommandSent);
    s.next(PopEvent::LineReceived { line: b"+OK".to_vec() });
    s.next(PopEvent::CommandSent);
    s.next(PopEvent::LineReceived { line: b"+OK 3 90".to_vec() });
    assert_eq!(s.next(PopEvent::LocalScanned { high: 3 }), PopDirective::WriteOutgoing);
    assert_eq!(s.outgoing, b"quit\r\n".to_vec());
}

#[test]
fn auth_failure_surfaces_literal_reply() {
    // a rejected pass reply yields an auth error carrying the exact
    // text, and no retrieval is ever attempted
    let mut s = PopSession::new(b"alice@example.com");
    s.next(PopEvent::CommandSent);
    s.next(PopEvent::LineReceived { line: b"+OK".to_vec() });
    s.next(PopEvent::SecretResolved { secret: b"wrong".to_vec() });
    s.next(PopEvent::CommandSent);
    let d = s.next(PopEvent::LineReceived { line: b"-ERR invalid".to_vec() });
    assert_eq!(d, PopDirective::Aborted);
    assert_eq!(s.phase, PopPhase::Failed);
    assert_eq!(s.error, Some(MailError::Auth { reply: b"-ERR invalid".to_vec() }));
    // the machine is terminal: whatever else happens, it only aborts
    assert_eq!(
        s.next(PopEvent::LineReceived { line: b"+OK 9 9".to_vec() }),
        PopDirective::Aborted
    );
    assert_eq!(s.next(PopEvent::MessageStored), PopDirective::Aborted);
}

#[test]
fn user_rejection_is_auth_error() {
    let mut s = PopSession::new(b"alice@example.com");
    s.next(PopEvent::CommandSent);
    let d = s.next(PopEvent::LineReceived { line: b"-ERR no such user".to_vec() });
    assert_eq!(d, PopDirective::Aborted);
    assert_eq!(s.error, Some(MailError::Auth { reply: b"-ERR no such user".to_vec() }));
}

#[test]
fn local_exceeding_remote_aborts_session() {
    let mut s = PopSession::new(b"a@b.co");
    s.next(PopEvent::CommandSent);
    s.next(PopEvent::LineReceived { line: b"+OK".to_vec() });
    s.next(PopEvent::SecretResolved { secret: b"pw".to_vec() });
    s.next(PopEvent::CommandSent);
    s.next(PopEvent::LineReceived { line: b"+OK".to_vec() });
    s.next(PopEvent::CommandSent);
    s.next(PopEvent::LineReceived { line: b"+OK 3 90".to_vec() });
    let d = s.next(PopEvent::LocalScanned { high: 5 });
    assert_eq!(d, PopDirective::Aborted);
    assert_eq!(s.error, Some(MailError::Consistency { local: 5, remote: 3 }));
}

#[test]
fn malformed_stat_is_protocol_error() {
    let mut s = PopSession::new(b"a@b.co");
    s.next(PopEvent::CommandSent);
    s.next(PopEvent::LineReceived { line: b"+OK".to_vec() });
    s.next(PopEvent::SecretResolved { secret: b"pw".to_vec() });
    s.next(PopEvent::CommandSent);
    s.next(PopEvent::LineReceived { line: b"+OK".to_vec() });
    s.next(PopEvent::CommandSent);
    let d = s.next(PopEvent::LineReceived { line: b"-ERR locked".to_vec() });
    assert_eq!(d, PopDirective::Aborted);
    assert_eq!(s.error, Some(MailError::Protocol { reply: b"-ERR locked".to_vec() }));
}
