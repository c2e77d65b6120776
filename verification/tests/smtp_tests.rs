use mailsync::errors::MailError;
use mailsync::smtp::{
    auth_login_command, b64_line, data_command, ehlo_command, mail_from_command, rcpt_command,
    reply_text, terminator, SmtpDirective, SmtpEvent, SmtpPhase, SmtpSession, CHUNK,
};

#[test]
fn base64_credential_lines() {
    // known vectors for the standard padded alphabet
    assert_eq!(b64_line(b"user"), b"dXNlcg==\r\n".to_vec());
    assert_eq!(b64_line(b"a"), b"YQ==\r\n".to_vec());
    assert_eq!(b64_line(b"ab"), b"YWI=\r\n".to_vec());
    assert_eq!(b64_line(b"abc"), b"YWJj\r\n".to_vec());
    assert_eq!(b64_line(b""), b"\r\n".to_vec());
    assert_eq!(
        b64_line(b"alice@example.com:hunter2"),
        b"YWxpY2VAZXhhbXBsZS5jb206aHVudGVyMg==\r\n".to_vec()
    );
}

#[test]
fn smtp_command_composition() {
    assert_eq!(ehlo_command(b"mail.example.com"), b"ehlo mail.example.com\r\n".to_vec());
    assert_eq!(auth_login_command(), b"auth login\r\n".to_vec());
    assert_eq!(
        mail_from_command(b"alice@example.com"),
        b"mail from:<alice@example.com>\r\n".to_vec()
    );
    assert_eq!(rcpt_command(b"bob@example.org"), b"rcpt to:<bob@example.org>\r\n".to_vec());
    assert_eq!(data_command(), b"data\r\n".to_vec());
    assert_eq!(terminator(), b"\r\n.\r\n".to_vec());
}

#[test]
fn reply_text_joins_segments() {
    assert_eq!(reply_text(b"250-x\r\n250 y\r\n"), b"250-x\n250 y".to_vec());
    assert_eq!(reply_text(b"220 hello"), b"220 hello".to_vec());
}

fn authenticated_session(recipients: Vec<Vec<u8>>) -> SmtpSession {
    let mut s = SmtpSession::new(
        b"mail.example.com",
        b"alice@example.com".to_vec(),
        b"alice@example.com".to_vec(),
        recipients,
    );
    assert_eq!(s.outgoing, b"ehlo mail.example.com\r\n".to_vec());
    s.next(SmtpEvent::CommandSent);
    s.next(SmtpEvent::ReplyReceived { line: b"250 hi".to_vec() });
    assert_eq!(s.outgoing, b"auth login\r\n".to_vec());
    s.next(SmtpEvent::CommandSent);
    s.next(SmtpEvent::ReplyReceived { line: b"334 VXNlcm5hbWU6".to_vec() });
    assert_eq!(s.outgoing, b"YWxpY2VAZXhhbXBsZS5jb20=\r\n".to_vec());
    s.next(SmtpEvent::CommandSent);
    let d = s.next(SmtpEvent::ReplyReceived { line: b"334 UGFzc3dvcmQ6".to_vec() });
    assert_eq!(d, SmtpDirective::ResolveSecret);
    s.next(SmtpEvent::SecretResolved { secret: b"hunter2".to_vec() });
    assert_eq!(s.outgoing, b"aHVudGVyMg==\r\n".to_vec());
    s.next(SmtpEvent::CommandSent);
    // the credential line was wiped after sending
    assert!(s.outgoing.is_empty());
    s.next(SmtpEvent::ReplyReceived { line: b"235 ok".to_vec() });
    assert_eq!(s.outgoing, b"mail from:<alice@example.com>\r\n".to_vec());
    s
}

#[test]
fn submission_walkthrough() {
    let mut s = authenticated_session(vec![b"bob@example.org".to_vec(), b"carol@example.org".to_vec()]);
    s.next(SmtpEvent::CommandSent);
    s.next(SmtpEvent::ReplyReceived { line: b"250 sender ok".to_vec() });
    assert_eq!(s.outgoing, b"rcpt to:<bob@example.org>\r\n".to_vec());
    s.next(SmtpEvent::CommandSent);
    s.next(SmtpEvent::ReplyReceived { line: b"250 ok".to_vec() });
    assert_eq!(s.outgoing, b"rcpt to:<carol@example.org>\r\n".to_vec());
    s.next(SmtpEvent::CommandSent);
    let d = s.next(SmtpEvent::ReplyReceived { line: b"250 ok".to_vec() });
    assert_eq!(d, SmtpDirective::ProvideBody);
    s.next(SmtpEvent::BodyProvided { data: b"Subject: hi\r\n\r\nhello".to_vec() });
    assert_eq!(s.outgoing, b"data\r\n".to_vec());
    s.next(SmtpEvent::CommandSent);
    s.next(SmtpEvent::ReplyReceived { line: b"354 go ahead".to_vec() });
    assert_eq!(s.outgoing, b"Subject: hi\r\n\r\nhello".to_vec());
    s.next(SmtpEvent::CommandSent);
    assert_eq!(s.outgoing, b"\r\n.\r\n".to_vec());
    s.next(SmtpEvent::CommandSent);
    s.next(SmtpEvent::ReplyReceived { line: b"250 queued".to_vec() });
    assert_eq!(s.outgoing, b"quit\r\n".to_vec());
    s.next(SmtpEvent::CommandSent);
    let d = s.next(SmtpEvent::ReplyReceived { line: b"221 bye".to_vec() });
    assert_eq!(d, SmtpDirective::Finished);
    assert_eq!(s.phase, SmtpPhase::Closed);
}

#[test]
fn body_is_streamed_in_bounded_chunks() {
    let mut s = authenticated_session(vec![b"bob@example.org".to_vec()]);
    s.next(SmtpEvent::CommandSent);
    s.next(SmtpEvent::ReplyReceived { line: b"250".to_vec() });
    s.next(SmtpEvent::CommandSent);
    s.next(SmtpEvent::ReplyReceived { line: b"250".to_vec() });
    let body: Vec<u8> = (0..2500u32).map(|i| (i % 251) as u8).collect();
    s.next(SmtpEvent::BodyProvided { data: body.clone() });
    s.next(SmtpEvent::CommandSent);
    s.next(SmtpEvent::ReplyReceived { line: b"354".to_vec() });
    let mut sent: Vec<u8> = Vec::new();
    while s.outgoing != b"\r\n.\r\n".to_vec() {
        assert!(s.outgoing.len() <= CHUNK);
        assert!(!s.outgoing.is_empty());
        sent.extend_from_slice(&s.outgoing);
        s.next(SmtpEvent::CommandSent);
    }
    assert_eq!(sent, body);
}

#[test]
fn rejected_envelope_surfaces_reply() {
    let mut s = authenticated_session(vec![b"bob@example.org".to_vec()]);
    s.next(SmtpEvent::CommandSent);
    let d = s.next(SmtpEvent::ReplyReceived { line: b"550 relay denied".to_vec() });
    assert_eq!(d, SmtpDirective::Aborted);
    assert_eq!(s.phase, SmtpPhase::Failed);
    assert_eq!(s.error, Some(MailError::Protocol { reply: b"550 relay denied".to_vec() }));
}

#[test]
fn rejected_recipient_surfaces_reply() {
    let mut s = authenticated_session(vec![b"bob@example.org".to_vec()]);
    s.next(SmtpEvent::CommandSent);
    s.next(SmtpEvent::ReplyReceived { line: b"250 ok".to_vec() });
    s.next(SmtpEvent::CommandSent);
    let d = s.next(SmtpEvent::ReplyReceived { line: b"550 unknown".to_vec() });
    assert_eq!(d, SmtpDirective::Aborted);
    assert_eq!(s.error, Some(MailError::Protocol { reply: b"550 unknown".to_vec() }));
}

#[test]
fn empty_body_goes_straight_to_terminator() {
    let mut s = authenticated_session(vec![b"bob@example.org".to_vec()]);
    s.next(SmtpEvent::CommandSent);
    s.next(SmtpEvent::ReplyReceived { line: b"250".to_vec() });
    s.next(SmtpEvent::CommandSent);
    s.next(SmtpEvent::ReplyReceived { line: b"250".to_vec() });
    s.next(SmtpEvent::BodyProvided { data: Vec::new() });
    s.next(SmtpEvent::CommandSent);
    s.next(SmtpEvent::ReplyReceived { line: b"354".to_vec() });
    assert_eq!(s.outgoing, b"\r\n.\r\n".to_vec());
}
