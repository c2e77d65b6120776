//! The SMTP submission driver: greet, authenticate over the `login`
//! mechanism with base64-encoded credentials, declare the envelope,
//! stream the message body in bounded chunks, terminate. Like the
//! POP3 driver it is a pure state machine: all I/O is directed to the
//! caller.
//!
//! The body is streamed as raw chunks with no per-line dot-stuffing,
//! as the wire behavior of this client has always been; a strict
//! server may misread a body line that begins with `.`.

use vstd::prelude::*;

use crate::errors::MailError;
use crate::lines::{join_lf, split_lines, split_lines_vec, join_with_lf, push_all, CR, DOT, LF};
use crate::secret::wipe_bytes;
use base64::Engine;

verus! {

/// The byte the standard base64 alphabet assigns to a six-bit value.
pub open spec fn b64_char(v: int) -> u8 {
    if v < 26 {
        (65 + v) as u8  // 'A'..'Z'
    } else if v < 52 {
        (97 + v - 26) as u8  // 'a'..'z'
    } else if v < 62 {
        (48 + v - 52) as u8  // '0'..'9'
    } else if v == 62 {
        43u8  // '+'
    } else {
        47u8  // '/'
    }
}

/// Standard base64 with `=` padding: three input bytes become four
/// alphabet bytes; a short final group is padded.
pub open spec fn base64_of(s: Seq<u8>) -> Seq<u8>
    decreases s.len(),
{
    if s.len() == 0 {
        seq![]
    } else if s.len() == 1 {
        let a = s[0];
        seq![
            b64_char((a >> 2) as int),
            b64_char(((a & 3) << 4) as int),
            61u8,
            61u8,
        ]
    } else if s.len() == 2 {
        let a = s[0];
        let b = s[1];
        seq![
            b64_char((a >> 2) as int),
            b64_char((((a & 3) << 4) | (b >> 4)) as int),
            b64_char(((b & 15) << 2) as int),
            61u8,
        ]
    } else {
        let a = s[0];
        let b = s[1];
        let c = s[2];
        seq![
            b64_char((a >> 2) as int),
            b64_char((((a & 3) << 4) | (b >> 4)) as int),
            b64_char((((b & 15) << 2) | (c >> 6)) as int),
            b64_char((c & 63) as int),
        ] + base64_of(s.skip(3))
    }
}

/// Relies on `base64::Engine::encode` with
/// `base64::engine::general_purpose::STANDARD`: the standard
/// alphabet, `=`-padded, encoding three input bytes into four output
/// bytes left to right.
#[verifier::external_body]
fn b64_encode(data: &[u8]) -> (r: Vec<u8>)
    ensures
        r@ == base64_of(data@),
{
    base64::engine::general_purpose::STANDARD.encode(data).into_bytes()
}

/// A credential line: the base64 encoding followed by CR LF.
pub open spec fn b64_line_spec(data: Seq<u8>) -> Seq<u8> {
    base64_of(data) + seq![CR, LF]
}

/// Compose a base64 credential line.
pub fn b64_line(data: &[u8]) -> (r: Vec<u8>)
    ensures
        r@ == b64_line_spec(data@),
{
    let mut r = b64_encode(data);
    r.push(CR);
    r.push(LF);
    proof {
        assert(r@ =~= b64_line_spec(data@));
    }
    r
}

/// The bytes of `ehlo <host>` CR LF.
pub open spec fn ehlo_command_spec(host: Seq<u8>) -> Seq<u8> {
    seq![101u8, 104u8, 108u8, 111u8, 32u8] + host + seq![CR, LF]
}

/// Compose the `ehlo` command.
pub fn ehlo_command(host: &[u8]) -> (r: Vec<u8>)
    ensures
        r@ == ehlo_command_spec(host@),
{
    let mut r: Vec<u8> = Vec::new();
    r.push(101);
    r.push(104);
    r.push(108);
    r.push(111);
    r.push(32);
    push_all(&mut r, host);
    r.push(CR);
    r.push(LF);
    proof {
        assert(r@ =~= ehlo_command_spec(host@));
    }
    r
}

/// The bytes of `auth login` CR LF.
pub open spec fn auth_login_command_spec() -> Seq<u8> {
    seq![97u8, 117u8, 116u8, 104u8, 32u8, 108u8, 111u8, 103u8, 105u8, 110u8, CR, LF]
}

/// Compose the `auth login` command.
pub fn auth_login_command() -> (r: Vec<u8>)
    ensures
        r@ == auth_login_command_spec(),
{
    let mut r: Vec<u8> = Vec::new();
    r.push(97);
    r.push(117);
    r.push(116);
    r.push(104);
    r.push(32);
    r.push(108);
    r.push(111);
    r.push(103);
    r.push(105);
    r.push(110);
    r.push(CR);
    r.push(LF);
    proof {
        assert(r@ =~= auth_login_command_spec());
    }
    r
}

/// The bytes of `mail from:<addr>` CR LF.
pub open spec fn mail_from_command_spec(from: Seq<u8>) -> Seq<u8> {
    seq![109u8, 97u8, 105u8, 108u8, 32u8, 102u8, 114u8, 111u8, 109u8, 58u8, 60u8] + from + seq![
        62u8,
        CR,
        LF,
    ]
}

/// Compose the `mail from` command, the address in angle brackets.
pub fn mail_from_command(from: &[u8]) -> (r: Vec<u8>)
    ensures
        r@ == mail_from_command_spec(from@),
{
    let mut r: Vec<u8> = Vec::new();
    r.push(109);
    r.push(97);
    r.push(105);
    r.push(108);
    r.push(32);
    r.push(102);
    r.push(114);
    r.push(111);
    r.push(109);
    r.push(58);
    r.push(60);
    push_all(&mut r, from);
    r.push(62);
    r.push(CR);
    r.push(LF);
    proof {
        assert(r@ =~= mail_from_command_spec(from@));
    }
    r
}

/// The bytes of `rcpt to:<addr>` CR LF.
pub open spec fn rcpt_command_spec(addr: Seq<u8>) -> Seq<u8> {
    seq![114u8, 99u8, 112u8, 116u8, 32u8, 116u8, 111u8, 58u8, 60u8] + addr + seq![62u8, CR, LF]
}

/// Compose one `rcpt to` command, the address in angle brackets.
pub fn rcpt_command(addr: &[u8]) -> (r: Vec<u8>)
    ensures
        r@ == rcpt_command_spec(addr@),
{
    let mut r: Vec<u8> = Vec::new();
    r.push(114);
    r.push(99);
    r.push(112);
    r.push(116);
    r.push(32);
    r.push(116);
    r.push(111);
    r.push(58);
    r.push(60);
    push_all(&mut r, addr);
    r.push(62);
    r.push(CR);
    r.push(LF);
    proof {
        assert(r@ =~= rcpt_command_spec(addr@));
    }
    r
}

/// The bytes of `data` CR LF.
pub open spec fn data_command_spec() -> Seq<u8> {
    seq![100u8, 97u8, 116u8, 97u8, CR, LF]
}

/// Compose the `data` command.
pub fn data_command() -> (r: Vec<u8>)
    ensures
        r@ == data_command_spec(),
{
    let mut r: Vec<u8> = Vec::new();
    r.push(100);
    r.push(97);
    r.push(116);
    r.push(97);
    r.push(CR);
    r.push(LF);
    proof {
        assert(r@ =~= data_command_spec());
    }
    r
}

/// The block terminator that closes the body: CR LF `.` CR LF.
pub open spec fn terminator_spec() -> Seq<u8> {
    seq![CR, LF, DOT, CR, LF]
}

/// Compose the body terminator.
pub fn terminator() -> (r: Vec<u8>)
    ensures
        r@ == terminator_spec(),
{
    let mut r: Vec<u8> = Vec::new();
    r.push(CR);
    r.push(LF);
    r.push(DOT);
    r.push(CR);
    r.push(LF);
    proof {
        assert(r@ =~= terminator_spec());
    }
    r
}

/// The text of a possibly multi-segment reply, its segments joined
/// with single line feeds, as the operator sees it.
pub fn reply_text(block: &[u8]) -> (r: Vec<u8>)
    ensures
        r@ == join_lf(split_lines(block@)),
{
    let segments = split_lines_vec(block);
    proof {
        assert(segments.deep_view().skip(0) =~~= segments.deep_view());
    }
    join_with_lf(&segments, 0)
}

/// A positive SMTP reply: its code begins with `2` (completion) or
/// `3` (intermediate, as after `data`).
pub open spec fn smtp_positive(l: Seq<u8>) -> bool {
    l.len() > 0 && (l[0] == 50 || l[0] == 51)
}

/// Whether a reply line is positive.
pub fn line_is_positive(l: &[u8]) -> (r: bool)
    ensures
        r == smtp_positive(l@),
{
    if l.len() == 0 {
        return false;
    }
    l[0] == 50 || l[0] == 51
}

/// Where an SMTP submission session stands.
#[derive(Debug, Clone, Copy, PartialEq, Eq, Structural)]
pub enum SmtpPhase {
    /// The `ehlo` command is composed and must be written.
    SendEhlo,
    /// Awaiting the capability reply, surfaced but not judged.
    AwaitEhloReply,
    /// The `auth login` command is composed and must be written.
    SendAuthLogin,
    /// Awaiting the username challenge, surfaced but not judged.
    AwaitUserChallenge,
    /// The base64 username line is composed and must be written.
    SendAuthUser,
    /// Awaiting the password challenge, surfaced but not judged.
    AwaitPassChallenge,
    /// The password must be resolved.
    NeedSecret,
    /// The base64 password line is composed and must be written.
    SendAuthPass,
    /// Awaiting the authentication reply, surfaced but not judged.
    AwaitAuthReply,
    /// The `mail from` command is composed and must be written.
    SendMailFrom,
    /// Awaiting the reply to `mail from`.
    AwaitMailFromReply,
    /// The `rcpt to` command for recipient `index` must be written.
    SendRcpt { index: usize },
    /// Awaiting the reply to `rcpt to` for recipient `index`.
    AwaitRcptReply { index: usize },
    /// The message body must be provided.
    NeedBody,
    /// The `data` command is composed and must be written.
    SendData,
    /// Awaiting the intermediate reply to `data`.
    AwaitDataReply,
    /// The body chunk starting at `offset` must be written.
    SendChunk { offset: usize },
    /// The body terminator is composed and must be written.
    SendTerminator,
    /// Awaiting the final transfer reply.
    AwaitFinalReply,
    /// The `quit` command is composed and must be written.
    SendQuit,
    /// Awaiting the best-effort reply to `quit`.
    AwaitQuitReply,
    /// The session ended in order.
    Closed,
    /// The session was abandoned; the error field says why.
    Failed,
}

/// What the session's driver reports back to the machine.
#[derive(Debug)]
pub enum SmtpEvent {
    /// The outgoing buffer was written in full.
    CommandSent,
    /// The first line of a reply arrived.
    ReplyReceived { line: Vec<u8> },
    /// The credential resolver produced the password.
    SecretResolved { secret: Vec<u8> },
    /// The raw message body to submit.
    BodyProvided { data: Vec<u8> },
}

/// What the machine asks its driver to do next.
#[derive(Debug, Clone, Copy, PartialEq, Eq, Structural)]
pub enum SmtpDirective {
    /// Write the machine's outgoing buffer to the transport.
    WriteOutgoing,
    /// Read one reply and surface it.
    ReadReply,
    /// Resolve the account's password.
    ResolveSecret,
    /// Provide the raw message body.
    ProvideBody,
    /// The session is over.
    Finished,
    /// The session is abandoned; read the error field.
    Aborted,
}

/// The directive a phase waits on.
pub open spec fn smtp_directive_of(phase: SmtpPhase) -> SmtpDirective {
    match phase {
        SmtpPhase::SendEhlo => SmtpDirective::WriteOutgoing,
        SmtpPhase::AwaitEhloReply => SmtpDirective::ReadReply,
        SmtpPhase::SendAuthLogin => SmtpDirective::WriteOutgoing,
        SmtpPhase::AwaitUserChallenge => SmtpDirective::ReadReply,
        SmtpPhase::SendAuthUser => SmtpDirective::WriteOutgoing,
        SmtpPhase::AwaitPassChallenge => SmtpDirective::ReadReply,
        SmtpPhase::NeedSecret => SmtpDirective::ResolveSecret,
        SmtpPhase::SendAuthPass => SmtpDirective::WriteOutgoing,
        SmtpPhase::AwaitAuthReply => SmtpDirective::ReadReply,
        SmtpPhase::SendMailFrom => SmtpDirective::WriteOutgoing,
        SmtpPhase::AwaitMailFromReply => SmtpDirective::ReadReply,
        SmtpPhase::SendRcpt { .. } => SmtpDirective::WriteOutgoing,
        SmtpPhase::AwaitRcptReply { .. } => SmtpDirective::ReadReply,
        SmtpPhase::NeedBody => SmtpDirective::ProvideBody,
        SmtpPhase::SendData => SmtpDirective::WriteOutgoing,
        SmtpPhase::AwaitDataReply => SmtpDirective::ReadReply,
        SmtpPhase::SendChunk { .. } => SmtpDirective::WriteOutgoing,
        SmtpPhase::SendTerminator => SmtpDirective::WriteOutgoing,
        SmtpPhase::AwaitFinalReply => SmtpDirective::ReadReply,
        SmtpPhase::SendQuit => SmtpDirective::WriteOutgoing,
        SmtpPhase::AwaitQuitReply => SmtpDirective::ReadReply,
        SmtpPhase::Closed => SmtpDirective::Finished,
        SmtpPhase::Failed => SmtpDirective::Aborted,
    }
}

/// An SMTP submission session: the machine, the envelope it was
/// given, and the body once provided.
pub struct SmtpSession {
    /// Where the session stands.
    pub phase: SmtpPhase,
    /// The command or chunk to write next. Lines that hold the secret
    /// are overwritten in memory as soon as they were sent.
    pub outgoing: Vec<u8>,
    /// The account name, base64-encoded on request.
    pub user: Vec<u8>,
    /// The envelope sender address.
    pub from: Vec<u8>,
    /// The envelope recipients, in caller order, not deduplicated.
    pub recipients: Vec<Vec<u8>>,
    /// The raw message body, once provided.
    pub body: Vec<u8>,
    /// Why the session failed, once it did.
    pub error: Option<MailError>,
}

/// Recipient cursors stay in range and chunk offsets inside the body.
pub open spec fn smtp_wf(s: SmtpSession) -> bool {
    match s.phase {
        SmtpPhase::SendRcpt { index } => index < s.recipients@.len(),
        SmtpPhase::AwaitRcptReply { index } => index < s.recipients@.len(),
        SmtpPhase::SendChunk { offset } => offset < s.body@.len(),
        _ => true,
    }
}

/// The user, from, recipients and body fields are untouched.
pub open spec fn smtp_same_env(pre: SmtpSession, post: SmtpSession) -> bool {
    &&& post.user == pre.user
    &&& post.from == pre.from
    &&& post.recipients == pre.recipients
    &&& post.body == pre.body
}

/// The envelope and the error are untouched.
pub open spec fn smtp_same_env_err(pre: SmtpSession, post: SmtpSession) -> bool {
    &&& smtp_same_env(pre, post)
    &&& post.error == pre.error
}

/// The transition relation of [`SmtpSession::next`]. An event that
/// does not belong to the phase changes nothing and repeats the
/// phase's directive.
pub open spec fn smtp_next_rel(
    pre: SmtpSession,
    event: SmtpEvent,
    post: SmtpSession,
    d: SmtpDirective,
) -> bool {
    match (pre.phase, event) {
        (SmtpPhase::SendEhlo, SmtpEvent::CommandSent) => {
            &&& post.phase == SmtpPhase::AwaitEhloReply
            &&& post.outgoing@.len() == 0
            &&& smtp_same_env_err(pre, post)
            &&& d == SmtpDirective::ReadReply
        },
        (SmtpPhase::AwaitEhloReply, SmtpEvent::ReplyReceived { .. }) => {
            &&& post.phase == SmtpPhase::SendAuthLogin
            &&& post.outgoing@ == auth_login_command_spec()
            &&& smtp_same_env_err(pre, post)
            &&& d == SmtpDirective::WriteOutgoing
        },
        (SmtpPhase::SendAuthLogin, SmtpEvent::CommandSent) => {
            &&& post.phase == SmtpPhase::AwaitUserChallenge
            &&& post.outgoing@.len() == 0
            &&& smtp_same_env_err(pre, post)
            &&& d == SmtpDirective::ReadReply
        },
        (SmtpPhase::AwaitUserChallenge, SmtpEvent::ReplyReceived { .. }) => {
            &&& post.phase == SmtpPhase::SendAuthUser
            &&& post.outgoing@ == b64_line_spec(pre.user@)
            &&& smtp_same_env_err(pre, post)
            &&& d == SmtpDirective::WriteOutgoing
        },
        (SmtpPhase::SendAuthUser, SmtpEvent::CommandSent) => {
            &&& post.phase == SmtpPhase::AwaitPassChallenge
            &&& post.outgoing@.len() == 0
            &&& smtp_same_env_err(pre, post)
            &&& d == SmtpDirective::ReadReply
        },
        (SmtpPhase::AwaitPassChallenge, SmtpEvent::ReplyReceived { .. }) => {
            &&& post.phase == SmtpPhase::NeedSecret
            &&& post.outgoing == pre.outgoing
            &&& smtp_same_env_err(pre, post)
            &&& d == SmtpDirective::ResolveSecret
        },
        (SmtpPhase::NeedSecret, SmtpEvent::SecretResolved { secret }) => {
            &&& post.phase == SmtpPhase::SendAuthPass
            &&& post.outgoing@ == b64_line_spec(secret@)
            &&& smtp_same_env_err(pre, post)
            &&& d == SmtpDirective::WriteOutgoing
        },
        (SmtpPhase::SendAuthPass, SmtpEvent::CommandSent) => {
            &&& post.phase == SmtpPhase::AwaitAuthReply
            &&& post.outgoing@.len() == 0
            &&& smtp_same_env_err(pre, post)
            &&& d == SmtpDirective::ReadReply
        },
        (SmtpPhase::AwaitAuthReply, SmtpEvent::ReplyReceived { .. }) => {
            // the login mechanism is driven unconditionally; replies
            // are surfaced, not parsed
            &&& post.phase == SmtpPhase::SendMailFrom
            &&& post.outgoing@ == mail_from_command_spec(pre.from@)
            &&& smtp_same_env_err(pre, post)
            &&& d == SmtpDirective::WriteOutgoing
        },
        (SmtpPhase::SendMailFrom, SmtpEvent::CommandSent) => {
            &&& post.phase == SmtpPhase::AwaitMailFromReply
            &&& post.outgoing@.len() == 0
            &&& smtp_same_env_err(pre, post)
            &&& d == SmtpDirective::ReadReply
        },
        (SmtpPhase::AwaitMailFromReply, SmtpEvent::ReplyReceived { line }) => {
            if smtp_positive(line@) {
                if pre.recipients@.len() > 0 {
                    &&& post.phase == SmtpPhase::SendRcpt { index: 0 }
                    &&& post.outgoing@ == rcpt_command_spec(pre.recipients.deep_view()[0])
                    &&& smtp_same_env_err(pre, post)
                    &&& d == SmtpDirective::WriteOutgoing
                } else {
                    &&& post.phase == SmtpPhase::NeedBody
                    &&& post.outgoing == pre.outgoing
                    &&& smtp_same_env_err(pre, post)
                    &&& d == SmtpDirective::ProvideBody
                }
            } else {
                &&& post.phase == SmtpPhase::Failed
                &&& post.error == Some(MailError::Protocol { reply: line })
                &&& post.outgoing == pre.outgoing
                &&& smtp_same_env(pre, post)
                &&& d == SmtpDirective::Aborted
            }
        },
        (SmtpPhase::SendRcpt { index }, SmtpEvent::CommandSent) => {
            &&& post.phase == SmtpPhase::AwaitRcptReply { index }
            &&& post.outgoing@.len() == 0
            &&& smtp_same_env_err(pre, post)
            &&& d == SmtpDirective::ReadReply
        },
        (SmtpPhase::AwaitRcptReply { index }, SmtpEvent::ReplyReceived { line }) => {
            if smtp_positive(line@) {
                if index + 1 < pre.recipients@.len() {
                    &&& post.phase == SmtpPhase::SendRcpt { index: (index + 1) as usize }
                    &&& post.outgoing@ == rcpt_command_spec(
                        pre.recipients.deep_view()[index + 1],
                    )
                    &&& smtp_same_env_err(pre, post)
                    &&& d == SmtpDirective::WriteOutgoing
                } else {
                    &&& post.phase == SmtpPhase::NeedBody
                    &&& post.outgoing == pre.outgoing
                    &&& smtp_same_env_err(pre, post)
                    &&& d == SmtpDirective::ProvideBody
                }
            } else {
                &&& post.phase == SmtpPhase::Failed
                &&& post.error == Some(MailError::Protocol { reply: line })
                &&& post.outgoing == pre.outgoing
                &&& smtp_same_env(pre, post)
                &&& d == SmtpDirective::Aborted
            }
        },
        (SmtpPhase::NeedBody, SmtpEvent::BodyProvided { data }) => {
            &&& post.phase == SmtpPhase::SendData
            &&& post.outgoing@ == data_command_spec()
            &&& post.body == data
            &&& post.user == pre.user
            &&& post.from == pre.from
            &&& post.recipients == pre.recipients
            &&& post.error == pre.error
            &&& d == SmtpDirective::WriteOutgoing
        },
        (SmtpPhase::SendData, SmtpEvent::CommandSent) => {
            &&& post.phase == SmtpPhase::AwaitDataReply
            &&& post.outgoing@.len() == 0
            &&& smtp_same_env_err(pre, post)
            &&& d == SmtpDirective::ReadReply
        },
        (SmtpPhase::AwaitDataReply, SmtpEvent::ReplyReceived { line }) => {
            if smtp_positive(line@) {
                if pre.body@.len() > 0 {
                    &&& post.phase == SmtpPhase::SendChunk { offset: 0 }
                    &&& post.outgoing@ == chunk_spec(pre.body@, 0)
                    &&& smtp_same_env_err(pre, post)
                    &&& d == SmtpDirective::WriteOutgoing
                } else {
                    &&& post.phase == SmtpPhase::SendTerminator
                    &&& post.outgoing@ == terminator_spec()
                    &&& smtp_same_env_err(pre, post)
                    &&& d == SmtpDirective::WriteOutgoing
                }
            } else {
                &&& post.phase == SmtpPhase::Failed
                &&& post.error == Some(MailError::Protocol { reply: line })
                &&& post.outgoing == pre.outgoing
                &&& smtp_same_env(pre, post)
                &&& d == SmtpDirective::Aborted
            }
        },
        (SmtpPhase::SendChunk { offset }, SmtpEvent::CommandSent) => {
            let next = if pre.body@.len() - offset > CHUNK as int {
                offset + CHUNK as int
            } else {
                pre.body@.len() as int
            };
            if next < pre.body@.len() {
                &&& post.phase == SmtpPhase::SendChunk { offset: next as usize }
                &&& post.outgoing@ == chunk_spec(pre.body@, next)
                &&& smtp_same_env_err(pre, post)
                &&& d == SmtpDirective::WriteOutgoing
            } else {
                &&& post.phase == SmtpPhase::SendTerminator
                &&& post.outgoing@ == terminator_spec()
                &&& smtp_same_env_err(pre, post)
                &&& d == SmtpDirective::WriteOutgoing
            }
        },
        (SmtpPhase::SendTerminator, SmtpEvent::CommandSent) => {
            &&& post.phase == SmtpPhase::AwaitFinalReply
            &&& post.outgoing@.len() == 0
            &&& smtp_same_env_err(pre, post)
            &&& d == SmtpDirective::ReadReply
        },
        (SmtpPhase::AwaitFinalReply, SmtpEvent::ReplyReceived { line }) => {
            if smtp_positive(line@) {
                &&& post.phase == SmtpPhase::SendQuit
                &&& post.outgoing@ == crate::pop::quit_command_spec()
                &&& smtp_same_env_err(pre, post)
                &&& d == SmtpDirective::WriteOutgoing
            } else {
                &&& post.phase == SmtpPhase::Failed
                &&& post.error == Some(MailError::Protocol { reply: line })
                &&& post.outgoing == pre.outgoing
                &&& smtp_same_env(pre, post)
                &&& d == SmtpDirective::Aborted
            }
        },
        (SmtpPhase::SendQuit, SmtpEvent::CommandSent) => {
            &&& post.phase == SmtpPhase::AwaitQuitReply
            &&& post.outgoing@.len() == 0
            &&& smtp_same_env_err(pre, post)
            &&& d == SmtpDirective::ReadReply
        },
        (SmtpPhase::AwaitQuitReply, SmtpEvent::ReplyReceived { .. }) => {
            &&& post.phase == SmtpPhase::Closed
            &&& post.outgoing == pre.outgoing
            &&& smtp_same_env_err(pre, post)
            &&& d == SmtpDirective::Finished
        },
        (SmtpPhase::Closed, _) => post == pre && d == SmtpDirective::Finished,
        (SmtpPhase::Failed, _) => post == pre && d == SmtpDirective::Aborted,
        _ => post == pre && d == smtp_directive_of(pre.phase),
    }
}

impl SmtpSession {
    /// A session about to greet the server.
    pub fn new(host: &[u8], user: Vec<u8>, from: Vec<u8>, recipients: Vec<Vec<u8>>) -> (s:
        SmtpSession)
        ensures
            s.phase == SmtpPhase::SendEhlo,
            s.outgoing@ == ehlo_command_spec(host@),
            s.user == user,
            s.from == from,
            s.recipients == recipients,
            s.body@.len() == 0,
            (s.error is None),
            smtp_wf(s),
    {
        SmtpSession {
            phase: SmtpPhase::SendEhlo,
            outgoing: ehlo_command(host),
            user,
            from,
            recipients,
            body: Vec::new(),
            error: None,
        }
    }

    /// Advance the machine by one event and learn what to do next.
    pub fn next(&mut self, event: SmtpEvent) -> (d: SmtpDirective)
        requires
            smtp_wf(*old(self)),
        ensures
            smtp_wf(*final(self)),
            smtp_next_rel(*old(self), event, *final(self), d),
    {
        let ph = self.phase;
        match (ph, event) {
            (SmtpPhase::SendEhlo, SmtpEvent::CommandSent) => {
                self.outgoing.clear();
                self.phase = SmtpPhase::AwaitEhloReply;
                SmtpDirective::ReadReply
            },
            (SmtpPhase::AwaitEhloReply, SmtpEvent::ReplyReceived { .. }) => {
                self.outgoing = auth_login_command();
                self.phase = SmtpPhase::SendAuthLogin;
                SmtpDirective::WriteOutgoing
            },
            (SmtpPhase::SendAuthLogin, SmtpEvent::CommandSent) => {
                self.outgoing.clear();
                self.phase = SmtpPhase::AwaitUserChallenge;
                SmtpDirective::ReadReply
            },
            (SmtpPhase::AwaitUserChallenge, SmtpEvent::ReplyReceived { .. }) => {
                self.outgoing = b64_line(self.user.as_slice());
                self.phase = SmtpPhase::SendAuthUser;
                SmtpDirective::WriteOutgoing
            },
            (SmtpPhase::SendAuthUser, SmtpEvent::CommandSent) => {
                self.outgoing.clear();
                self.phase = SmtpPhase::AwaitPassChallenge;
                SmtpDirective::ReadReply
            },
            (SmtpPhase::AwaitPassChallenge, SmtpEvent::ReplyReceived { .. }) => {
                self.phase = SmtpPhase::NeedSecret;
                SmtpDirective::ResolveSecret
            },
            (SmtpPhase::NeedSecret, SmtpEvent::SecretResolved { secret }) => {
                let mut secret = secret;
                self.outgoing = b64_line(secret.as_slice());
                wipe_bytes(&mut secret);
                self.phase = SmtpPhase::SendAuthPass;
                SmtpDirective::WriteOutgoing
            },
            (SmtpPhase::SendAuthPass, SmtpEvent::CommandSent) => {
                wipe_bytes(&mut self.outgoing);
                self.phase = SmtpPhase::AwaitAuthReply;
                SmtpDirective::ReadReply
            },
            (SmtpPhase::AwaitAuthReply, SmtpEvent::ReplyReceived { .. }) => {
                self.outgoing = mail_from_command(self.from.as_slice());
                self.phase = SmtpPhase::SendMailFrom;
                SmtpDirective::WriteOutgoing
            },
            (SmtpPhase::SendMailFrom, SmtpEvent::CommandSent) => {
                self.outgoing.clear();
                self.phase = SmtpPhase::AwaitMailFromReply;
                SmtpDirective::ReadReply
            },
            (SmtpPhase::AwaitMailFromReply, SmtpEvent::ReplyReceived { line }) => {
                if line_is_positive(line.as_slice()) {
                    if self.recipients.len() > 0 {
                        proof {
                            assert(self.recipients.deep_view()[0] == self.recipients@[0]@);
                        }
                        self.outgoing = rcpt_command(self.recipients[0].as_slice());
                        self.phase = SmtpPhase::SendRcpt { index: 0 };
                        SmtpDirective::WriteOutgoing
                    } else {
                        self.phase = SmtpPhase::NeedBody;
                        SmtpDirective::ProvideBody
                    }
                } else {
                    self.error = Some(MailError::Protocol { reply: line });
                    self.phase = SmtpPhase::Failed;
                    SmtpDirective::Aborted
                }
            },
            (SmtpPhase::SendRcpt { index }, SmtpEvent::CommandSent) => {
                self.outgoing.clear();
                self.phase = SmtpPhase::AwaitRcptReply { index };
                SmtpDirective::ReadReply
            },
            (SmtpPhase::AwaitRcptReply { index }, SmtpEvent::ReplyReceived { line }) => {
                let n = self.recipients.len();
                proof {
                    assert(index < n);
                }
                if line_is_positive(line.as_slice()) {
                    if index + 1 < n {
                        proof {
                            assert(self.recipients.deep_view()[index + 1] == self.recipients@[index
                                + 1]@);
                        }
                        self.outgoing = rcpt_command(self.recipients[index + 1].as_slice());
                        self.phase = SmtpPhase::SendRcpt { index: index + 1 };
                        SmtpDirective::WriteOutgoing
                    } else {
                        self.phase = SmtpPhase::NeedBody;
                        SmtpDirective::ProvideBody
                    }
                } else {
                    self.error = Some(MailError::Protocol { reply: line });
                    self.phase = SmtpPhase::Failed;
                    SmtpDirective::Aborted
                }
            },
            (SmtpPhase::NeedBody, SmtpEvent::BodyProvided { data }) => {
                self.body = data;
                self.outgoing = data_command();
                self.phase = SmtpPhase::SendData;
                SmtpDirective::WriteOutgoing
            },
            (SmtpPhase::SendData, SmtpEvent::CommandSent) => {
                self.outgoing.clear();
                self.phase = SmtpPhase::AwaitDataReply;
                SmtpDirective::ReadReply
            },
            (SmtpPhase::AwaitDataReply, SmtpEvent::ReplyReceived { line }) => {
                if line_is_positive(line.as_slice()) {
                    if self.body.len() > 0 {
                        self.outgoing = body_chunk(self.body.as_slice(), 0);
                        self.phase = SmtpPhase::SendChunk { offset: 0 };
                        SmtpDirective::WriteOutgoing
                    } else {
                        self.outgoing = terminator();
                        self.phase = SmtpPhase::SendTerminator;
                        SmtpDirective::WriteOutgoing
                    }
                } else {
                    self.error = Some(MailError::Protocol { reply: line });
                    self.phase = SmtpPhase::Failed;
                    SmtpDirective::Aborted
                }
            },
            (SmtpPhase::SendChunk { offset }, SmtpEvent::CommandSent) => {
                let next = if self.body.len() - offset > CHUNK {
                    offset + CHUNK
                } else {
                    self.body.len()
                };
                if next < self.body.len() {
                    self.outgoing = body_chunk(self.body.as_slice(), next);
                    self.phase = SmtpPhase::SendChunk { offset: next };
                } else {
                    self.outgoing = terminator();
                    self.phase = SmtpPhase::SendTerminator;
                }
                SmtpDirective::WriteOutgoing
            },
            (SmtpPhase::SendTerminator, SmtpEvent::CommandSent) => {
                self.outgoing.clear();
                self.phase = SmtpPhase::AwaitFinalReply;
                SmtpDirective::ReadReply
            },
            (SmtpPhase::AwaitFinalReply, SmtpEvent::ReplyReceived { line }) => {
                if line_is_positive(line.as_slice()) {
                    self.outgoing = crate::pop::quit_command();
                    self.phase = SmtpPhase::SendQuit;
                    SmtpDirective::WriteOutgoing
                } else {
                    self.error = Some(MailError::Protocol { reply: line });
                    self.phase = SmtpPhase::Failed;
                    SmtpDirective::Aborted
                }
            },
            (SmtpPhase::SendQuit, SmtpEvent::CommandSent) => {
                self.outgoing.clear();
                self.phase = SmtpPhase::AwaitQuitReply;
                SmtpDirective::ReadReply
            },
            (SmtpPhase::AwaitQuitReply, SmtpEvent::ReplyReceived { .. }) => {
                self.phase = SmtpPhase::Closed;
                SmtpDirective::Finished
            },
            (SmtpPhase::Closed, _) => SmtpDirective::Finished,
            (SmtpPhase::Failed, _) => SmtpDirective::Aborted,
            (_, _) => self.repeat_directive(),
        }
    }

    /// The directive the current phase is still waiting on.
    fn repeat_directive(&self) -> (d: SmtpDirective)
        ensures
            d == smtp_directive_of(self.phase),
    {
        match self.phase {
            SmtpPhase::SendEhlo => SmtpDirective::WriteOutgoing,
            SmtpPhase::AwaitEhloReply => SmtpDirective::ReadReply,
            SmtpPhase::SendAuthLogin => SmtpDirective::WriteOutgoing,
            SmtpPhase::AwaitUserChallenge => SmtpDirective::ReadReply,
            SmtpPhase::SendAuthUser => SmtpDirective::WriteOutgoing,
            SmtpPhase::AwaitPassChallenge => SmtpDirective::ReadReply,
            SmtpPhase::NeedSecret => SmtpDirective::ResolveSecret,
            SmtpPhase::SendAuthPass => SmtpDirective::WriteOutgoing,
            SmtpPhase::AwaitAuthReply => SmtpDirective::ReadReply,
            SmtpPhase::SendMailFrom => SmtpDirective::WriteOutgoing,
            SmtpPhase::AwaitMailFromReply => SmtpDirective::ReadReply,
            SmtpPhase::SendRcpt { .. } => SmtpDirective::WriteOutgoing,
            SmtpPhase::AwaitRcptReply { .. } => SmtpDirective::ReadReply,
            SmtpPhase::NeedBody => SmtpDirective::ProvideBody,
            SmtpPhase::SendData => SmtpDirective::WriteOutgoing,
            SmtpPhase::AwaitDataReply => SmtpDirective::ReadReply,
            SmtpPhase::SendChunk { .. } => SmtpDirective::WriteOutgoing,
            SmtpPhase::SendTerminator => SmtpDirective::WriteOutgoing,
            SmtpPhase::AwaitFinalReply => SmtpDirective::ReadReply,
            SmtpPhase::SendQuit => SmtpDirective::WriteOutgoing,
            SmtpPhase::AwaitQuitReply => SmtpDirective::ReadReply,
            SmtpPhase::Closed => SmtpDirective::Finished,
            SmtpPhase::Failed => SmtpDirective::Aborted,
        }
    }
}

/// How many body bytes go out in one write at most.
pub const CHUNK: usize = 1024;

/// The chunk of the body that starts at `offset`.
pub open spec fn chunk_spec(body: Seq<u8>, offset: int) -> Seq<u8> {
    if offset + CHUNK <= body.len() {
        body.subrange(offset, offset + CHUNK)
    } else {
        body.subrange(offset, body.len() as int)
    }
}

/// Copy the chunk of the body that starts at `offset`.
pub fn body_chunk(body: &[u8], offset: usize) -> (r: Vec<u8>)
    requires
        offset <= body@.len(),
    ensures
        r@ == chunk_spec(body@, offset as int),
{
    let end = if body.len() - offset > CHUNK {
        offset + CHUNK
    } else {
        body.len()
    };
    crate::lines::copy_range(body, offset, end)
}

} // verus!
