//! The POP3 session driver: a strictly sequential command/response
//! state machine. It composes each outgoing command, judges each
//! reply, decides the fetch range against the local high-water mark,
//! and hands every transport action (write, read, scan, store) to its
//! caller as a directive, so the machine itself never performs I/O.

use vstd::prelude::*;

use crate::errors::MailError;
use crate::lines::{
    all_digits, digits_val, dec_seq, join_lf, split_byte, split_byte_vec, u32_to_dec, push_all, CR,
    LF,
};
use crate::maildir::{fetch_plan, FetchPlan};
use crate::secret::wipe_bytes;
use vstd::string::StrSliceExecFns;

verus! {

/// A single-line POP3 reply that reports success: it begins with
/// `+OK`.
pub open spec fn spec_is_success_pop(s: Seq<char>) -> bool {
    s.len() >= 3 && s[0] == '+' && s[1] == 'O' && s[2] == 'K'
}

/// Whether a server reply begins with the POP3 success marker `+OK`.
pub fn is_success_pop(server_response: &str) -> (r: bool)
    ensures
        r == spec_is_success_pop(server_response@),
{
    if server_response.unicode_len() < 3 {
        return false;
    }
    server_response.get_char(0) == '+' && server_response.get_char(1) == 'O'
        && server_response.get_char(2) == 'K'
}

/// The same success marker on a raw reply line: `+` `O` `K`.
pub open spec fn line_success(l: Seq<u8>) -> bool {
    l.len() >= 3 && l[0] == 43 && l[1] == 79 && l[2] == 75
}

/// Whether a raw reply line begins with the POP3 success marker.
pub fn line_is_success(l: &[u8]) -> (r: bool)
    ensures
        r == line_success(l@),
{
    if l.len() < 3 {
        return false;
    }
    l[0] == 43 && l[1] == 79 && l[2] == 75
}

/// The bytes of `user <name>` CR LF.
pub open spec fn user_command_spec(user: Seq<u8>) -> Seq<u8> {
    seq![117u8, 115u8, 101u8, 114u8, 32u8] + user + seq![CR, LF]
}

/// Compose the `user` command.
pub fn user_command(user: &[u8]) -> (r: Vec<u8>)
    ensures
        r@ == user_command_spec(user@),
{
    let mut r: Vec<u8> = Vec::new();
    r.push(117);
    r.push(115);
    r.push(101);
    r.push(114);
    r.push(32);
    push_all(&mut r, user);
    r.push(CR);
    r.push(LF);
    proof {
        assert(r@ =~= user_command_spec(user@));
    }
    r
}

/// The bytes of `pass <secret>` CR LF.
pub open spec fn pass_command_spec(secret: Seq<u8>) -> Seq<u8> {
    seq![112u8, 97u8, 115u8, 115u8, 32u8] + secret + seq![CR, LF]
}

/// Compose the `pass` command.
pub fn pass_command(secret: &[u8]) -> (r: Vec<u8>)
    ensures
        r@ == pass_command_spec(secret@),
{
    let mut r: Vec<u8> = Vec::new();
    r.push(112);
    r.push(97);
    r.push(115);
    r.push(115);
    r.push(32);
    push_all(&mut r, secret);
    r.push(CR);
    r.push(LF);
    proof {
        assert(r@ =~= pass_command_spec(secret@));
    }
    r
}

/// The bytes of `stat` CR LF.
pub open spec fn stat_command_spec() -> Seq<u8> {
    seq![115u8, 116u8, 97u8, 116u8, CR, LF]
}

/// Compose the `stat` command.
pub fn stat_command() -> (r: Vec<u8>)
    ensures
        r@ == stat_command_spec(),
{
    let mut r: Vec<u8> = Vec::new();
    r.push(115);
    r.push(116);
    r.push(97);
    r.push(116);
    r.push(CR);
    r.push(LF);
    proof {
        assert(r@ =~= stat_command_spec());
    }
    r
}

/// The bytes of `retr <index>` CR LF, the index in decimal.
pub open spec fn retr_command_spec(index: u32) -> Seq<u8> {
    seq![114u8, 101u8, 116u8, 114u8, 32u8] + dec_seq(index as nat) + seq![CR, LF]
}

/// Compose the `retr` command for one message index.
pub fn retr_command(index: u32) -> (r: Vec<u8>)
    ensures
        r@ == retr_command_spec(index),
{
    let mut r: Vec<u8> = Vec::new();
    r.push(114);
    r.push(101);
    r.push(116);
    r.push(114);
    r.push(32);
    let digits = u32_to_dec(index);
    push_all(&mut r, digits.as_slice());
    r.push(CR);
    r.push(LF);
    proof {
        assert(r@ =~= retr_command_spec(index));
    }
    r
}

/// The bytes of `quit` CR LF.
pub open spec fn quit_command_spec() -> Seq<u8> {
    seq![113u8, 117u8, 105u8, 116u8, CR, LF]
}

/// Compose the `quit` command.
pub fn quit_command() -> (r: Vec<u8>)
    ensures
        r@ == quit_command_spec(),
{
    let mut r: Vec<u8> = Vec::new();
    r.push(113);
    r.push(117);
    r.push(105);
    r.push(116);
    r.push(CR);
    r.push(LF);
    proof {
        assert(r@ =~= quit_command_spec());
    }
    r
}

/// What a `stat` reply announces: the remote message count and the
/// mailbox size in octets.
#[derive(Debug, Clone, Copy, PartialEq, Eq, Structural)]
pub struct StatReply {
    pub count: u32,
    pub octets: u64,
}

/// A `stat` reply has the shape `<status> <count> <octets>`: split on
/// spaces, its second field parses as a 32-bit count and its third as
/// a 64-bit size.
pub open spec fn stat_ok(l: Seq<u8>) -> bool {
    let f = split_byte(l, 32);
    &&& f.len() >= 3
    &&& f[1].len() > 0 && all_digits(f[1]) && digits_val(f[1]) <= u32::MAX
    &&& f[2].len() > 0 && all_digits(f[2]) && digits_val(f[2]) <= u64::MAX
}

/// The count a well-shaped `stat` reply announces.
pub open spec fn stat_count(l: Seq<u8>) -> nat {
    digits_val(split_byte(l, 32)[1])
}

/// The octet size a well-shaped `stat` reply announces.
pub open spec fn stat_octets(l: Seq<u8>) -> nat {
    digits_val(split_byte(l, 32)[2])
}

/// Parse a `stat` reply. A reply of any other shape is a protocol
/// error carrying the literal line.
pub fn parse_stat(line: Vec<u8>) -> (r: Result<StatReply, MailError>)
    ensures
        r is Ok <==> stat_ok(line@),
        r is Ok ==> r->Ok_0 == (StatReply {
            count: stat_count(line@) as u32,
            octets: stat_octets(line@) as u64,
        }),
        r is Err ==> r->Err_0 == (MailError::Protocol { reply: line }),
{
    let fields = split_byte_vec(line.as_slice(), 32);
    proof {
        assert(fields.deep_view().len() == fields@.len());
    }
    if fields.len() < 3 {
        return Err(MailError::Protocol { reply: line });
    }
    proof {
        assert(fields.deep_view()[1] == fields@[1]@);
        assert(fields.deep_view()[2] == fields@[2]@);
    }
    let count = match crate::lines::parse_u32(fields[1].as_slice()) {
        Some(c) => c,
        None => {
            return Err(MailError::Protocol { reply: line });
        },
    };
    let octets = match crate::lines::parse_u64(fields[2].as_slice()) {
        Some(o) => o,
        None => {
            return Err(MailError::Protocol { reply: line });
        },
    };
    Ok(StatReply { count, octets })
}

/// The payload of a `retr` reply block: the first line must report
/// success; the remaining lines, joined with single line feeds, are
/// the message bytes as they go to disk.
pub fn retrieve_payload(block_lines: Vec<Vec<u8>>) -> (r: Result<Vec<u8>, MailError>)
    ensures
        r is Ok <==> (block_lines.deep_view().len() > 0 && line_success(
            block_lines.deep_view()[0],
        )),
        r is Ok ==> r->Ok_0@ == join_lf(block_lines.deep_view().skip(1)),
        r is Err ==> (r->Err_0 matches MailError::Protocol { reply } && reply@ == (
        if block_lines.deep_view().len() > 0 {
            block_lines.deep_view()[0]
        } else {
            Seq::<u8>::empty()
        })),
{
    proof {
        assert(block_lines.deep_view().len() == block_lines@.len());
    }
    if block_lines.len() == 0 {
        return Err(MailError::Protocol { reply: Vec::new() });
    }
    proof {
        assert(block_lines.deep_view()[0] == block_lines@[0]@);
    }
    if !line_is_success(block_lines[0].as_slice()) {
        let reply = block_lines[0].clone();
        return Err(MailError::Protocol { reply });
    }
    Ok(crate::lines::join_with_lf(&block_lines, 1))
}

/// Where a POP3 download session stands.
#[derive(Debug, Clone, Copy, PartialEq, Eq, Structural)]
pub enum PopPhase {
    /// The `user` command is composed and must be written.
    SendUser,
    /// Awaiting the reply to `user`.
    AwaitUserReply,
    /// The password must be resolved.
    NeedSecret,
    /// The `pass` command is composed and must be written.
    SendPass,
    /// Awaiting the reply to `pass`.
    AwaitPassReply,
    /// The `stat` command is composed and must be written.
    SendStat,
    /// Awaiting the reply to `stat`.
    AwaitStatReply,
    /// The local high-water mark must be scanned from disk.
    NeedLocal { remote: u32 },
    /// The `retr next` command is composed and must be written.
    SendRetr { next: u32, last: u32 },
    /// Awaiting the multi-line block replying to `retr next`.
    AwaitRetrBlock { next: u32, last: u32 },
    /// The payload of message `next` must be committed to disk.
    Storing { next: u32, last: u32 },
    /// The `quit` command is composed and must be written.
    SendQuit,
    /// Awaiting the best-effort reply to `quit`.
    AwaitQuitReply,
    /// The session ended in order.
    Closed,
    /// The session was abandoned; the error field says why.
    Failed,
}

/// What the session's driver reports back to the machine.
#[derive(Debug)]
pub enum PopEvent {
    /// The outgoing command was written in full.
    CommandSent,
    /// One status line arrived.
    LineReceived { line: Vec<u8> },
    /// The credential resolver produced the password.
    SecretResolved { secret: Vec<u8> },
    /// A terminated multi-line block arrived, already framed.
    BlockReceived { block_lines: Vec<Vec<u8>> },
    /// The larger of the `cur` and `new` high-water marks.
    LocalScanned { high: u32 },
    /// The payload was committed to disk.
    MessageStored,
}

/// What the machine asks its driver to do next.
#[derive(Debug, Clone, Copy, PartialEq, Eq, Structural)]
pub enum PopDirective {
    /// Write the machine's outgoing buffer to the transport.
    WriteOutgoing,
    /// Read one status line.
    ReadLine,
    /// Resolve the account's password.
    ResolveSecret,
    /// Read one terminated multi-line block.
    ReadBlock,
    /// Scan `cur` and `new` for the local high-water mark.
    ScanMaildir,
    /// Commit the machine's payload buffer as message `index`.
    StoreMessage { index: u32 },
    /// The session is over.
    Finished,
    /// The session is abandoned; read the error field.
    Aborted,
}

/// The directive a phase waits on.
pub open spec fn pop_directive_of(phase: PopPhase) -> PopDirective {
    match phase {
        PopPhase::SendUser => PopDirective::WriteOutgoing,
        PopPhase::AwaitUserReply => PopDirective::ReadLine,
        PopPhase::NeedSecret => PopDirective::ResolveSecret,
        PopPhase::SendPass => PopDirective::WriteOutgoing,
        PopPhase::AwaitPassReply => PopDirective::ReadLine,
        PopPhase::SendStat => PopDirective::WriteOutgoing,
        PopPhase::AwaitStatReply => PopDirective::ReadLine,
        PopPhase::NeedLocal { .. } => PopDirective::ScanMaildir,
        PopPhase::SendRetr { .. } => PopDirective::WriteOutgoing,
        PopPhase::AwaitRetrBlock { .. } => PopDirective::ReadBlock,
        PopPhase::Storing { next, .. } => PopDirective::StoreMessage { index: next },
        PopPhase::SendQuit => PopDirective::WriteOutgoing,
        PopPhase::AwaitQuitReply => PopDirective::ReadLine,
        PopPhase::Closed => PopDirective::Finished,
        PopPhase::Failed => PopDirective::Aborted,
    }
}

/// A POP3 download session. The driver writes `outgoing` when told
/// to, reads lines and blocks when told to, and feeds every outcome
/// back through [`PopSession::next`].
pub struct PopSession {
    /// Where the session stands.
    pub phase: PopPhase,
    /// The command to write next. The `pass` command, which holds the
    /// secret, is overwritten in memory as soon as it was sent.
    pub outgoing: Vec<u8>,
    /// The payload of the message to commit next.
    pub payload: Vec<u8>,
    /// What `stat` announced, once it was parsed.
    pub stat: Option<StatReply>,
    /// Why the session failed, once it did.
    pub error: Option<MailError>,
}

/// The fetch range a session carries never runs backwards.
pub open spec fn pop_wf(s: PopSession) -> bool {
    match s.phase {
        PopPhase::SendRetr { next, last } => next <= last,
        PopPhase::AwaitRetrBlock { next, last } => next <= last,
        PopPhase::Storing { next, last } => next <= last,
        _ => true,
    }
}

/// The payload, stat and error fields are untouched.
pub open spec fn same_pse(pre: PopSession, post: PopSession) -> bool {
    &&& post.payload == pre.payload
    &&& post.stat == pre.stat
    &&& post.error == pre.error
}

/// The outgoing, payload, stat and error fields are untouched.
pub open spec fn same_opse(pre: PopSession, post: PopSession) -> bool {
    &&& post.outgoing == pre.outgoing
    &&& same_pse(pre, post)
}

/// The outgoing, payload and stat fields are untouched.
pub open spec fn same_ops(pre: PopSession, post: PopSession) -> bool {
    &&& post.outgoing == pre.outgoing
    &&& post.payload == pre.payload
    &&& post.stat == pre.stat
}

/// The session transition relation: what one call of
/// [`PopSession::next`] does for each phase and event. An event that
/// does not belong to the phase changes nothing and repeats the
/// phase's directive.
pub open spec fn pop_next_rel(
    pre: PopSession,
    event: PopEvent,
    post: PopSession,
    d: PopDirective,
) -> bool {
    match (pre.phase, event) {
        (PopPhase::SendUser, PopEvent::CommandSent) => {
            &&& post.phase == PopPhase::AwaitUserReply
            &&& post.outgoing@.len() == 0
            &&& same_pse(pre, post)
            &&& d == PopDirective::ReadLine
        },
        (PopPhase::AwaitUserReply, PopEvent::LineReceived { line }) => {
            if line_success(line@) {
                &&& post.phase == PopPhase::NeedSecret
                &&& same_opse(pre, post)
                &&& d == PopDirective::ResolveSecret
            } else {
                &&& post.phase == PopPhase::Failed
                &&& post.error == Some(MailError::Auth { reply: line })
                &&& same_ops(pre, post)
                &&& d == PopDirective::Aborted
            }
        },
        (PopPhase::NeedSecret, PopEvent::SecretResolved { secret }) => {
            &&& post.phase == PopPhase::SendPass
            &&& post.outgoing@ == pass_command_spec(secret@)
            &&& same_pse(pre, post)
            &&& d == PopDirective::WriteOutgoing
        },
        (PopPhase::SendPass, PopEvent::CommandSent) => {
            &&& post.phase == PopPhase::AwaitPassReply
            &&& post.outgoing@.len() == 0
            &&& same_pse(pre, post)
            &&& d == PopDirective::ReadLine
        },
        (PopPhase::AwaitPassReply, PopEvent::LineReceived { line }) => {
            if line_success(line@) {
                &&& post.phase == PopPhase::SendStat
                &&& post.outgoing@ == stat_command_spec()
                &&& same_pse(pre, post)
                &&& d == PopDirective::WriteOutgoing
            } else {
                &&& post.phase == PopPhase::Failed
                &&& post.error == Some(MailError::Auth { reply: line })
                &&& same_ops(pre, post)
                &&& d == PopDirective::Aborted
            }
        },
        (PopPhase::SendStat, PopEvent::CommandSent) => {
            &&& post.phase == PopPhase::AwaitStatReply
            &&& post.outgoing@.len() == 0
            &&& same_pse(pre, post)
            &&& d == PopDirective::ReadLine
        },
        (PopPhase::AwaitStatReply, PopEvent::LineReceived { line }) => {
            if stat_ok(line@) {
                &&& post.phase == PopPhase::NeedLocal { remote: stat_count(line@) as u32 }
                &&& post.stat == Some(
                    StatReply {
                        count: stat_count(line@) as u32,
                        octets: stat_octets(line@) as u64,
                    },
                )
                &&& post.outgoing == pre.outgoing
                &&& post.payload == pre.payload
                &&& post.error == pre.error
                &&& d == PopDirective::ScanMaildir
            } else {
                &&& post.phase == PopPhase::Failed
                &&& post.error == Some(MailError::Protocol { reply: line })
                &&& same_ops(pre, post)
                &&& d == PopDirective::Aborted
            }
        },
        (PopPhase::NeedLocal { remote }, PopEvent::LocalScanned { high }) => {
            if high == remote {
                &&& post.phase == PopPhase::SendQuit
                &&& post.outgoing@ == quit_command_spec()
                &&& same_pse(pre, post)
                &&& d == PopDirective::WriteOutgoing
            } else if high > remote {
                &&& post.phase == PopPhase::Failed
                &&& post.error == Some(MailError::Consistency { local: high, remote })
                &&& same_ops(pre, post)
                &&& d == PopDirective::Aborted
            } else {
                &&& post.phase == PopPhase::SendRetr { next: (high + 1) as u32, last: remote }
                &&& post.outgoing@ == retr_command_spec((high + 1) as u32)
                &&& same_pse(pre, post)
                &&& d == PopDirective::WriteOutgoing
            }
        },
        (PopPhase::SendRetr { next, last }, PopEvent::CommandSent) => {
            &&& post.phase == PopPhase::AwaitRetrBlock { next, last }
            &&& post.outgoing@.len() == 0
            &&& same_pse(pre, post)
            &&& d == PopDirective::ReadBlock
        },
        (PopPhase::AwaitRetrBlock { next, last }, PopEvent::BlockReceived { block_lines }) => {
            let dv = block_lines.deep_view();
            if dv.len() > 0 && line_success(dv[0]) {
                &&& post.phase == PopPhase::Storing { next, last }
                &&& post.payload@ == join_lf(dv.skip(1))
                &&& post.outgoing == pre.outgoing
                &&& post.stat == pre.stat
                &&& post.error == pre.error
                &&& d == PopDirective::StoreMessage { index: next }
            } else {
                &&& post.phase == PopPhase::Failed
                &&& (post.error matches Some(MailError::Protocol { reply }) && reply@ == (
                if dv.len() > 0 {
                    dv[0]
                } else {
                    Seq::<u8>::empty()
                }))
                &&& same_ops(pre, post)
                &&& d == PopDirective::Aborted
            }
        },
        (PopPhase::Storing { next, last }, PopEvent::MessageStored) => {
            &&& post.payload@.len() == 0
            &&& post.stat == pre.stat
            &&& post.error == pre.error
            &&& (if next == last {
                &&& post.phase == PopPhase::SendQuit
                &&& post.outgoing@ == quit_command_spec()
            } else {
                &&& post.phase == PopPhase::SendRetr { next: (next + 1) as u32, last }
                &&& post.outgoing@ == retr_command_spec((next + 1) as u32)
            })
            &&& d == PopDirective::WriteOutgoing
        },
        (PopPhase::SendQuit, PopEvent::CommandSent) => {
            &&& post.phase == PopPhase::AwaitQuitReply
            &&& post.outgoing@.len() == 0
            &&& same_pse(pre, post)
            &&& d == PopDirective::ReadLine
        },
        (PopPhase::AwaitQuitReply, PopEvent::LineReceived { .. }) => {
            // best effort: the quit reply is surfaced, never judged
            &&& post.phase == PopPhase::Closed
            &&& same_opse(pre, post)
            &&& d == PopDirective::Finished
        },
        (PopPhase::Closed, _) => post == pre && d == PopDirective::Finished,
        (PopPhase::Failed, _) => post == pre && d == PopDirective::Aborted,
        _ => post == pre && d == pop_directive_of(pre.phase),
    }
}

impl PopSession {
    /// A session about to introduce `user` to the server.
    pub fn new(user: &[u8]) -> (s: PopSession)
        ensures
            s.phase == PopPhase::SendUser,
            s.outgoing@ == user_command_spec(user@),
            s.payload@.len() == 0,
            (s.stat is None),
            (s.error is None),
            pop_wf(s),
    {
        PopSession {
            phase: PopPhase::SendUser,
            outgoing: user_command(user),
            payload: Vec::new(),
            stat: None,
            error: None,
        }
    }

    /// Advance the machine by one event and learn what to do next.
    pub fn next(&mut self, event: PopEvent) -> (d: PopDirective)
        requires
            pop_wf(*old(self)),
        ensures
            pop_wf(*final(self)),
            pop_next_rel(*old(self), event, *final(self), d),
    {
        let ph = self.phase;
        match (ph, event) {
            (PopPhase::SendUser, PopEvent::CommandSent) => {
                self.outgoing.clear();
                self.phase = PopPhase::AwaitUserReply;
                PopDirective::ReadLine
            },
            (PopPhase::AwaitUserReply, PopEvent::LineReceived { line }) => {
                if line_is_success(line.as_slice()) {
                    self.phase = PopPhase::NeedSecret;
                    PopDirective::ResolveSecret
                } else {
                    self.error = Some(MailError::Auth { reply: line });
                    self.phase = PopPhase::Failed;
                    PopDirective::Aborted
                }
            },
            (PopPhase::NeedSecret, PopEvent::SecretResolved { secret }) => {
                let mut secret = secret;
                self.outgoing = pass_command(secret.as_slice());
                wipe_bytes(&mut secret);
                self.phase = PopPhase::SendPass;
                PopDirective::WriteOutgoing
            },
            (PopPhase::SendPass, PopEvent::CommandSent) => {
                wipe_bytes(&mut self.outgoing);
                self.phase = PopPhase::AwaitPassReply;
                PopDirective::ReadLine
            },
            (PopPhase::AwaitPassReply, PopEvent::LineReceived { line }) => {
                if line_is_success(line.as_slice()) {
                    self.outgoing = stat_command();
                    self.phase = PopPhase::SendStat;
                    PopDirective::WriteOutgoing
                } else {
                    self.error = Some(MailError::Auth { reply: line });
                    self.phase = PopPhase::Failed;
                    PopDirective::Aborted
                }
            },
            (PopPhase::SendStat, PopEvent::CommandSent) => {
                self.outgoing.clear();
                self.phase = PopPhase::AwaitStatReply;
                PopDirective::ReadLine
            },
            (PopPhase::AwaitStatReply, PopEvent::LineReceived { line }) => {
                match parse_stat(line) {
                    Ok(sr) => {
                        self.stat = Some(sr);
                        self.phase = PopPhase::NeedLocal { remote: sr.count };
                        PopDirective::ScanMaildir
                    },
                    Err(e) => {
                        self.error = Some(e);
                        self.phase = PopPhase::Failed;
                        PopDirective::Aborted
                    },
                }
            },
            (PopPhase::NeedLocal { remote }, PopEvent::LocalScanned { high }) => {
                match fetch_plan(high, remote) {
                    Err(e) => {
                        self.error = Some(e);
                        self.phase = PopPhase::Failed;
                        PopDirective::Aborted
                    },
                    Ok(plan) => {
                        proof {
                            if high == remote {
                                assert(crate::maildir::plan_indices(plan).len() == 0);
                                assert(crate::maildir::plan_len(plan) == 0);
                            }
                        }
                        if plan.first > plan.last {
                            self.outgoing = quit_command();
                            self.phase = PopPhase::SendQuit;
                        } else {
                            self.outgoing = retr_command(plan.first);
                            self.phase = PopPhase::SendRetr { next: plan.first, last: plan.last };
                        }
                        PopDirective::WriteOutgoing
                    },
                }
            },
            (PopPhase::SendRetr { next, last }, PopEvent::CommandSent) => {
                self.outgoing.clear();
                self.phase = PopPhase::AwaitRetrBlock { next, last };
                PopDirective::ReadBlock
            },
            (PopPhase::AwaitRetrBlock { next, last }, PopEvent::BlockReceived { block_lines }) => {
                match retrieve_payload(block_lines) {
                    Ok(data) => {
                        self.payload = data;
                        self.phase = PopPhase::Storing { next, last };
                        PopDirective::StoreMessage { index: next }
                    },
                    Err(e) => {
                        self.error = Some(e);
                        self.phase = PopPhase::Failed;
                        PopDirective::Aborted
                    },
                }
            },
            (PopPhase::Storing { next, last }, PopEvent::MessageStored) => {
                self.payload.clear();
                if next == last {
                    self.outgoing = quit_command();
                    self.phase = PopPhase::SendQuit;
                } else {
                    self.outgoing = retr_command(next + 1);
                    self.phase = PopPhase::SendRetr { next: next + 1, last };
                }
                PopDirective::WriteOutgoing
            },
            (PopPhase::SendQuit, PopEvent::CommandSent) => {
                self.outgoing.clear();
                self.phase = PopPhase::AwaitQuitReply;
                PopDirective::ReadLine
            },
            (PopPhase::AwaitQuitReply, PopEvent::LineReceived { .. }) => {
                self.phase = PopPhase::Closed;
                PopDirective::Finished
            },
            (PopPhase::Closed, _) => PopDirective::Finished,
            (PopPhase::Failed, _) => PopDirective::Aborted,
            (_, _) => self.repeat_directive(),
        }
    }

    /// The directive the current phase is still waiting on.
    fn repeat_directive(&self) -> (d: PopDirective)
        ensures
            d == pop_directive_of(self.phase),
    {
        match self.phase {
            PopPhase::SendUser => PopDirective::WriteOutgoing,
            PopPhase::AwaitUserReply => PopDirective::ReadLine,
            PopPhase::NeedSecret => PopDirective::ResolveSecret,
            PopPhase::SendPass => PopDirective::WriteOutgoing,
            PopPhase::AwaitPassReply => PopDirective::ReadLine,
            PopPhase::SendStat => PopDirective::WriteOutgoing,
            PopPhase::AwaitStatReply => PopDirective::ReadLine,
            PopPhase::NeedLocal { .. } => PopDirective::ScanMaildir,
            PopPhase::SendRetr { .. } => PopDirective::WriteOutgoing,
            PopPhase::AwaitRetrBlock { .. } => PopDirective::ReadBlock,
            PopPhase::Storing { next, .. } => PopDirective::StoreMessage { index: next },
            PopPhase::SendQuit => PopDirective::WriteOutgoing,
            PopPhase::AwaitQuitReply => PopDirective::ReadLine,
            PopPhase::Closed => PopDirective::Finished,
            PopPhase::Failed => PopDirective::Aborted,
        }
    }
}

/// A rejected `pass` reply surfaces the literal reply as an
/// authentication error and abandons the session on the spot.
pub proof fn lemma_auth_failure_surfaces_reply(
    pre: PopSession,
    line: Vec<u8>,
    post: PopSession,
    d: PopDirective,
)
    requires
        pre.phase == PopPhase::AwaitPassReply,
        !line_success(line@),
        pop_next_rel(pre, PopEvent::LineReceived { line }, post, d),
    ensures
        post.phase == PopPhase::Failed,
        post.error == Some(MailError::Auth { reply: line }),
        d == PopDirective::Aborted,
{
}

/// A failed session never asks for anything again — in particular it
/// never directs a retrieval or a store: every further event is
/// answered with `Aborted` and changes nothing.
pub proof fn lemma_failed_is_terminal(
    pre: PopSession,
    event: PopEvent,
    post: PopSession,
    d: PopDirective,
)
    requires
        pre.phase == PopPhase::Failed,
        pop_next_rel(pre, event, post, d),
    ensures
        post == pre,
        d == PopDirective::Aborted,
        !(d is WriteOutgoing),
        !(d is ReadBlock),
        !(d is StoreMessage),
{
}

} // verus!
