//! The response framer: turns the raw byte stream of a transport into
//! the lines of a terminated multi-line block.
//!
//! Lines are separated by CR LF. The block ends with a line that is a
//! single delimiter byte `.` followed by CR LF. A data line that
//! begins with the delimiter byte arrives with one extra leading
//! delimiter byte, which the framer strips before exposing the line.
//!
//! The framer is an explicit state machine fed one byte at a time; a
//! caller feeds it whatever each read returned and asks whether the
//! terminator has been seen, so line and block boundaries need not
//! align with read boundaries.

use vstd::prelude::*;

use crate::lines::{CR, DOT, LF};

verus! {

/// Where the framer stands between two bytes.
#[derive(Clone, Copy, PartialEq, Eq, Structural, Debug)]
pub enum Phase {
    /// At the start of a line, nothing held back.
    Start,
    /// Inside a line, nothing held back.
    Mid,
    /// A single delimiter byte seen at the start of a line: either a
    /// stuffed delimiter or the beginning of the terminator line.
    Dot,
    /// A CR seen after the line content gathered so far.
    Cr,
    /// A delimiter byte and then a CR seen at the start of a line:
    /// one byte short of the terminator.
    DotCr,
    /// The terminator has been seen; the block is complete.
    Done,
}

/// The framer's abstract state: its phase, the content of the line
/// being gathered, and the lines already committed.
#[verifier::ext_equal]
pub struct FramerView {
    pub phase: Phase,
    pub current: Seq<u8>,
    pub lines: Seq<Seq<u8>>,
}

/// The framer's state before any byte.
pub open spec fn framer_init() -> FramerView {
    FramerView { phase: Phase::Start, current: seq![], lines: seq![] }
}

/// One byte of the framing state machine.
///
/// A lone LF with no pending CR is ignored; a held delimiter byte is
/// dropped when line content follows it (byte-stuffing removal) and
/// closes the block when CR LF follows it.
pub open spec fn framer_step(m: FramerView, b: u8) -> FramerView {
    match m.phase {
        Phase::Start => {
            if b == CR {
                FramerView { phase: Phase::Cr, ..m }
            } else if b == LF {
                m
            } else if b == DOT {
                FramerView { phase: Phase::Dot, ..m }
            } else {
                FramerView { phase: Phase::Mid, current: m.current.push(b), ..m }
            }
        },
        Phase::Mid => {
            if b == CR {
                FramerView { phase: Phase::Cr, ..m }
            } else if b == LF {
                m
            } else {
                FramerView { phase: Phase::Mid, current: m.current.push(b), ..m }
            }
        },
        Phase::Dot => {
            if b == CR {
                FramerView { phase: Phase::DotCr, ..m }
            } else if b == LF {
                m
            } else {
                // the held delimiter was stuffing: drop it
                FramerView { phase: Phase::Mid, current: m.current.push(b), ..m }
            }
        },
        Phase::Cr => {
            if b == LF {
                FramerView {
                    phase: Phase::Start,
                    current: seq![],
                    lines: m.lines.push(m.current),
                }
            } else if b == CR {
                FramerView { phase: Phase::Cr, current: m.current.push(CR), ..m }
            } else {
                FramerView { phase: Phase::Mid, current: m.current.push(CR).push(b), ..m }
            }
        },
        Phase::DotCr => {
            if b == LF {
                FramerView { phase: Phase::Done, ..m }
            } else if b == CR {
                // the delimiter was stuffing; the first CR is content
                FramerView { phase: Phase::Cr, current: m.current.push(CR), ..m }
            } else {
                FramerView { phase: Phase::Mid, current: m.current.push(CR).push(b), ..m }
            }
        },
        Phase::Done => m,
    }
}

/// The state after feeding every byte of `s` in order.
pub open spec fn framer_feed(m: FramerView, s: Seq<u8>) -> FramerView
    decreases s.len(),
{
    if s.len() == 0 {
        m
    } else {
        framer_feed(framer_step(m, s[0]), s.drop_first())
    }
}

pub proof fn lemma_framer_feed_snoc(m: FramerView, s: Seq<u8>, b: u8)
    ensures
        framer_feed(m, s.push(b)) == framer_step(framer_feed(m, s), b),
    decreases s.len(),
{
    if s.len() == 0 {
        assert(s.push(b)[0] == b);
        assert(s.push(b).drop_first() =~= Seq::<u8>::empty());
        assert(framer_feed(m, s.push(b)) == framer_feed(framer_step(m, b), Seq::<u8>::empty()));
    } else {
        assert(s.push(b).drop_first() =~= s.drop_first().push(b));
        lemma_framer_feed_snoc(framer_step(m, s[0]), s.drop_first(), b);
    }
}

pub proof fn lemma_framer_feed_concat(m: FramerView, a: Seq<u8>, b: Seq<u8>)
    ensures
        framer_feed(m, a + b) == framer_feed(framer_feed(m, a), b),
    decreases a.len(),
{
    if a.len() == 0 {
        assert(a + b =~= b);
    } else {
        assert((a + b).drop_first() =~= a.drop_first() + b);
        lemma_framer_feed_concat(framer_step(m, a[0]), a.drop_first(), b);
    }
}

proof fn lemma_feed2(m: FramerView, a: u8, b: u8)
    ensures
        framer_feed(m, seq![a, b]) == framer_step(framer_step(m, a), b),
{
    let s = seq![a, b];
    assert(s.drop_first() =~= seq![b]);
    assert(framer_feed(m, s) == framer_feed(framer_step(m, a), seq![b]));
    assert(seq![b].drop_first() =~= Seq::<u8>::empty());
    assert(framer_feed(framer_step(m, a), seq![b]) == framer_feed(
        framer_step(framer_step(m, a), b),
        Seq::<u8>::empty(),
    ));
}

proof fn lemma_feed3(m: FramerView, a: u8, b: u8, c: u8)
    ensures
        framer_feed(m, seq![a, b, c]) == framer_step(framer_step(framer_step(m, a), b), c),
{
    let s = seq![a, b, c];
    assert(s.drop_first() =~= seq![b, c]);
    assert(framer_feed(m, s) == framer_feed(framer_step(m, a), seq![b, c]));
    lemma_feed2(framer_step(m, a), b, c);
}

/// The response framer. See the module documentation.
pub struct Framer {
    phase: Phase,
    current: Vec<u8>,
    lines: Vec<Vec<u8>>,
}

impl View for Framer {
    type V = FramerView;

    closed spec fn view(&self) -> FramerView {
        FramerView {
            phase: self.phase,
            current: self.current@,
            lines: self.lines.deep_view(),
        }
    }
}

impl Framer {
    /// A framer that has seen no byte yet.
    pub fn new() -> (f: Framer)
        ensures
            f@ == framer_init(),
    {
        let f = Framer { phase: Phase::Start, current: Vec::new(), lines: Vec::new() };
        proof {
            assert(f@.lines =~~= framer_init().lines);
            assert(f@ =~~= framer_init());
        }
        f
    }

    /// Whether the block terminator has been seen.
    pub fn is_done(&self) -> (r: bool)
        ensures
            r == (self@.phase is Done),
    {
        matches!(self.phase, Phase::Done)
    }

    /// Feed one byte.
    pub fn feed_byte(&mut self, b: u8)
        ensures
            final(self)@ == framer_step(old(self)@, b),
    {
        let ghost pre = self@;
        match self.phase {
            Phase::Start => {
                if b == CR {
                    self.phase = Phase::Cr;
                } else if b == LF {
                } else if b == DOT {
                    self.phase = Phase::Dot;
                } else {
                    self.phase = Phase::Mid;
                    self.current.push(b);
                }
            },
            Phase::Mid => {
                if b == CR {
                    self.phase = Phase::Cr;
                } else if b == LF {
                } else {
                    self.current.push(b);
                }
            },
            Phase::Dot => {
                if b == CR {
                    self.phase = Phase::DotCr;
                } else if b == LF {
                } else {
                    self.phase = Phase::Mid;
                    self.current.push(b);
                }
            },
            Phase::Cr => {
                if b == LF {
                    self.phase = Phase::Start;
                    let mut done_line: Vec<u8> = Vec::new();
                    core::mem::swap(&mut done_line, &mut self.current);
                    self.lines.push(done_line);
                } else if b == CR {
                    self.current.push(CR);
                } else {
                    self.phase = Phase::Mid;
                    self.current.push(CR);
                    self.current.push(b);
                }
            },
            Phase::DotCr => {
                if b == LF {
                    self.phase = Phase::Done;
                } else if b == CR {
                    self.phase = Phase::Cr;
                    self.current.push(CR);
                } else {
                    self.phase = Phase::Mid;
                    self.current.push(CR);
                    self.current.push(b);
                }
            },
            Phase::Done => {},
        }
        proof {
            assert(self@ =~~= framer_step(pre, b));
        }
    }

    /// Feed every byte of a block, in order.
    pub fn feed(&mut self, block: &[u8])
        ensures
            final(self)@ == framer_feed(old(self)@, block@),
    {
        let ghost pre = self@;
        let mut i: usize = 0;
        while i < block.len()
            invariant
                i <= block@.len(),
                self@ == framer_feed(pre, block@.take(i as int)),
            decreases block@.len() - i,
        {
            let b = block[i];
            self.feed_byte(b);
            proof {
                assert(block@.take(i + 1).drop_last() =~= block@.take(i as int));
                assert(block@.take(i + 1) =~= block@.take(i as int).push(b));
                lemma_framer_feed_snoc(pre, block@.take(i as int), b);
            }
            i = i + 1;
        }
        proof {
            assert(block@.take(block@.len() as int) =~= block@);
        }
    }

    /// The committed lines of the completed block.
    pub fn into_lines(self) -> (r: Vec<Vec<u8>>)
        ensures
            r.deep_view() == self@.lines,
    {
        self.lines
    }
}

/// A line with the escape applied that a sender uses on the wire: one
/// extra leading delimiter byte when the line starts with one.
pub open spec fn stuffed(line: Seq<u8>) -> Seq<u8> {
    if line.len() > 0 && line[0] == DOT {
        seq![DOT] + line
    } else {
        line
    }
}

/// The wire bytes of the data lines of a block: each line stuffed and
/// closed with CR LF.
pub open spec fn encode_lines(ls: Seq<Seq<u8>>) -> Seq<u8>
    decreases ls.len(),
{
    if ls.len() == 0 {
        seq![]
    } else {
        stuffed(ls[0]) + seq![CR, LF] + encode_lines(ls.drop_first())
    }
}

/// The wire bytes of a whole block: the data lines and the terminator
/// line `.` CR LF.
pub open spec fn encode_block(ls: Seq<Seq<u8>>) -> Seq<u8> {
    encode_lines(ls) + seq![DOT, CR, LF]
}

/// A line that can ride in a block: free of CR and LF, and not itself
/// the lone delimiter byte.
pub open spec fn line_ok(l: Seq<u8>) -> bool {
    &&& forall|i: int| 0 <= i < l.len() ==> l[i] != CR && l[i] != LF
    &&& l != seq![DOT]
}

proof fn lemma_feed_line_content(m: FramerView, s: Seq<u8>)
    requires
        (m.phase is Mid),
        forall|i: int| 0 <= i < s.len() ==> s[i] != CR && s[i] != LF,
    ensures
        framer_feed(m, s) == (FramerView { phase: Phase::Mid, current: m.current + s, ..m }),
    decreases s.len(),
{
    if s.len() == 0 {
        assert(m.current + s =~= m.current);
        assert(framer_feed(m, s) =~~= FramerView { phase: Phase::Mid, current: m.current + s, ..m });
    } else {
        let m1 = framer_step(m, s[0]);
        assert(m1.current =~= m.current.push(s[0]));
        lemma_feed_line_content(m1, s.drop_first());
        assert(m.current.push(s[0]) + s.drop_first() =~= m.current + s);
    }
}

proof fn lemma_feed_one_line(m: FramerView, line: Seq<u8>)
    requires
        (m.phase is Start),
        m.current == Seq::<u8>::empty(),
        line_ok(line),
    ensures
        framer_feed(m, stuffed(line) + seq![CR, LF]) == (FramerView {
            phase: Phase::Start,
            current: seq![],
            lines: m.lines.push(line),
        }),
{
    let w = stuffed(line) + seq![CR, LF];
    if line.len() == 0 {
        // bare CR LF
        assert(w =~= seq![CR, LF]);
        let m1 = framer_step(m, CR);
        let m2 = framer_step(m1, LF);
        lemma_feed2(m, CR, LF);
        assert(framer_feed(m, w) == m2);
        assert(m2.lines =~~= m.lines.push(line));
    } else if line[0] == DOT {
        // a stuffed line: an extra delimiter byte leads
        assert(w =~= seq![DOT] + line + seq![CR, LF]);
        let m1 = framer_step(m, DOT);
        assert(m1.phase is Dot);
        let m2 = framer_step(m1, line[0]);
        assert(m2.phase is Mid && m2.current =~= seq![line[0]]);
        assert(w.drop_first() =~= line + seq![CR, LF]);
        assert((line + seq![CR, LF]).drop_first() =~= line.drop_first() + seq![CR, LF]);
        assert(framer_feed(m, w) == framer_feed(m1, line + seq![CR, LF]));
        assert(framer_feed(m1, line + seq![CR, LF]) == framer_feed(
            m2,
            line.drop_first() + seq![CR, LF],
        ));
        lemma_feed_line_content(m2, line.drop_first());
        let m3 = framer_feed(m2, line.drop_first());
        assert(m3.current =~= seq![line[0]] + line.drop_first());
        assert(m3.current =~= line);
        lemma_framer_feed_concat(m2, line.drop_first(), seq![CR, LF]);
        let m4 = framer_step(m3, CR);
        let m5 = framer_step(m4, LF);
        lemma_feed2(m3, CR, LF);
        assert(framer_feed(m3, seq![CR, LF]) == m5);
        assert(m5.lines =~~= m.lines.push(line));
        assert(framer_feed(m, w) == m5);
    } else {
        // an ordinary line
        assert(w =~= line + seq![CR, LF]);
        let m1 = framer_step(m, line[0]);
        assert(m1.phase is Mid && m1.current =~= seq![line[0]]);
        assert(w.drop_first() =~= line.drop_first() + seq![CR, LF]);
        lemma_feed_line_content(m1, line.drop_first());
        let m3 = framer_feed(m1, line.drop_first());
        assert(m3.current =~= seq![line[0]] + line.drop_first());
        assert(m3.current =~= line);
        lemma_framer_feed_concat(m1, line.drop_first(), seq![CR, LF]);
        let m4 = framer_step(m3, CR);
        let m5 = framer_step(m4, LF);
        lemma_feed2(m3, CR, LF);
        assert(framer_feed(m3, seq![CR, LF]) == m5);
        assert(m5.lines =~~= m.lines.push(line));
        assert(framer_feed(m, w) == m5);
    }
}

proof fn lemma_feed_encoded_lines(m: FramerView, ls: Seq<Seq<u8>>)
    requires
        (m.phase is Start),
        m.current == Seq::<u8>::empty(),
        forall|i: int| 0 <= i < ls.len() ==> line_ok(#[trigger] ls[i]),
    ensures
        framer_feed(m, encode_lines(ls)) == (FramerView {
            phase: Phase::Start,
            current: seq![],
            lines: m.lines + ls,
        }),
    decreases ls.len(),
{
    if ls.len() == 0 {
        assert(m.lines + ls =~~= m.lines);
        assert(framer_feed(m, encode_lines(ls)) =~~= FramerView {
            phase: Phase::Start,
            current: seq![],
            lines: m.lines + ls,
        });
    } else {
        let first = stuffed(ls[0]) + seq![CR, LF];
        lemma_framer_feed_concat(m, first, encode_lines(ls.drop_first()));
        assert(encode_lines(ls) =~= first + encode_lines(ls.drop_first()));
        lemma_feed_one_line(m, ls[0]);
        let m1 = framer_feed(m, first);
        lemma_feed_encoded_lines(m1, ls.drop_first());
        assert(m.lines.push(ls[0]) + ls.drop_first() =~~= m.lines + ls);
    }
}

/// The framer round-trip law: any sequence of CR-and-LF-free lines,
/// none of which is the lone delimiter byte, once byte-stuffed,
/// CR-LF-framed and terminated, is reproduced by the framer exactly
/// and in order, and the block is recognized as complete.
pub proof fn lemma_framer_round_trip(ls: Seq<Seq<u8>>)
    requires
        forall|i: int| 0 <= i < ls.len() ==> line_ok(#[trigger] ls[i]),
    ensures
        framer_feed(framer_init(), encode_block(ls)) == (FramerView {
            phase: Phase::Done,
            current: seq![],
            lines: ls,
        }),
{
    let m = framer_init();
    lemma_framer_feed_concat(m, encode_lines(ls), seq![DOT, CR, LF]);
    lemma_feed_encoded_lines(m, ls);
    let m1 = framer_feed(m, encode_lines(ls));
    assert(m1.lines =~~= ls);
    let m2 = framer_step(m1, DOT);
    let m3 = framer_step(m2, CR);
    let m4 = framer_step(m3, LF);
    lemma_feed3(m1, DOT, CR, LF);
    assert(framer_feed(m1, seq![DOT, CR, LF]) == m4);
    assert(m4.phase is Done);
}

} // verus!
