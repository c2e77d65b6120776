//! Byte-level line utilities shared by the framer, the session drivers
//! and the configuration parser: finding and splitting CR LF / LF
//! separated lines, joining lines with LF, and decimal conversion.

use vstd::prelude::*;

verus! {

/// Carriage return.
pub const CR: u8 = 13;

/// Line feed.
pub const LF: u8 = 10;

/// The multi-line block delimiter byte, `.`.
pub const DOT: u8 = 46;

/// Move the whole content of `to_empty` onto the end of `to_fill`,
/// leaving `to_empty` empty.
pub fn flush(to_fill: &mut Vec<u8>, to_empty: &mut Vec<u8>)
    ensures
        final(to_fill)@ == old(to_fill)@ + old(to_empty)@,
        final(to_empty)@.len() == 0,
{
    to_fill.append(to_empty);
    to_empty.clear();
}

/// Append the bytes of `src` to `dst`.
pub fn push_all(dst: &mut Vec<u8>, src: &[u8])
    ensures
        final(dst)@ == old(dst)@ + src@,
{
    dst.extend_from_slice(src);
}

/// The index of the first occurrence of `t` in `s`, or `s.len()` if
/// there is none.
pub open spec fn find_byte(s: Seq<u8>, t: u8) -> int
    decreases s.len(),
{
    if s.len() == 0 {
        0
    } else if s[0] == t {
        0
    } else {
        1 + find_byte(s.drop_first(), t)
    }
}

pub proof fn lemma_find_byte(s: Seq<u8>, t: u8)
    ensures
        0 <= find_byte(s, t) <= s.len(),
        find_byte(s, t) < s.len() ==> s[find_byte(s, t)] == t,
        forall|j: int| 0 <= j < find_byte(s, t) ==> s[j] != t,
    decreases s.len(),
{
    if s.len() == 0 {
    } else if s[0] == t {
    } else {
        lemma_find_byte(s.drop_first(), t);
        assert forall|j: int| 0 <= j < find_byte(s, t) implies s[j] != t by {
            if j > 0 {
                assert(s.drop_first()[j - 1] != t);
            }
        }
    }
}

/// The index of the first line feed in `s`, or `s.len()` if there is none.
pub open spec fn find_lf(s: Seq<u8>) -> int {
    find_byte(s, LF)
}

/// A line with a trailing carriage return removed, if it carries one.
pub open spec fn strip_cr(l: Seq<u8>) -> Seq<u8> {
    if l.len() > 0 && l.last() == CR {
        l.drop_last()
    } else {
        l
    }
}

/// The first line of a byte block: the bytes before the first line
/// feed, with a trailing carriage return removed.
pub open spec fn spec_first_line(s: Seq<u8>) -> Seq<u8> {
    strip_cr(s.take(find_lf(s)))
}

/// The text split into lines on line feeds, each line with a trailing
/// carriage return removed; a final line feed closes the last line
/// rather than opening an empty one.
pub open spec fn split_lines(s: Seq<u8>) -> Seq<Seq<u8>>
    decreases s.len(),
{
    if s.len() == 0 {
        seq![]
    } else {
        let e = find_lf(s);
        if 0 <= e && e < s.len() {
            seq![strip_cr(s.take(e))] + split_lines(s.skip(e + 1))
        } else {
            seq![strip_cr(s)]
        }
    }
}

/// The lines joined with single line feed bytes in between.
pub open spec fn join_lf(ls: Seq<Seq<u8>>) -> Seq<u8>
    decreases ls.len(),
{
    if ls.len() == 0 {
        seq![]
    } else if ls.len() == 1 {
        ls[0]
    } else {
        join_lf(ls.drop_last()) + seq![LF] + ls.last()
    }
}

/// Find the first line feed at or after `from`, or the length if there
/// is none from there on.
fn scan_lf(s: &[u8], from: usize) -> (r: usize)
    requires
        from <= s@.len(),
    ensures
        from <= r <= s@.len(),
        find_lf(s@.skip(from as int)) == r - from,
        r < s@.len() ==> s@[r as int] == LF,
        forall|j: int| from <= j < r ==> s@[j] != LF,
{
    let n = s.len();
    let mut i = from;
    while i < n
        invariant
            from <= i <= n,
            n == s@.len(),
            forall|j: int| from <= j < i ==> s@[j] != LF,
        decreases n - i,
    {
        if s[i] == LF {
            proof {
                lemma_scan_to_find(s@, from as int, i as int);
            }
            return i;
        }
        i = i + 1;
    }
    proof {
        lemma_scan_to_find(s@, from as int, n as int);
    }
    n
}

proof fn lemma_scan_to_find(s: Seq<u8>, from: int, i: int)
    requires
        0 <= from <= i <= s.len(),
        forall|j: int| from <= j < i ==> s[j] != LF,
        i < s.len() ==> s[i] == LF,
    ensures
        find_lf(s.skip(from)) == i - from,
{
    let t = s.skip(from);
    assert forall|j: int| 0 <= j < i - from implies t[j] != LF by {
        assert(t[j] == s[from + j]);
    }
    lemma_find_byte_unique(t, LF, i - from);
}

proof fn lemma_find_byte_unique(s: Seq<u8>, t: u8, i: int)
    requires
        0 <= i <= s.len(),
        forall|j: int| 0 <= j < i ==> s[j] != t,
        i < s.len() ==> s[i] == t,
    ensures
        find_byte(s, t) == i,
    decreases s.len(),
{
    if s.len() == 0 {
    } else if s[0] == t {
        assert(i == 0);
    } else {
        assert(i >= 1);
        lemma_find_byte_unique(s.drop_first(), t, i - 1);
    }
}

/// Find the first occurrence of `t` at or after `from`, or the
/// length if there is none from there on.
pub fn scan_byte(s: &[u8], from: usize, t: u8) -> (r: usize)
    requires
        from <= s@.len(),
    ensures
        from <= r <= s@.len(),
        find_byte(s@.skip(from as int), t) == r - from,
        r < s@.len() ==> s@[r as int] == t,
        forall|j: int| from <= j < r ==> s@[j] != t,
{
    let n = s.len();
    let mut i: usize = from;
    while i < n
        invariant
            from <= i <= n,
            n == s@.len(),
            forall|j: int| from <= j < i ==> s@[j] != t,
        decreases n - i,
    {
        if s[i] == t {
            proof {
                lemma_scan_byte_to_find(s@, t, from as int, i as int);
            }
            return i;
        }
        i = i + 1;
    }
    proof {
        lemma_scan_byte_to_find(s@, t, from as int, n as int);
    }
    n
}

proof fn lemma_scan_byte_to_find(s: Seq<u8>, t: u8, from: int, i: int)
    requires
        0 <= from <= i <= s.len(),
        forall|j: int| from <= j < i ==> s[j] != t,
        i < s.len() ==> s[i] == t,
    ensures
        find_byte(s.skip(from), t) == i - from,
{
    let u = s.skip(from);
    assert forall|j: int| 0 <= j < i - from implies u[j] != t by {
        assert(u[j] == s[from + j]);
    }
    lemma_find_byte_unique(u, t, i - from);
}

/// The text split into segments on every occurrence of `t`; an
/// occurrence at the end opens a final empty segment, and an empty
/// text is one empty segment.
pub open spec fn split_byte(s: Seq<u8>, t: u8) -> Seq<Seq<u8>>
    decreases s.len(),
{
    let e = find_byte(s, t);
    if 0 <= e && e < s.len() {
        seq![s.take(e)] + split_byte(s.skip(e + 1), t)
    } else {
        seq![s]
    }
}

/// Split a text on every occurrence of `t`, as [`split_byte`]
/// describes.
pub fn split_byte_vec(s: &[u8], t: u8) -> (r: Vec<Vec<u8>>)
    ensures
        r.deep_view() == split_byte(s@, t),
{
    let mut res: Vec<Vec<u8>> = Vec::new();
    let mut pos: usize = 0;
    proof {
        assert(s@.skip(0) =~= s@);
        assert(res.deep_view() =~~= Seq::<Seq<u8>>::empty());
    }
    let mut e = scan_byte(s, 0, t);
    while e < s.len()
        invariant
            pos <= e <= s@.len(),
            find_byte(s@.skip(pos as int), t) == e - pos,
            e < s@.len() ==> s@[e as int] == t,
            split_byte(s@, t) =~~= res.deep_view() + split_byte(s@.skip(pos as int), t),
        decreases s@.len() - pos,
    {
        let seg = copy_range(s, pos, e);
        proof {
            let rest = s@.skip(pos as int);
            let le = find_byte(rest, t);
            assert(rest.take(le) =~= s@.subrange(pos as int, e as int));
            assert(rest.skip(le + 1) =~= s@.skip(e + 1));
        }
        res.push(seg);
        pos = e + 1;
        e = scan_byte(s, pos, t);
    }
    let seg = copy_range(s, pos, s.len());
    proof {
        let rest = s@.skip(pos as int);
        assert(rest =~= s@.subrange(pos as int, s@.len() as int));
    }
    res.push(seg);
    proof {
        assert(res.deep_view() =~~= split_byte(s@, t));
    }
    res
}

/// Copy `s[from..to]` into a fresh vector.
pub fn copy_range(s: &[u8], from: usize, to: usize) -> (r: Vec<u8>)
    requires
        from <= to <= s@.len(),
    ensures
        r@ == s@.subrange(from as int, to as int),
{
    let mut r: Vec<u8> = Vec::new();
    let mut i = from;
    while i < to
        invariant
            from <= i <= to <= s@.len(),
            r@ == s@.subrange(from as int, i as int),
        decreases to - i,
    {
        r.push(s[i]);
        proof {
            assert(r@ =~= s@.subrange(from as int, i + 1));
        }
        i = i + 1;
    }
    r
}

/// The first line of a block, or `None` when the block is empty.
pub fn first_line(s: &[u8]) -> (r: Option<Vec<u8>>)
    ensures
        r is Some <==> s@.len() > 0,
        r is Some ==> r->0@ == spec_first_line(s@),
{
    if s.len() == 0 {
        return None;
    }
    let e = scan_lf(s, 0);
    proof {
        assert(s@.skip(0) =~= s@);
        lemma_find_byte(s@, LF);
    }
    let end = if e > 0 && s[e - 1] == CR {
        e - 1
    } else {
        e
    };
    let line = copy_range(s, 0, end);
    proof {
        let l = s@.take(find_lf(s@));
        if e > 0 && s@[e - 1] == CR {
            assert(l.last() == CR);
            assert(line@ =~= l.drop_last());
        } else {
            if l.len() > 0 {
                assert(l.last() == s@[e - 1]);
            }
            assert(line@ =~= l);
        }
    }
    Some(line)
}

/// Split a block into its lines, as [`split_lines`] describes.
pub fn split_lines_vec(s: &[u8]) -> (r: Vec<Vec<u8>>)
    ensures
        r.deep_view() == split_lines(s@),
{
    let mut res: Vec<Vec<u8>> = Vec::new();
    let mut pos: usize = 0;
    proof {
        assert(s@.skip(0) =~= s@);
        assert(res.deep_view() =~~= Seq::<Seq<u8>>::empty());
    }
    while pos < s.len()
        invariant
            pos <= s@.len(),
            split_lines(s@) =~~= res.deep_view() + split_lines(s@.skip(pos as int)),
        decreases s@.len() - pos,
    {
        let e = scan_lf(s, pos);
        let end = if e > pos && s[e - 1] == CR {
            e - 1
        } else {
            e
        };
        let line = copy_range(s, pos, end);
        let ghost rest = s@.skip(pos as int);
        proof {
            let le = find_lf(rest);
            if e < s@.len() {
                // a line closed by a line feed
                assert(rest.take(le) =~= s@.subrange(pos as int, e as int));
                if e > pos && s@[e - 1] == CR {
                    assert(rest.take(le).last() == CR);
                    assert(line@ =~= rest.take(le).drop_last());
                } else {
                    if le > 0 {
                        assert(rest.take(le).last() == s@[e - 1]);
                    }
                    assert(line@ =~= rest.take(le));
                }
                assert(rest.skip(le + 1) =~= s@.skip(e + 1));
            } else {
                // the final, unterminated line
                assert(rest =~= s@.subrange(pos as int, e as int));
                if e > pos && s@[e - 1] == CR {
                    assert(line@ =~= rest.drop_last());
                } else {
                    if rest.len() > 0 {
                        assert(rest.last() == s@[e - 1]);
                    }
                    assert(line@ =~= rest);
                }
                assert(s@.skip(s@.len() as int) =~= Seq::<u8>::empty());
            }
        }
        res.push(line);
        pos = if e < s.len() {
            e + 1
        } else {
            s.len()
        };
    }
    proof {
        assert(s@.skip(s@.len() as int) =~= Seq::<u8>::empty());
        assert(res.deep_view() =~~= res.deep_view() + split_lines(s@.skip(pos as int)));
    }
    res
}

/// Join `ls[start..]` with single line feed bytes.
pub fn join_with_lf(ls: &Vec<Vec<u8>>, start: usize) -> (r: Vec<u8>)
    requires
        start <= ls@.len(),
    ensures
        r@ == join_lf(ls.deep_view().skip(start as int)),
{
    let ghost tail = ls.deep_view().skip(start as int);
    let mut r: Vec<u8> = Vec::new();
    let mut i = start;
    while i < ls.len()
        invariant
            start <= i <= ls@.len(),
            tail == ls.deep_view().skip(start as int),
            ls.deep_view().len() == ls@.len(),
            r@ == join_lf(tail.take(i - start)),
        decreases ls@.len() - i,
    {
        if i > start {
            r.push(LF);
        }
        push_all(&mut r, ls[i].as_slice());
        proof {
            let k = i - start + 1;
            assert(tail.take(k).drop_last() =~= tail.take(k - 1));
            assert(tail.take(k).last() == ls.deep_view()[i as int]);
            if k == 1 {
                assert(join_lf(tail.take(k)) == tail[0]);
                assert(r@ =~= tail[0]);
            } else {
                assert(r@ =~= join_lf(tail.take(k - 1)) + seq![LF] + tail.take(k).last());
            }
        }
        i = i + 1;
    }
    proof {
        assert(tail.take(ls@.len() - start) =~= tail);
    }
    r
}

/// A decimal digit byte, `0` through `9`.
pub open spec fn is_digit(b: u8) -> bool {
    48 <= b <= 57
}

/// Every byte of `s` is a decimal digit.
pub open spec fn all_digits(s: Seq<u8>) -> bool {
    forall|i: int| 0 <= i < s.len() ==> is_digit(s[i])
}

/// The numeric value of a sequence of decimal digit bytes.
pub open spec fn digits_val(s: Seq<u8>) -> nat
    decreases s.len(),
{
    if s.len() == 0 {
        0
    } else {
        10 * digits_val(s.drop_last()) + (if is_digit(s.last()) {
            (s.last() - 48) as nat
        } else {
            0
        })
    }
}

proof fn lemma_digits_val_prefix_le(s: Seq<u8>, i: int)
    requires
        0 <= i <= s.len(),
    ensures
        digits_val(s.take(i)) <= digits_val(s),
    decreases s.len(),
{
    if i < s.len() {
        assert(s.drop_last().take(i) =~= s.take(i));
        lemma_digits_val_prefix_le(s.drop_last(), i);
    } else {
        assert(s.take(i) =~= s);
    }
}

/// Parse an unsigned decimal number, the whole slice being digits.
pub fn parse_u64(s: &[u8]) -> (r: Option<u64>)
    ensures
        r is Some <==> (s@.len() > 0 && all_digits(s@) && digits_val(s@) <= u64::MAX),
        r is Some ==> r->0 == digits_val(s@),
{
    if s.len() == 0 {
        return None;
    }
    let mut v: u64 = 0;
    let mut i: usize = 0;
    while i < s.len()
        invariant
            0 <= i <= s@.len(),
            all_digits(s@.take(i as int)),
            v == digits_val(s@.take(i as int)),
        decreases s@.len() - i,
    {
        let b = s[i];
        if b < 48 || b > 57 {
            return None;
        }
        let d = (b - 48) as u64;
        if v > (u64::MAX - d) / 10 {
            proof {
                let w = s@.take(i + 1);
                assert(w.drop_last() =~= s@.take(i as int));
                assert(w.last() == b);
                let m = (u64::MAX - d) as int;
                vstd::arithmetic::div_mod::lemma_fundamental_div_mod(m, 10);
                assert(10 * (v as int) >= 10 * (m / 10 + 1)) by (nonlinear_arith)
                    requires
                        v as int >= m / 10 + 1,
                ;
                assert(digits_val(w) > u64::MAX);
                lemma_digits_val_prefix_le(s@, i + 1);
            }
            return None;
        }
        proof {
            let w = s@.take(i + 1);
            assert(w.drop_last() =~= s@.take(i as int));
            assert(w.last() == b);
            let m = (u64::MAX - d) as int;
            vstd::arithmetic::div_mod::lemma_fundamental_div_mod(m, 10);
            assert(10 * (v as int) <= 10 * (m / 10)) by (nonlinear_arith)
                requires
                    v as int <= m / 10,
            ;
        }
        v = v * 10 + d;
        i = i + 1;
    }
    proof {
        assert(s@.take(s@.len() as int) =~= s@);
    }
    Some(v)
}

/// Parse an unsigned decimal number into 32 bits.
pub fn parse_u32(s: &[u8]) -> (r: Option<u32>)
    ensures
        r is Some <==> (s@.len() > 0 && all_digits(s@) && digits_val(s@) <= u32::MAX),
        r is Some ==> r->0 == digits_val(s@),
{
    match parse_u64(s) {
        None => None,
        Some(v) => {
            if v <= 0xffff_ffff {
                Some(v as u32)
            } else {
                None
            }
        },
    }
}

/// The decimal digit bytes of a number, most significant first.
pub open spec fn dec_seq(n: nat) -> Seq<u8>
    decreases n,
{
    if n < 10 {
        seq![(48 + n) as u8]
    } else {
        dec_seq(n / 10).push((48 + n % 10) as u8)
    }
}

/// Render a number in decimal.
pub fn u32_to_dec(n: u32) -> (r: Vec<u8>)
    ensures
        r@ == dec_seq(n as nat),
    decreases n,
{
    if n < 10 {
        let mut r: Vec<u8> = Vec::new();
        r.push(48 + n as u8);
        r
    } else {
        let mut r = u32_to_dec(n / 10);
        r.push(48 + (n % 10) as u8);
        r
    }
}

} // verus!
