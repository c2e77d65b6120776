//! The reconciler's local side: reading the high-water mark out of
//! maildir file names, planning the fetch range, and the atomic
//! commit of a fetched message, modeled over the three directories
//! `tmp`, `new` and `cur`.

use vstd::prelude::*;

use crate::errors::MailError;
use crate::lines::{all_digits, digits_val, find_byte, parse_u32, scan_byte, copy_range};

verus! {

/// The `:` that separates a message index from a mail client's flag
/// annotation in a maildir file name.
pub const COLON: u8 = 58;

/// The part of a file name before the first `:`, or all of it.
pub open spec fn name_prefix(s: Seq<u8>) -> Seq<u8> {
    s.take(find_byte(s, COLON))
}

/// A file name whose prefix is a message index: nonempty, all decimal
/// digits, and in range.
pub open spec fn name_ok(s: Seq<u8>) -> bool {
    &&& name_prefix(s).len() > 0
    &&& all_digits(name_prefix(s))
    &&& digits_val(name_prefix(s)) <= u32::MAX
}

/// The message index a file name carries.
pub open spec fn name_val(s: Seq<u8>) -> nat {
    digits_val(name_prefix(s))
}

/// The message index of a maildir file name: the numeric prefix
/// before any `:`-delimited flag suffix, which is ignored.
pub fn numeric_prefix(name: &[u8]) -> (r: Option<u32>)
    ensures
        r is Some <==> name_ok(name@),
        r is Some ==> r->0 == name_val(name@),
{
    proof {
        assert(name@.skip(0) =~= name@);
        crate::lines::lemma_find_byte(name@, COLON);
    }
    let e = scan_byte(name, 0, COLON);
    let prefix = copy_range(name, 0, e);
    parse_u32(prefix.as_slice())
}

/// Every name in the listing carries a message index.
pub open spec fn names_ok(ns: Seq<Seq<u8>>) -> bool {
    forall|i: int| 0 <= i < ns.len() ==> name_ok(#[trigger] ns[i])
}

/// The largest message index among the names; `0` for an empty
/// listing.
pub open spec fn max_name_val(ns: Seq<Seq<u8>>) -> nat
    decreases ns.len(),
{
    if ns.len() == 0 {
        0
    } else if name_val(ns.last()) > max_name_val(ns.drop_last()) {
        name_val(ns.last())
    } else {
        max_name_val(ns.drop_last())
    }
}

/// The high-water mark of one directory listing: the largest numeric
/// file name prefix, `0` when the listing is empty. A name that does
/// not carry an index fails the whole scan.
pub fn high_water(names: &Vec<Vec<u8>>) -> (r: Result<u32, MailError>)
    ensures
        r is Ok <==> names_ok(names.deep_view()),
        r is Ok ==> r->Ok_0 == max_name_val(names.deep_view()),
        r is Err ==> (r->Err_0 matches MailError::Io { detail } && (exists|i: int|
            0 <= i < names.deep_view().len() && !name_ok(names.deep_view()[i]) && detail@
                == names.deep_view()[i])),
{
    let ghost dv = names.deep_view();
    let mut biggest: u32 = 0;
    let mut i: usize = 0;
    while i < names.len()
        invariant
            i <= names@.len(),
            dv == names.deep_view(),
            dv.len() == names@.len(),
            names_ok(dv.take(i as int)),
            biggest == max_name_val(dv.take(i as int)),
        decreases names@.len() - i,
    {
        proof {
            assert(dv[i as int] == names@[i as int]@);
        }
        match numeric_prefix(names[i].as_slice()) {
            None => {
                let bad = names[i].clone();
                proof {
                    assert(!name_ok(dv[i as int]));
                }
                return Err(MailError::Io { detail: bad });
            },
            Some(v) => {
                proof {
                    assert(dv.take(i + 1).drop_last() =~= dv.take(i as int));
                    assert(dv.take(i + 1).last() == dv[i as int]);
                }
                if v > biggest {
                    biggest = v;
                }
            },
        }
        i = i + 1;
    }
    proof {
        assert(dv.take(dv.len() as int) =~= dv);
    }
    Ok(biggest)
}

/// A contiguous ascending range of message indices to fetch:
/// `first..=last`, empty when `first > last`.
#[derive(Debug, Clone, Copy, PartialEq, Eq, Structural)]
pub struct FetchPlan {
    pub first: u32,
    pub last: u32,
}

/// How many indices the plan holds.
pub open spec fn plan_len(p: FetchPlan) -> nat {
    if p.first <= p.last {
        (p.last - p.first + 1) as nat
    } else {
        0
    }
}

/// The plan's indices in order: ascending and contiguous.
pub open spec fn plan_indices(p: FetchPlan) -> Seq<u32> {
    Seq::new(plan_len(p), |i: int| (p.first + i) as u32)
}

/// How many retrieves a reconciliation run performs, given the local
/// high-water mark and the remote count.
pub open spec fn retrieves_planned(local: u32, remote: u32) -> nat {
    if local <= remote {
        (remote - local) as nat
    } else {
        0
    }
}

/// Decide what reconciliation must do, from the local high-water mark
/// and the remote message count: nothing when they agree, fetch the
/// contiguous trailing gap `(local, remote]` in ascending order when
/// the remote has more, and refuse to touch anything when the local
/// mailbox is ahead of the remote.
pub fn fetch_plan(local: u32, remote: u32) -> (r: Result<FetchPlan, MailError>)
    ensures
        r is Ok <==> local <= remote,
        r is Ok ==> plan_len(r->Ok_0) == retrieves_planned(local, remote),
        r is Ok ==> plan_indices(r->Ok_0) == Seq::new(
            (remote - local) as nat,
            |i: int| (local + 1 + i) as u32,
        ),
        local < remote ==> r == Ok::<FetchPlan, MailError>(
            FetchPlan { first: (local + 1) as u32, last: remote },
        ),
        local > remote ==> r == Err::<FetchPlan, MailError>(
            MailError::Consistency { local, remote },
        ),
{
    if local > remote {
        Err(MailError::Consistency { local, remote })
    } else if local == remote {
        let p = FetchPlan { first: 1, last: 0 };
        proof {
            assert(plan_indices(p) =~= Seq::new(
                (remote - local) as nat,
                |i: int| (local + 1 + i) as u32,
            ));
        }
        Ok(p)
    } else {
        let p = FetchPlan { first: local + 1, last: remote };
        proof {
            assert(plan_indices(p) =~= Seq::new(
                (remote - local) as nat,
                |i: int| (local + 1 + i) as u32,
            ));
        }
        Ok(p)
    }
}

/// The message files of a maildir, keyed by message index: the three
/// directories `tmp` (in-progress writes, never scanned for the
/// high-water mark), `new` and `cur`.
#[verifier::ext_equal]
pub struct MailboxView {
    pub tmp: Map<u32, Seq<u8>>,
    pub new: Map<u32, Seq<u8>>,
    pub cur: Map<u32, Seq<u8>>,
}

/// Commit step one: write the fetched bytes to `tmp/i`, truncating
/// any previous partial attempt at the same path.
pub open spec fn write_tmp(v: MailboxView, i: u32, data: Seq<u8>) -> MailboxView {
    MailboxView { tmp: v.tmp.insert(i, data), ..v }
}

/// Commit step two: remove `new/i` if it already exists.
pub open spec fn drop_new(v: MailboxView, i: u32) -> MailboxView {
    MailboxView { new: v.new.remove(i), ..v }
}

/// Commit step three: create `new/i` as a hard link to `tmp/i`, an
/// atomic step that exposes the complete bytes or nothing.
pub open spec fn link_new(v: MailboxView, i: u32) -> MailboxView {
    MailboxView { new: v.new.insert(i, v.tmp[i]), ..v }
}

/// Commit step four: remove `tmp/i`.
pub open spec fn drop_tmp(v: MailboxView, i: u32) -> MailboxView {
    MailboxView { tmp: v.tmp.remove(i), ..v }
}

/// The whole commit of message `i`: the four steps in order.
pub open spec fn commit(v: MailboxView, i: u32, data: Seq<u8>) -> MailboxView {
    drop_tmp(link_new(drop_new(write_tmp(v, i, data), i), i), i)
}

/// `m` is the high-water mark of the mailbox: no message in `new` or
/// `cur` lies above it, and unless it is zero it names a message
/// present there. `tmp` is never consulted.
pub open spec fn is_high_water(v: MailboxView, m: u32) -> bool {
    &&& forall|k: u32| v.new.dom().contains(k) || v.cur.dom().contains(k) ==> k <= m
    &&& (m == 0 || v.new.dom().contains(m) || v.cur.dom().contains(m))
}

/// What one commit does: `new/i` holds exactly the fetched bytes,
/// `tmp/i` is gone, and nothing else moved.
pub proof fn lemma_commit_effect(v: MailboxView, i: u32, data: Seq<u8>)
    ensures
        commit(v, i, data).new == v.new.insert(i, data),
        commit(v, i, data).tmp == v.tmp.remove(i),
        commit(v, i, data).cur == v.cur,
{
    assert(commit(v, i, data).new =~= v.new.insert(i, data));
    assert(commit(v, i, data).tmp =~= v.tmp.remove(i));
}

/// Committing the next message moves the high-water mark to it.
pub proof fn lemma_commit_raises_high_water(v: MailboxView, m: u32, i: u32, data: Seq<u8>)
    requires
        is_high_water(v, m),
        m < i,
    ensures
        is_high_water(commit(v, i, data), i),
{
    lemma_commit_effect(v, i, data);
}

/// The mailbox after fetching and committing, one by one in ascending
/// order, every index in `(local, remote]`.
pub open spec fn reconcile(v: MailboxView, local: u32, remote: u32, msgs: Seq<Seq<u8>>) -> MailboxView
    decreases remote - local,
{
    if local >= remote {
        v
    } else {
        reconcile(commit(v, (local + 1) as u32, msgs[0]), (local + 1) as u32, remote, msgs.drop_first())
    }
}

/// Idempotent reconciliation: one full run against a remote count
/// `remote` leaves the high-water mark at `remote`, so a second run
/// against an unchanged remote plans an empty fetch range — zero
/// additional retrieves.
pub proof fn lemma_reconcile_idempotent(v: MailboxView, local: u32, remote: u32, msgs: Seq<Seq<u8>>)
    requires
        is_high_water(v, local),
        local <= remote,
    ensures
        is_high_water(reconcile(v, local, remote, msgs), remote),
        retrieves_planned(remote, remote) == 0,
    decreases remote - local,
{
    if local < remote {
        let i = (local + 1) as u32;
        lemma_commit_raises_high_water(v, local, i, msgs[0]);
        lemma_reconcile_idempotent(commit(v, i, msgs[0]), i, remote, msgs.drop_first());
    }
}

/// Every name stays at or below the listing's maximum, and a nonzero
/// maximum is carried by some name.
pub proof fn lemma_max_name_val(ns: Seq<Seq<u8>>)
    ensures
        forall|i: int| 0 <= i < ns.len() ==> name_val(#[trigger] ns[i]) <= max_name_val(ns),
        max_name_val(ns) == 0 || exists|i: int|
            0 <= i < ns.len() && name_val(#[trigger] ns[i]) == max_name_val(ns),
    decreases ns.len(),
{
    if ns.len() > 0 {
        lemma_max_name_val(ns.drop_last());
        assert forall|i: int| 0 <= i < ns.len() implies name_val(#[trigger] ns[i])
            <= max_name_val(ns) by {
            if i < ns.len() - 1 {
                assert(ns.drop_last()[i] == ns[i]);
            }
        }
        if max_name_val(ns) != 0 {
            if name_val(ns.last()) > max_name_val(ns.drop_last()) {
                assert(name_val(ns[ns.len() - 1]) == max_name_val(ns));
            } else {
                let i = choose|i: int|
                    0 <= i < ns.drop_last().len() && name_val(#[trigger] ns.drop_last()[i])
                        == max_name_val(ns.drop_last());
                assert(name_val(ns[i]) == max_name_val(ns));
            }
        }
    }
}

/// The key set of one directory holds exactly the indices its file
/// names carry.
pub open spec fn listing_matches(ns: Seq<Seq<u8>>, m: Map<u32, Seq<u8>>) -> bool {
    &&& names_ok(ns)
    &&& forall|k: u32|
        #[trigger] m.dom().contains(k) <==> (exists|i: int|
            0 <= i < ns.len() && name_val(#[trigger] ns[i]) == k)
}

/// The larger of the `cur` and `new` scans is a high-water mark of
/// the mailbox: `tmp` plays no part in it.
pub proof fn lemma_scan_is_high_water(
    cur_ns: Seq<Seq<u8>>,
    new_ns: Seq<Seq<u8>>,
    v: MailboxView,
    c: u32,
    n: u32,
)
    requires
        listing_matches(cur_ns, v.cur),
        listing_matches(new_ns, v.new),
        c as nat == max_name_val(cur_ns),
        n as nat == max_name_val(new_ns),
    ensures
        is_high_water(v, if n > c { n } else { c }),
{
    lemma_max_name_val(cur_ns);
    lemma_max_name_val(new_ns);
    let m = if n > c { n } else { c };
    assert forall|k: u32| v.new.dom().contains(k) || v.cur.dom().contains(k) implies k <= m by {
        if v.new.dom().contains(k) {
            let i = choose|i: int| 0 <= i < new_ns.len() && name_val(#[trigger] new_ns[i]) == k;
            assert(name_val(new_ns[i]) <= max_name_val(new_ns));
        } else {
            let i = choose|i: int| 0 <= i < cur_ns.len() && name_val(#[trigger] cur_ns[i]) == k;
            assert(name_val(cur_ns[i]) <= max_name_val(cur_ns));
        }
    }
    if m != 0 {
        if n > c {
            let i = choose|i: int|
                0 <= i < new_ns.len() && name_val(#[trigger] new_ns[i]) == max_name_val(new_ns);
            assert(v.new.dom().contains(n));
        } else {
            let i = choose|i: int|
                0 <= i < cur_ns.len() && name_val(#[trigger] cur_ns[i]) == max_name_val(cur_ns);
            assert(v.cur.dom().contains(c));
        }
    }
}

/// Crash safety of the commit algorithm: if a run is interrupted
/// after the `tmp` write but before the hard link — leaving arbitrary
/// bytes under `tmp/i` and nothing under `new/i` — then the
/// interruption does not move the high-water mark, so the next run
/// fetches `i` again; re-committing produces a complete `new/i`; and
/// no step of the commit ever exposes `new/i` holding anything but
/// the complete fetched bytes.
pub proof fn lemma_commit_crash_safe(
    v: MailboxView,
    m: u32,
    i: u32,
    junk: Seq<u8>,
    data: Seq<u8>,
)
    requires
        is_high_water(v, m),
        !v.new.dom().contains(i),
    ensures
        is_high_water(write_tmp(v, i, junk), m),
        ({
            let crashed = write_tmp(v, i, junk);
            let s1 = write_tmp(crashed, i, data);
            let s2 = drop_new(s1, i);
            let s3 = link_new(s2, i);
            let s4 = drop_tmp(s3, i);
            &&& !s1.new.dom().contains(i)
            &&& !s2.new.dom().contains(i)
            &&& s3.new.dom().contains(i) && s3.new[i] == data
            &&& s4.new.dom().contains(i) && s4.new[i] == data
            &&& s4 == commit(crashed, i, data)
            &&& commit(crashed, i, data).new == v.new.insert(i, data)
        }),
{
    let crashed = write_tmp(v, i, junk);
    lemma_commit_effect(crashed, i, data);
    assert(commit(crashed, i, data).new =~= v.new.insert(i, data));
}

} // verus!
