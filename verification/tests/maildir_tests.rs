use mailsync::errors::MailError;
use mailsync::maildir::{fetch_plan, high_water, numeric_prefix};

#[test]
fn numeric_suffix_parsing() {
    // a flag suffix after `:` is ignored, not a parse failure
    assert_eq!(numeric_prefix(b"7:S"), Some(7));
    assert_eq!(numeric_prefix(b"7"), Some(7));
    assert_eq!(numeric_prefix(b"123:2,RS"), Some(123));
    assert_eq!(numeric_prefix(b"notmail"), None);
    assert_eq!(numeric_prefix(b":S"), None);
    assert_eq!(numeric_prefix(b""), None);
}

#[test]
fn high_water_of_listing() {
    let names = vec![b"1".to_vec(), b"7:S".to_vec(), b"3".to_vec()];
    assert_eq!(high_water(&names), Ok(7));
    assert_eq!(high_water(&Vec::new()), Ok(0));
    match high_water(&vec![b"1".to_vec(), b"junk".to_vec()]) {
        Err(MailError::Io { detail }) => assert_eq!(detail, b"junk".to_vec()),
        other => panic!("expected an Io error, got {:?}", other),
    }
}

#[test]
fn ascending_contiguous_fetch() {
    // local 3, remote 6: fetch 4, 5, 6 in that order and no others
    let plan = fetch_plan(3, 6).unwrap();
    let mut fetched = Vec::new();
    let mut i = plan.first;
    while i <= plan.last {
        fetched.push(i);
        i += 1;
    }
    assert_eq!(fetched, vec![4, 5, 6]);
}

#[test]
fn equal_marks_fetch_nothing() {
    let plan = fetch_plan(6, 6).unwrap();
    assert!(plan.first > plan.last);
}

#[test]
fn local_exceeds_remote_is_fatal() {
    // local 5, remote 3: a consistency error, nothing touched
    assert_eq!(
        fetch_plan(5, 3),
        Err(MailError::Consistency {
            local: 5,
            remote: 3
        })
    );
}

#[test]
fn reconciliation_is_idempotent() {
    // one full run moves the high-water mark to the remote count, so
    // a second run against an unchanged remote retrieves nothing
    let mut names = vec![b"1".to_vec(), b"2".to_vec(), b"3".to_vec()];
    let remote = 6;
    let local = high_water(&names).unwrap();
    let plan = fetch_plan(local, remote).unwrap();
    let mut retrieved_first_run = 0;
    let mut i = plan.first;
    while i <= plan.last {
        retrieved_first_run += 1;
        names.push(i.to_string().into_bytes());
        i += 1;
    }
    assert_eq!(retrieved_first_run, 3);

    let local_again = high_water(&names).unwrap();
    assert_eq!(local_again, remote);
    let second = fetch_plan(local_again, remote).unwrap();
    assert!(second.first > second.last);
}

#[test]
fn crash_between_tmp_write_and_link_is_resumable() {
    // interruption after the tmp write: tmp is never scanned, so the
    // high-water mark is unmoved and the next run fetches the same
    // index again; only the hard link makes new/i appear, complete
    let committed = vec![b"1".to_vec(), b"2".to_vec(), b"3".to_vec()];
    let remote = 4;

    // first run plans index 4, writes tmp/4, then dies before the link
    let plan = fetch_plan(high_water(&committed).unwrap(), remote).unwrap();
    assert_eq!((plan.first, plan.last), (4, 4));

    // second run: cur and new are unchanged, tmp is ignored
    let local = high_water(&committed).unwrap();
    assert_eq!(local, 3);
    let replan = fetch_plan(local, remote).unwrap();
    assert_eq!((replan.first, replan.last), (4, 4));

    // after the re-run commits, the mark stands at the remote count
    let mut names = committed.clone();
    names.push(b"4".to_vec());
    assert_eq!(high_water(&names).unwrap(), 4);
    let done = fetch_plan(4, remote).unwrap();
    assert!(done.first > done.last);
}
