use mailsync::framer::Framer;

fn run(feeds: &[&[u8]]) -> (bool, Vec<Vec<u8>>) {
    let mut f = Framer::new();
    for chunk in feeds {
        f.feed(chunk);
    }
    let done = f.is_done();
    (done, f.into_lines())
}

#[test]
fn framer_simple_block() {
    let (done, lines) = run(&[b"+OK 2 octets\r\nline one\r\nline two\r\n.\r\n"]);
    assert!(done);
    assert_eq!(
        lines,
        vec![
            b"+OK 2 octets".to_vec(),
            b"line one".to_vec(),
            b"line two".to_vec()
        ]
    );
}

#[test]
fn framer_round_trip_scenario() {
    // byte-stuffing a leading dot and framing must reproduce the
    // original lines exactly, in order
    let original: Vec<Vec<u8>> = vec![
        b"From: someone".to_vec(),
        b".hidden".to_vec(),
        b"".to_vec(),
        b"body text".to_vec(),
    ];
    let mut wire: Vec<u8> = Vec::new();
    for line in &original {
        if line.first() == Some(&b'.') {
            wire.push(b'.');
        }
        wire.extend_from_slice(line);
        wire.extend_from_slice(b"\r\n");
    }
    wire.extend_from_slice(b".\r\n");
    let (done, lines) = run(&[&wire]);
    assert!(done);
    assert_eq!(lines, original);
}

#[test]
fn framer_strips_stuffed_dot() {
    let (done, lines) = run(&[b"..x\r\n.\r\n"]);
    assert!(done);
    assert_eq!(lines, vec![b".x".to_vec()]);
}

#[test]
fn framer_lone_stuffed_dot_line() {
    let (done, lines) = run(&[b"..\r\n.\r\n"]);
    assert!(done);
    assert_eq!(lines, vec![b".".to_vec()]);
}

#[test]
fn framer_terminator_only() {
    let (done, lines) = run(&[b".\r\n"]);
    assert!(done);
    assert_eq!(lines, Vec::<Vec<u8>>::new());
}

#[test]
fn framer_split_reads() {
    // boundaries of reads need not align with lines or terminator
    let (done, lines) = run(&[b"ab", b"c\r", b"\nd.", b"e\r\n.", b"\r\n"]);
    assert!(done);
    assert_eq!(lines, vec![b"abc".to_vec(), b"d.e".to_vec()]);
}

#[test]
fn framer_not_done_without_terminator() {
    let mut f = Framer::new();
    f.feed(b"line\r\n");
    assert!(!f.is_done());
    f.feed(b".\r\n");
    assert!(f.is_done());
}

#[test]
fn framer_empty_line_kept() {
    let (done, lines) = run(&[b"a\r\n\r\nb\r\n.\r\n"]);
    assert!(done);
    assert_eq!(lines, vec![b"a".to_vec(), b"".to_vec(), b"b".to_vec()]);
}
