use deskpi::line::{LineConnection, ReadOutcome, WriteOutcome};
use deskpi::probe::{bytes_equal, matches_filter, CandidateId, Discovery, ProbeOutcome, ProbeStep};

#[test]
fn split_delivery_yields_whole_lines() {
    let mut conn = LineConnection::new();
    conn.on_read_result(ReadOutcome::Data(b"ab".to_vec()));
    assert!(conn.next_line().is_none());
    conn.on_read_result(ReadOutcome::Data(b"c\ndef\n".to_vec()));
    assert_eq!(conn.next_line(), Some(b"abc".to_vec()));
    assert_eq!(conn.next_line(), Some(b"def".to_vec()));
    assert!(conn.next_line().is_none());
}

#[test]
fn empty_lines_are_yielded_empty() {
    let mut conn = LineConnection::new();
    conn.on_read_result(ReadOutcome::Data(b"\n\nx\n".to_vec()));
    assert_eq!(conn.next_line(), Some(Vec::new()));
    assert_eq!(conn.next_line(), Some(Vec::new()));
    assert_eq!(conn.next_line(), Some(b"x".to_vec()));
}

#[test]
fn enqueued_lines_leave_in_order_and_in_slices() {
    let mut conn = LineConnection::new();
    conn.enqueue_line(&b"hello".to_vec());
    conn.enqueue_line(&b"hi".to_vec());
    assert_eq!(conn.next_write_slice(), b"hello\nhi\n".to_vec());
    conn.on_write_result(WriteOutcome::Wrote(3));
    assert_eq!(conn.next_write_slice(), b"lo\nhi\n".to_vec());
    conn.on_write_result(WriteOutcome::WouldBlock);
    assert_eq!(conn.next_write_slice(), b"lo\nhi\n".to_vec());
}

#[test]
fn write_slice_is_bounded() {
    let mut conn = LineConnection::new();
    conn.enqueue_line(&vec![65u8; 300]);
    assert_eq!(conn.next_write_slice().len(), 256);
}

#[test]
fn failed_write_disconnects_and_silences_transport() {
    let mut conn = LineConnection::new();
    conn.enqueue_line(&b"pending".to_vec());
    conn.on_write_result(WriteOutcome::Failed);
    assert!(!conn.is_alive());
    // No further bytes are emitted from the dead connection.
    assert!(conn.next_write_slice().is_empty());
    conn.enqueue_line(&b"more".to_vec());
    assert!(conn.next_write_slice().is_empty());
    // A fresh discovery cycle replaces the connection, and only then do
    // bytes flow again.
    let mut discovery = Discovery::new(1, b"h\n".to_vec());
    assert!(matches!(discovery.step(), ProbeStep::Try(0)));
    let mut fresh = discovery.on_outcome(ProbeOutcome::Greeting(b"h\n".to_vec())).unwrap();
    assert!(fresh.is_alive());
    fresh.enqueue_line(&b"again".to_vec());
    assert_eq!(fresh.next_write_slice(), b"again\n".to_vec());
}

#[test]
fn failed_read_disconnects_too() {
    let mut conn = LineConnection::new();
    conn.on_read_result(ReadOutcome::Data(b"partial".to_vec()));
    conn.on_read_result(ReadOutcome::Failed);
    assert!(!conn.is_alive());
    assert!(conn.next_line().is_none());
}

#[test]
fn probing_selects_the_candidate_that_greets() {
    // Three candidates; only the second replies with the expected
    // greeting within the bound.
    let mut discovery = Discovery::new(3, b"h\n".to_vec());
    let mut tried: Vec<usize> = Vec::new();
    let outcomes = vec![
        ProbeOutcome::Greeting(b"x\n".to_vec()),
        ProbeOutcome::Greeting(b"h\n".to_vec()),
        ProbeOutcome::Greeting(b"h\n".to_vec()),
    ];
    let mut connection = None;
    for outcome in outcomes {
        match discovery.step() {
            ProbeStep::Try(i) => {
                tried.push(i);
                if let Some(conn) = discovery.on_outcome(outcome) {
                    connection = Some(conn);
                    break;
                }
            }
            ProbeStep::GiveUp => break,
        }
    }
    // The second candidate was selected; the third was never probed.
    assert_eq!(tried, vec![0, 1]);
    assert!(connection.unwrap().is_alive());
}

#[test]
fn probing_gives_up_when_nothing_greets() {
    let mut discovery = Discovery::new(2, b"t\n".to_vec());
    assert!(matches!(discovery.step(), ProbeStep::Try(0)));
    assert!(discovery.on_outcome(ProbeOutcome::NoReply).is_none());
    assert!(matches!(discovery.step(), ProbeStep::Try(1)));
    assert!(discovery.on_outcome(ProbeOutcome::Greeting(b"c\n".to_vec())).is_none());
    assert!(matches!(discovery.step(), ProbeStep::GiveUp));
}

#[test]
fn candidate_filter_matches_exactly() {
    let c = CandidateId { vendor_id: 0x239A, product_id: 0x8108 };
    assert!(matches_filter(&c, 0x239A, 0x8108));
    assert!(!matches_filter(&c, 0x239A, 0x80F1));
    assert!(!matches_filter(&c, 0x1234, 0x8108));
}

#[test]
fn bytes_equal_compares_contents() {
    assert!(bytes_equal(&b"abc".to_vec(), &b"abc".to_vec()));
    assert!(!bytes_equal(&b"abc".to_vec(), &b"abd".to_vec()));
    assert!(!bytes_equal(&b"abc".to_vec(), &b"ab".to_vec()));
}

#[test]
fn take_lines_drains_whole_lines_in_order() {
    let mut conn = LineConnection::new();
    conn.on_read_result(ReadOutcome::Data(b"one\ntwo\nthr".to_vec()));
    let lines = conn.take_lines();
    assert_eq!(lines, vec![b"one".to_vec(), b"two".to_vec()]);
    assert!(conn.take_lines().is_empty());
    conn.on_read_result(ReadOutcome::Data(b"ee\n".to_vec()));
    assert_eq!(conn.take_lines(), vec![b"three".to_vec()]);
}
