use libftp::framing::{Demand, FrameBuffer, FrameError, Poll};
use libftp::grammar::Needed;
use libftp::model::{Command, Reply, Text};

fn feed_command_bytewise(wire: &[u8]) -> Command {
    let mut buffer = FrameBuffer::new(64);
    let mut next = 0;
    loop {
        match buffer.poll_command() {
            Poll::Message(c) => return c,
            Poll::Read(Demand::Exactly(_)) | Poll::Read(Demand::UpTo(_)) => {
                buffer.fill(&wire[next..next + 1]);
                next += 1;
            }
            Poll::Fault(e) => panic!("fault {e:?}"),
        }
    }
}

#[test]
fn bytewise_feed_matches_whole_feed() {
    let wire = b"STOR /tmp/file.txt\r\n";
    let mut whole = FrameBuffer::new(64);
    whole.fill(wire);
    let at_once = match whole.poll_command() {
        Poll::Message(c) => c,
        other => panic!("{other:?}"),
    };
    assert_eq!(feed_command_bytewise(wire), at_once);
    assert_eq!(at_once, Command::Store(b"/tmp/file.txt".to_vec()));
}

#[test]
fn exact_reads_follow_size_hints() {
    let wire = b"230 ok\r\n";
    let mut buffer = FrameBuffer::new(64);
    let mut next = 0;
    let decoded = loop {
        match buffer.poll_reply() {
            Poll::Message(r) => break r,
            Poll::Read(Demand::Exactly(n)) => {
                buffer.fill(&wire[next..next + n]);
                next += n;
            }
            Poll::Read(Demand::UpTo(_)) => {
                buffer.fill(&wire[next..next + 1]);
                next += 1;
            }
            Poll::Fault(e) => panic!("fault {e:?}"),
        }
    };
    assert_eq!(next, wire.len());
    assert_eq!(decoded, Reply { code: *b"230", text: Text::SingleLine { line: b"ok".to_vec() } });
}

#[test]
fn following_message_stays_buffered() {
    let mut buffer = FrameBuffer::new(64);
    buffer.fill(b"NOOP\r\nCWD /x\r\nPA");
    assert!(matches!(buffer.poll_command(), Poll::Message(Command::Noop)));
    assert_eq!(buffer.pending_bytes(), b"CWD /x\r\nPA");
    match buffer.poll_command() {
        Poll::Message(c) => assert_eq!(c, Command::ChangeWorkingDirectory(b"/x".to_vec())),
        other => panic!("{other:?}"),
    }
    assert_eq!(buffer.pending_bytes(), b"PA");
    assert_eq!(buffer.poll_command(), Poll::Read(Demand::Exactly(1)));
}

#[test]
fn unknown_hint_offers_the_free_room() {
    let mut buffer = FrameBuffer::new(16);
    buffer.fill(b"USER b");
    assert_eq!(buffer.room(), 10);
    assert_eq!(buffer.poll_command(), Poll::Read(Demand::UpTo(10)));
}

#[test]
fn capacity_exceeded_is_a_fault() {
    let mut buffer = FrameBuffer::new(8);
    buffer.fill(b"USER bob");
    assert_eq!(
        buffer.poll_command(),
        Poll::Fault(FrameError::CapacityExceeded(Needed::Unknown))
    );
    let mut small = FrameBuffer::new(2);
    assert_eq!(
        small.poll_command(),
        Poll::Fault(FrameError::CapacityExceeded(Needed::Size(3)))
    );
}

#[test]
fn invalid_input_is_a_fault() {
    let mut buffer = FrameBuffer::new(32);
    buffer.fill(b"x00 hi\r\n");
    assert_eq!(buffer.poll_reply(), Poll::Fault(FrameError::Invalid(0)));
    assert_eq!(buffer.pending_bytes(), b"x00 hi\r\n");
}
