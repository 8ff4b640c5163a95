use libftp::framing::{Demand, FrameBuffer};
use libftp::model::{Command, Reply, Text};
use libftp::proxy::{relay_command, relay_command_with, relay_reply, relay_reply_with, RelayStep};
use libftp::serializer::{CommandSerializer, MemorySink, ReplySerializer, Serializer};

#[test]
fn proxy_relays_login_exchange() {
    let mut downstream_in = FrameBuffer::new(1024);
    let mut upstream_out = CommandSerializer::new(MemorySink::new());
    assert_eq!(
        relay_command(&mut downstream_in, &mut upstream_out),
        RelayStep::Read(Demand::Exactly(3))
    );
    downstream_in.fill(b"USER bob\r\n");
    assert_eq!(relay_command(&mut downstream_in, &mut upstream_out), RelayStep::Forwarded);
    assert_eq!(upstream_out.writer.bytes, b"USER bob\r\n".to_vec());

    let mut upstream_in = FrameBuffer::new(1024);
    let mut downstream_out = ReplySerializer::new(MemorySink::new());
    upstream_in.fill(b"230 Welcome\r\n");
    assert_eq!(relay_reply(&mut upstream_in, &mut downstream_out), RelayStep::Forwarded);
    assert_eq!(downstream_out.writer.bytes, b"230 Welcome\r\n".to_vec());
    assert_eq!(upstream_in.pending_bytes(), b"");
}

#[test]
fn proxy_normalises_letter_case() {
    let mut input = FrameBuffer::new(64);
    let mut out = CommandSerializer::new(MemorySink::new());
    input.fill(b"type a n\r\nnoop\r\n");
    assert_eq!(relay_command(&mut input, &mut out), RelayStep::Forwarded);
    assert_eq!(relay_command(&mut input, &mut out), RelayStep::Forwarded);
    assert_eq!(out.writer.bytes, b"TYPE A N\r\nNOOP\r\n".to_vec());
}

#[test]
fn hook_rewrites_messages() {
    let mut input = FrameBuffer::new(64);
    let mut out = CommandSerializer::new(MemorySink::new());
    input.fill(b"USER bob\r\n");
    let hook = |c: Command| match c {
        Command::UserName(_) => Command::UserName(b"anonymous".to_vec()),
        other => other,
    };
    assert_eq!(relay_command_with(&mut input, &mut out, &hook), RelayStep::Forwarded);
    assert_eq!(out.writer.bytes, b"USER anonymous\r\n".to_vec());

    let mut replies = FrameBuffer::new(64);
    let mut back = ReplySerializer::new(MemorySink::new());
    replies.fill(b"220 hi\r\n");
    let keep = |r: Reply| r;
    assert_eq!(relay_reply_with(&mut replies, &mut back, &keep), RelayStep::Forwarded);
    assert_eq!(back.writer.bytes, b"220 hi\r\n".to_vec());
}

#[test]
fn serializers_write_whole_messages() {
    let mut commands = CommandSerializer::new(MemorySink::new());
    commands.serialize(&Command::Retrieve(b"a.txt".to_vec())).unwrap();
    assert_eq!(commands.writer.bytes, b"RETR a.txt\r\n".to_vec());
    let mut replies = ReplySerializer::new(MemorySink::new());
    let multi = Reply {
        code: *b"200",
        text: Text::MultiLine { lines: vec![b"a".to_vec(), b"b".to_vec()], last_line: b"done".to_vec() },
    };
    replies.serialize(&multi).unwrap();
    replies.serialize_reply(&Reply { code: *b"226", text: Text::SingleLine { line: b"ok".to_vec() } }).unwrap();
    assert_eq!(replies.writer.bytes, b"200-a\r\nb\r\n200 done\r\n226 ok\r\n".to_vec());
}

#[test]
fn memory_sink_hands_out_each_message() {
    let mut out = CommandSerializer::new(MemorySink::new());
    out.serialize(&Command::Noop).unwrap();
    assert_eq!(out.writer.take_bytes(), b"NOOP\r\n".to_vec());
    out.serialize(&Command::Abort).unwrap();
    assert_eq!(out.writer.take_bytes(), b"ABOR\r\n".to_vec());
    assert!(out.writer.bytes.is_empty());
    out.serialize_command(&Command::System).unwrap();
    assert_eq!(out.writer.bytes, b"SYST\r\n".to_vec());
}
