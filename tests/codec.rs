use libftp::encoding::{encode_command, encode_reply, Serializeable};
use libftp::grammar::Needed;
use libftp::model::{
    Command, FileStructureKind, FormatControl, Reply, RepresentationTypeKind, Text,
    TransferModeKind,
};
use libftp::parser::{command, comma, crlf, reply, space, ParseOutcome};

fn round_trip_command(c: Command, wire: &[u8]) {
    let bytes = encode_command(&c);
    assert_eq!(bytes, wire.to_vec());
    assert_eq!(command(&bytes), ParseOutcome::Parsed(c, wire.len()));
}

fn round_trip_reply(r: Reply, wire: &[u8]) {
    let bytes = encode_reply(&r);
    assert_eq!(bytes, wire.to_vec());
    assert_eq!(reply(&bytes), ParseOutcome::Parsed(r, wire.len()));
}

#[test]
fn command_round_trips_text_arguments() {
    round_trip_command(Command::UserName(b"bob".to_vec()), b"USER bob\r\n");
    round_trip_command(Command::Password(b"s3 cret".to_vec()), b"PASS s3 cret\r\n");
    round_trip_command(Command::ChangeWorkingDirectory(b"/tmp".to_vec()), b"CWD /tmp\r\n");
    round_trip_command(Command::MakeDirectory(b"d".to_vec()), b"MKD d\r\n");
    round_trip_command(Command::StructureMount(b"/mnt".to_vec()), b"SMNT /mnt\r\n");
    round_trip_command(Command::Restart(b"12345".to_vec()), b"REST 12345\r\n");
}

#[test]
fn command_round_trips_bare_verbs() {
    round_trip_command(Command::Noop, b"NOOP\r\n");
    round_trip_command(Command::PrintWorkingDirectory, b"PWD\r\n");
    round_trip_command(Command::Logout, b"QUIT\r\n");
    round_trip_command(Command::ChangeToParentDirectory, b"CDUP\r\n");
}

#[test]
fn command_round_trips_optional_arguments() {
    round_trip_command(Command::List(None), b"LIST\r\n");
    round_trip_command(Command::List(Some(b"/pub".to_vec())), b"LIST /pub\r\n");
    round_trip_command(Command::Help(Some(b"USER".to_vec())), b"HELP USER\r\n");
    round_trip_command(Command::Status(None), b"STAT\r\n");
}

#[test]
fn command_round_trips_data_port() {
    round_trip_command(Command::DataPort([192, 168, 1, 2], 1025), b"PORT 192,168,1,2,4,1\r\n");
    round_trip_command(Command::DataPort([0, 0, 0, 0], 0), b"PORT 0,0,0,0,0,0\r\n");
    round_trip_command(
        Command::DataPort([255, 255, 255, 255], 65535),
        b"PORT 255,255,255,255,255,255\r\n",
    );
}

#[test]
fn command_round_trips_codes() {
    round_trip_command(Command::RepresentationType(RepresentationTypeKind::Image), b"TYPE I\r\n");
    round_trip_command(
        Command::RepresentationType(RepresentationTypeKind::Ascii(Some(FormatControl::Telnet))),
        b"TYPE A T\r\n",
    );
    round_trip_command(
        Command::RepresentationType(RepresentationTypeKind::Ebcdic(None)),
        b"TYPE E\r\n",
    );
    round_trip_command(
        Command::RepresentationType(RepresentationTypeKind::LocalByte(8)),
        b"TYPE L 8\r\n",
    );
    round_trip_command(Command::FileStructure(FileStructureKind::Record), b"STRU R\r\n");
    round_trip_command(Command::TransferMode(TransferModeKind::Compressed), b"MODE C\r\n");
}

#[test]
fn command_round_trips_allocate() {
    round_trip_command(Command::Allocate(4096, None), b"ALLO 4096\r\n");
    round_trip_command(Command::Allocate(-5, Some(100)), b"ALLO -5 R 100\r\n");
    round_trip_command(
        Command::Allocate(i64::MIN, Some(i64::MAX)),
        b"ALLO -9223372036854775808 R 9223372036854775807\r\n",
    );
}

#[test]
fn command_keyword_is_case_insensitive() {
    assert_eq!(
        command(b"uSeR bob\r\n"),
        ParseOutcome::Parsed(Command::UserName(b"bob".to_vec()), 10)
    );
    assert_eq!(
        command(b"type a n\r\n"),
        ParseOutcome::Parsed(
            Command::RepresentationType(RepresentationTypeKind::Ascii(Some(
                FormatControl::NonPrint
            ))),
            10
        )
    );
}

#[test]
fn command_leaves_following_bytes() {
    assert_eq!(command(b"NOOP\r\nPWD\r\n"), ParseOutcome::Parsed(Command::Noop, 6));
}

#[test]
fn command_incomplete_hints() {
    assert_eq!(command(b""), ParseOutcome::Incomplete(Needed::Size(3)));
    assert_eq!(command(b"US"), ParseOutcome::Incomplete(Needed::Size(1)));
    assert_eq!(command(b"cw"), ParseOutcome::Incomplete(Needed::Size(1)));
    assert_eq!(command(b"r"), ParseOutcome::Incomplete(Needed::Size(2)));
    assert_eq!(command(b"USE"), ParseOutcome::Incomplete(Needed::Size(1)));
    assert_eq!(command(b"USER bo"), ParseOutcome::Incomplete(Needed::Unknown));
    assert_eq!(command(b"USER bob\r"), ParseOutcome::Incomplete(Needed::Size(1)));
    assert_eq!(command(b"NOOP"), ParseOutcome::Incomplete(Needed::Size(2)));
}

#[test]
fn command_invalid_inputs() {
    assert_eq!(command(b"XYZW\r\n"), ParseOutcome::Invalid(0));
    assert_eq!(command(b"X"), ParseOutcome::Invalid(0));
    assert_eq!(command(b"USX"), ParseOutcome::Invalid(0));
    assert_eq!(command(b"USER \r\n"), ParseOutcome::Invalid(5));
    assert_eq!(command(b"NOOPX\r\n"), ParseOutcome::Invalid(4));
    assert_eq!(command(b"TYPE Q\r\n"), ParseOutcome::Invalid(5));
    assert_eq!(command(b"PORT 1,2,3,256,0,1\r\n"), ParseOutcome::Invalid(11));
    assert_eq!(command(b"USER bob\n"), ParseOutcome::Invalid(8));
    assert_eq!(command(b"REST a b\r\n"), ParseOutcome::Invalid(6));
}

#[test]
fn separators() {
    assert_eq!(comma(b"a,", 1), ParseOutcome::Parsed((), 2));
    assert_eq!(comma(b"a", 1), ParseOutcome::Incomplete(Needed::Size(1)));
    assert_eq!(space(b"x", 0), ParseOutcome::Invalid(0));
    assert_eq!(crlf(b"\r\n", 0), ParseOutcome::Parsed((), 2));
    assert_eq!(crlf(b"\r", 0), ParseOutcome::Incomplete(Needed::Size(1)));
}

#[test]
fn reply_round_trips() {
    round_trip_reply(
        Reply { code: *b"230", text: Text::SingleLine { line: b"Welcome".to_vec() } },
        b"230 Welcome\r\n",
    );
    round_trip_reply(
        Reply { code: *b"200", text: Text::SingleLine { line: Vec::new() } },
        b"200 \r\n",
    );
    round_trip_reply(
        Reply {
            code: *b"211",
            text: Text::MultiLine {
                lines: vec![b"Features:".to_vec(), b" MDTM".to_vec(), b"211".to_vec()],
                last_line: b"End".to_vec(),
            },
        },
        b"211-Features:\r\n MDTM\r\n211\r\n211 End\r\n",
    );
}

#[test]
fn multi_line_reply_terminates_on_matching_code() {
    let wire = b"200-a\r\nb\r\n200 done\r\n";
    assert_eq!(
        reply(wire),
        ParseOutcome::Parsed(
            Reply {
                code: *b"200",
                text: Text::MultiLine {
                    lines: vec![b"a".to_vec(), b"b".to_vec()],
                    last_line: b"done".to_vec(),
                },
            },
            wire.len()
        )
    );
}

#[test]
fn multi_line_reply_ignores_other_codes() {
    assert_eq!(reply(b"200-a\r\n201 done\r\n"), ParseOutcome::Incomplete(Needed::Unknown));
    assert_eq!(reply(b"200-a\r\n201 done\r\nxy\nz"), ParseOutcome::Incomplete(Needed::Unknown));
}

#[test]
fn reply_code_must_be_digits() {
    assert_eq!(reply(b"2x0 hi\r\n"), ParseOutcome::Invalid(1));
    assert_eq!(reply(b"abc hi\r\n"), ParseOutcome::Invalid(0));
    assert_eq!(reply(b"20"), ParseOutcome::Incomplete(Needed::Size(1)));
    assert_eq!(reply(b"2a"), ParseOutcome::Invalid(1));
    assert_eq!(reply(b"200x\r\n"), ParseOutcome::Invalid(3));
}

#[test]
fn every_prefix_of_a_reply_asks_for_more() {
    let wire = b"200-a\r\nb\r\n200 done\r\n";
    for k in 0..wire.len() {
        match reply(&wire[..k]) {
            ParseOutcome::Incomplete(Needed::Size(n)) => assert!(k + n <= wire.len()),
            ParseOutcome::Incomplete(Needed::Unknown) => {}
            other => panic!("prefix {k} gave {other:?}"),
        }
    }
}

#[test]
fn every_prefix_of_a_command_asks_for_more() {
    let wire = b"PORT 10,0,0,1,200,7\r\n";
    for k in 0..wire.len() {
        match command(&wire[..k]) {
            ParseOutcome::Incomplete(Needed::Size(n)) => assert!(k + n <= wire.len()),
            ParseOutcome::Incomplete(Needed::Unknown) => {}
            other => panic!("prefix {k} gave {other:?}"),
        }
    }
}

#[test]
fn serializeable_values() {
    let mut out = Vec::new();
    (-42i64).serialize(&mut out);
    out.push(b' ');
    200u8.serialize(&mut out);
    Some(FormatControl::Carriage).serialize(&mut out);
    None::<u8>.serialize(&mut out);
    out.push(b' ');
    ([127u8, 0, 0, 1], 21u16).serialize(&mut out);
    out.push(b' ');
    RepresentationTypeKind::Ascii(Some(FormatControl::NonPrint)).serialize(&mut out);
    FileStructureKind::Page.serialize(&mut out);
    TransferModeKind::Block.serialize(&mut out);
    b"xy".to_vec().serialize(&mut out);
    assert_eq!(out, b"-42 200 C 127,0,0,1,0,21 A NPBxy".to_vec());
}

#[test]
fn reply_line_ends_at_first_crlf_pair() {
    round_trip_reply(
        Reply { code: *b"200", text: Text::SingleLine { line: b"a\nb\rc\r".to_vec() } },
        b"200 a\nb\rc\r\r\n",
    );
    assert_eq!(
        reply(b"200 x\r\ny\r\n"),
        ParseOutcome::Parsed(
            Reply { code: *b"200", text: Text::SingleLine { line: b"x".to_vec() } },
            7
        )
    );
    assert_eq!(reply(b"200 x\r"), ParseOutcome::Incomplete(Needed::Unknown));
}
