//! The canonical wire form of commands and replies.
use vstd::prelude::*;

use crate::bytes::{append_bytes, digits, integer_text, push_digits, push_integer, COMMA, CR, HYPHEN, LF, SP};
use crate::model::{
    keyword, keyword_bytes, lines_view, ArgumentModel, Argument, Command, CommandModel,
    FileStructureKind, FormatControl, Reply, ReplyModel, RepresentationTypeKind, Text, TextModel,
    TransferModeKind,
};

verus! {

pub open spec fn crlf_bytes() -> Seq<u8> {
    seq![CR, LF]
}

pub open spec fn form_letter(f: FormatControl) -> u8 {
    match f {
        FormatControl::NonPrint => 0x4Eu8,
        FormatControl::Telnet => 0x54u8,
        FormatControl::Carriage => 0x43u8,
    }
}

/// A type code with its optional second argument.
pub open spec fn type_bytes(k: RepresentationTypeKind) -> Seq<u8> {
    match k {
        RepresentationTypeKind::Ascii(None) => seq![0x41u8],
        RepresentationTypeKind::Ascii(Some(f)) => seq![0x41u8, SP, form_letter(f)],
        RepresentationTypeKind::Ebcdic(None) => seq![0x45u8],
        RepresentationTypeKind::Ebcdic(Some(f)) => seq![0x45u8, SP, form_letter(f)],
        RepresentationTypeKind::Image => seq![0x49u8],
        RepresentationTypeKind::LocalByte(n) => seq![0x4Cu8, SP] + digits(n as nat),
    }
}

pub open spec fn structure_letter(k: FileStructureKind) -> u8 {
    match k {
        FileStructureKind::File => 0x46u8,
        FileStructureKind::Record => 0x52u8,
        FileStructureKind::Page => 0x50u8,
    }
}

pub open spec fn mode_letter(k: TransferModeKind) -> u8 {
    match k {
        TransferModeKind::Stream => 0x53u8,
        TransferModeKind::Block => 0x42u8,
        TransferModeKind::Compressed => 0x43u8,
    }
}

/// Four host octets, then the port's high and low byte, in decimal and
/// comma separated.
pub open spec fn host_port_bytes(o: Seq<u8>, port: u16) -> Seq<u8> {
    digits(o[0] as nat) + seq![COMMA] + digits(o[1] as nat) + seq![COMMA] + digits(o[2] as nat)
        + seq![COMMA] + digits(o[3] as nat) + seq![COMMA] + digits((port / 256) as nat) + seq![
        COMMA,
    ] + digits((port % 256) as nat)
}

/// What follows the verb, before the line end: nothing, or a space and the
/// argument.
pub open spec fn argument_bytes(a: ArgumentModel) -> Seq<u8> {
    match a {
        ArgumentModel::Nothing => seq![],
        ArgumentModel::Bytes(b) => seq![SP] + b,
        ArgumentModel::MaybeBytes(None) => seq![],
        ArgumentModel::MaybeBytes(Some(b)) => seq![SP] + b,
        ArgumentModel::HostPort(o, port) => seq![SP] + host_port_bytes(o, port),
        ArgumentModel::Type(k) => seq![SP] + type_bytes(k),
        ArgumentModel::Structure(k) => seq![SP, structure_letter(k)],
        ArgumentModel::Mode(k) => seq![SP, mode_letter(k)],
        ArgumentModel::Allocate(a, None) => seq![SP] + integer_text(a),
        ArgumentModel::Allocate(a, Some(b)) => seq![SP] + integer_text(a) + seq![
            SP,
            0x52u8,
            SP,
        ] + integer_text(b),
    }
}

/// The wire form of a command.
pub open spec fn command_bytes(c: CommandModel) -> Seq<u8> {
    keyword(c.verb) + argument_bytes(c.arg) + crlf_bytes()
}

/// Each line followed by a line end.
pub open spec fn joined_lines(lines: Seq<Seq<u8>>) -> Seq<u8>
    decreases lines.len(),
{
    if lines.len() == 0 {
        seq![]
    } else {
        joined_lines(lines.drop_last()) + lines.last() + crlf_bytes()
    }
}

/// The wire form of a reply.
pub open spec fn reply_bytes(r: ReplyModel) -> Seq<u8> {
    match r.text {
        TextModel::SingleLine(l) => r.code + seq![SP] + l + crlf_bytes(),
        TextModel::MultiLine(lines, last) => r.code + seq![HYPHEN] + joined_lines(lines) + r.code
            + seq![SP] + last + crlf_bytes(),
    }
}

fn push_crlf(out: &mut Vec<u8>)
    ensures
        final(out)@ == old(out)@ + crlf_bytes(),
{
    out.push(CR);
    out.push(LF);
    assert(out@ =~= old(out)@ + crlf_bytes());
}

fn form_letter_of(f: FormatControl) -> (r: u8)
    ensures
        r == form_letter(f),
{
    match f {
        FormatControl::NonPrint => 0x4E,
        FormatControl::Telnet => 0x54,
        FormatControl::Carriage => 0x43,
    }
}

/// Appends a type code.
fn push_type(out: &mut Vec<u8>, k: RepresentationTypeKind)
    ensures
        final(out)@ == old(out)@ + type_bytes(k),
{
    match k {
        RepresentationTypeKind::Ascii(f) => {
            out.push(0x41);
            if let Some(f) = f {
                out.push(SP);
                out.push(form_letter_of(f));
            }
        },
        RepresentationTypeKind::Ebcdic(f) => {
            out.push(0x45);
            if let Some(f) = f {
                out.push(SP);
                out.push(form_letter_of(f));
            }
        },
        RepresentationTypeKind::Image => out.push(0x49),
        RepresentationTypeKind::LocalByte(n) => {
            out.push(0x4C);
            out.push(SP);
            push_digits(out, n as u64);
        },
    }
    assert(out@ =~= old(out)@ + type_bytes(k));
}

/// Appends a host-port argument.
fn push_host_port(out: &mut Vec<u8>, address: &[u8; 4], port: u16)
    ensures
        final(out)@ == old(out)@ + host_port_bytes(address@, port),
{
    push_digits(out, address[0] as u64);
    out.push(COMMA);
    push_digits(out, address[1] as u64);
    out.push(COMMA);
    push_digits(out, address[2] as u64);
    out.push(COMMA);
    push_digits(out, address[3] as u64);
    out.push(COMMA);
    push_digits(out, (port / 256) as u64);
    out.push(COMMA);
    push_digits(out, (port % 256) as u64);
    assert(out@ =~= old(out)@ + host_port_bytes(address@, port));
}

/// Values with a wire form of their own, which they append to a buffer.
pub trait Serializeable {
    spec fn wire(&self) -> Seq<u8>;

    fn serialize(&self, out: &mut Vec<u8>)
        ensures
            final(out)@ == old(out)@ + self.wire(),
    ;
}

/// A byte value in decimal.
impl Serializeable for u8 {
    open spec fn wire(&self) -> Seq<u8> {
        digits(*self as nat)
    }

    fn serialize(&self, out: &mut Vec<u8>) {
        push_digits(out, *self as u64);
    }
}

/// A signed integer in decimal.
impl Serializeable for i64 {
    open spec fn wire(&self) -> Seq<u8> {
        integer_text(*self)
    }

    fn serialize(&self, out: &mut Vec<u8>) {
        push_integer(out, *self);
    }
}

/// Raw bytes.
impl Serializeable for Vec<u8> {
    open spec fn wire(&self) -> Seq<u8> {
        self@
    }

    fn serialize(&self, out: &mut Vec<u8>) {
        append_bytes(out, self.as_slice());
    }
}

impl Serializeable for FormatControl {
    open spec fn wire(&self) -> Seq<u8> {
        seq![form_letter(*self)]
    }

    fn serialize(&self, out: &mut Vec<u8>) {
        out.push(form_letter_of(*self));
    }
}

impl Serializeable for RepresentationTypeKind {
    open spec fn wire(&self) -> Seq<u8> {
        type_bytes(*self)
    }

    fn serialize(&self, out: &mut Vec<u8>) {
        push_type(out, *self);
    }
}

impl Serializeable for FileStructureKind {
    open spec fn wire(&self) -> Seq<u8> {
        seq![structure_letter(*self)]
    }

    fn serialize(&self, out: &mut Vec<u8>) {
        out.push(
            match self {
                FileStructureKind::File => 0x46,
                FileStructureKind::Record => 0x52,
                FileStructureKind::Page => 0x50,
            },
        );
    }
}

impl Serializeable for TransferModeKind {
    open spec fn wire(&self) -> Seq<u8> {
        seq![mode_letter(*self)]
    }

    fn serialize(&self, out: &mut Vec<u8>) {
        out.push(
            match self {
                TransferModeKind::Stream => 0x53,
                TransferModeKind::Block => 0x42,
                TransferModeKind::Compressed => 0x43,
            },
        );
    }
}

/// A host address and port.
impl Serializeable for ([u8; 4], u16) {
    open spec fn wire(&self) -> Seq<u8> {
        host_port_bytes(self.0@, self.1)
    }

    fn serialize(&self, out: &mut Vec<u8>) {
        push_host_port(out, &self.0, self.1);
    }
}

/// An optional value: a space and the value, or nothing at all.
impl<T: Serializeable> Serializeable for Option<T> {
    open spec fn wire(&self) -> Seq<u8> {
        match self {
            Some(v) => seq![SP] + v.wire(),
            None => seq![],
        }
    }

    fn serialize(&self, out: &mut Vec<u8>) {
        if let Some(v) = self {
            out.push(SP);
            v.serialize(out);
        }
        assert(out@ =~= old(out)@ + self.wire());
    }
}

/// Appends what follows the verb of a command, before the line end.
pub fn push_argument(out: &mut Vec<u8>, a: &Argument)
    ensures
        final(out)@ == old(out)@ + argument_bytes(a@),
{
    match a {
        Argument::Nothing => {},
        Argument::Bytes(b) => {
            out.push(SP);
            b.serialize(out);
        },
        Argument::MaybeBytes(b) => {
            b.serialize(out);
        },
        Argument::HostPort(o, port) => {
            out.push(SP);
            (*o, *port).serialize(out);
        },
        Argument::Type(k) => {
            out.push(SP);
            k.serialize(out);
        },
        Argument::Structure(k) => {
            out.push(SP);
            k.serialize(out);
        },
        Argument::Mode(k) => {
            out.push(SP);
            k.serialize(out);
        },
        Argument::Allocate(size, maximum) => {
            out.push(SP);
            size.serialize(out);
            if let Some(m) = maximum {
                out.push(SP);
                out.push(0x52);
                out.push(SP);
                m.serialize(out);
            }
        },
    }
    assert(out@ =~= old(out)@ + argument_bytes(a@));
}
/// The wire form of a command.
pub fn encode_command(value: &Command) -> (r: Vec<u8>)
    ensures
        r@ == command_bytes(value@),
{
    let (verb, arg) = value.parts();
    let mut out = keyword_bytes(verb);
    push_argument(&mut out, &arg);
    push_crlf(&mut out);
    out
}

/// The wire form of a reply.
pub fn encode_reply(value: &Reply) -> (r: Vec<u8>)
    ensures
        r@ == reply_bytes(value@),
{
    let mut out: Vec<u8> = Vec::new();
    append_bytes(&mut out, value.code.as_slice());
    match &value.text {
        Text::SingleLine { line } => {
            out.push(SP);
            append_bytes(&mut out, line.as_slice());
        },
        Text::MultiLine { lines, last_line } => {
            out.push(HYPHEN);
            let ghost start = out@;
            let mut i: usize = 0;
            while i < lines.len()
                invariant
                    i <= lines@.len(),
                    out@ == start + joined_lines(lines_view(lines@).take(i as int)),
                decreases lines@.len() - i,
            {
                append_bytes(&mut out, lines[i].as_slice());
                push_crlf(&mut out);
                assert(lines_view(lines@).take(i + 1).drop_last() =~= lines_view(lines@).take(
                    i as int,
                ));
                i += 1;
            }
            assert(lines_view(lines@).take(lines@.len() as int) =~= lines_view(lines@));
            append_bytes(&mut out, value.code.as_slice());
            out.push(SP);
            append_bytes(&mut out, last_line.as_slice());
        },
    }
    push_crlf(&mut out);
    assert(out@ =~= reply_bytes(value@));
    out
}

} // verus!
