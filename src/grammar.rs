//! The control-connection grammar as functions on byte sequences.
//!
//! Each function reads from position `p` of `s` and tells whether a complete
//! element stands there (and where it ends), whether `s` stops before the
//! element could be decided, or at which position it can never complete.
use vstd::prelude::*;

use crate::bytes::{
    digits_value, in_class, line_end, scan_end, upper, Class, COMMA, CR, HYPHEN, LF, SP,
};
use crate::model::{
    keyword, shape, verb3, verb4, ArgumentModel, CommandModel, FileStructureKind, FormatControl,
    ReplyModel, RepresentationTypeKind, Shape, TextModel, TransferModeKind, Verb,
};

verus! {

/// How many more bytes a parse needs before it can decide.
#[derive(Clone, Copy, Debug, PartialEq, Eq, Hash, Structural)]
pub enum Needed {
    /// At least this many more bytes.
    Size(usize),
    /// Some more bytes, how many cannot be told from the grammar.
    Unknown,
}

/// The result of parsing the front of a byte sequence.
pub enum Step<T> {
    /// A complete element, and the position just after it.
    Done(T, int),
    /// The input is consistent with the grammar so far but ends too early.
    More(Needed),
    /// The input can never complete; the position where it went wrong.
    Fail(int),
}

pub open spec fn lift<A, B>(r: Step<A>, f: spec_fn(A) -> B) -> Step<B> {
    match r {
        Step::Done(v, q) => Step::Done(f(v), q),
        Step::More(h) => Step::More(h),
        Step::Fail(x) => Step::Fail(x),
    }
}

/// `r`, provided that a single byte `b` stands at `p` (`r` reads from `p + 1`).
pub open spec fn after_byte<A>(s: Seq<u8>, p: int, b: u8, r: Step<A>) -> Step<A> {
    match byte_spec(s, p, b) {
        Step::Done(_, _) => r,
        Step::More(h) => Step::More(h),
        Step::Fail(x) => Step::Fail(x),
    }
}

/// `r` followed by the line end.
pub open spec fn then_crlf<A>(s: Seq<u8>, r: Step<A>) -> Step<A> {
    match r {
        Step::Done(v, q) => match crlf_spec(s, q) {
            Step::Done(_, e) => Step::Done(v, e),
            Step::More(h) => Step::More(h),
            Step::Fail(x) => Step::Fail(x),
        },
        Step::More(h) => Step::More(h),
        Step::Fail(x) => Step::Fail(x),
    }
}

/// A single given byte.
pub open spec fn byte_spec(s: Seq<u8>, p: int, b: u8) -> Step<()> {
    if p >= s.len() {
        Step::More(Needed::Size(1))
    } else if s[p] == b {
        Step::Done((), p + 1)
    } else {
        Step::Fail(p)
    }
}

/// The line end CR LF.
pub open spec fn crlf_spec(s: Seq<u8>, p: int) -> Step<()> {
    if p >= s.len() {
        Step::More(Needed::Size(2))
    } else if s[p] != CR {
        Step::Fail(p)
    } else if p + 1 >= s.len() {
        Step::More(Needed::Size(1))
    } else if s[p + 1] != LF {
        Step::Fail(p + 1)
    } else {
        Step::Done((), p + 2)
    }
}

/// One or more bytes of a class, ended by a byte outside it.
pub open spec fn string_spec(s: Seq<u8>, p: int, cls: Class) -> Step<Seq<u8>> {
    let q = scan_end(s, p, cls);
    if q >= s.len() {
        Step::More(Needed::Unknown)
    } else if q == p {
        Step::Fail(p)
    } else {
        Step::Done(s.subrange(p, q), q)
    }
}

/// One or more decimal digits, ended by a byte that is not one, spelling a
/// number no greater than `limit`.
pub open spec fn number_spec(s: Seq<u8>, p: int, limit: u64) -> Step<u64> {
    let q = scan_end(s, p, Class::Digit);
    if q >= s.len() {
        Step::More(Needed::Unknown)
    } else if q == p {
        Step::Fail(p)
    } else if digits_value(s.subrange(p, q)) > limit {
        Step::Fail(p)
    } else {
        Step::Done(digits_value(s.subrange(p, q)) as u64, q)
    }
}

/// A decimal number from 0 through 255.
pub open spec fn byte_size_spec(s: Seq<u8>, p: int) -> Step<u8> {
    lift(number_spec(s, p, 255), |v: u64| v as u8)
}

/// A signed 64-bit decimal integer, with a leading hyphen when negative.
pub open spec fn decimal_integer_spec(s: Seq<u8>, p: int) -> Step<i64> {
    if 0 <= p < s.len() && s[p] == HYPHEN {
        lift(number_spec(s, p + 1, 0x8000_0000_0000_0000), |v: u64| (-(v as int)) as i64)
    } else {
        lift(number_spec(s, p, 0x7fff_ffff_ffff_ffff), |v: u64| v as i64)
    }
}

/// The upper-case form of each byte.
pub open spec fn upper_all(s: Seq<u8>) -> Seq<u8> {
    s.map_values(|c: u8| upper(c))
}

/// Whether `w` is the start of some verb's keyword.
#[verifier::opaque]
pub open spec fn keyword_prefix(w: Seq<u8>) -> bool {
    exists|v: Verb| w.len() <= keyword(v).len() && #[trigger] keyword(v).take(w.len() as int) == w
}

/// The verb keyword at the start of a command, in any letter case. A
/// three-letter keyword is taken as soon as its three bytes are there, a
/// four-letter one on four bytes; fewer bytes are rejected as soon as they
/// cannot start any keyword.
pub open spec fn command_name_spec(s: Seq<u8>) -> Step<Verb> {
    if s.len() >= 3 && verb3(upper(s[0]), upper(s[1]), upper(s[2])) is Some {
        Step::Done(verb3(upper(s[0]), upper(s[1]), upper(s[2]))->Some_0, 3)
    } else if s.len() < 4 {
        if !keyword_prefix(upper_all(s)) {
            Step::Fail(0)
        } else if s.len() < 3 {
            Step::More(Needed::Size((3 - s.len()) as usize))
        } else {
            Step::More(Needed::Size(1))
        }
    } else {
        match verb4(upper(s[0]), upper(s[1]), upper(s[2]), upper(s[3])) {
            Some(v) => Step::Done(v, 4),
            None => Step::Fail(0),
        }
    }
}

/// A form code letter: N, T or C.
pub open spec fn form_code_spec(s: Seq<u8>, p: int) -> Step<FormatControl> {
    if p >= s.len() {
        Step::More(Needed::Size(1))
    } else if upper(s[p]) == 0x4Eu8 {
        Step::Done(FormatControl::NonPrint, p + 1)
    } else if upper(s[p]) == 0x54u8 {
        Step::Done(FormatControl::Telnet, p + 1)
    } else if upper(s[p]) == 0x43u8 {
        Step::Done(FormatControl::Carriage, p + 1)
    } else {
        Step::Fail(p)
    }
}

pub open spec fn text_type(letter: u8, form: Option<FormatControl>) -> RepresentationTypeKind {
    if letter == 0x41u8 {
        RepresentationTypeKind::Ascii(form)
    } else {
        RepresentationTypeKind::Ebcdic(form)
    }
}

/// A type code: `A` or `E` with an optional form code, `I`, or `L` with a
/// byte size.
pub open spec fn type_code_spec(s: Seq<u8>, p: int) -> Step<RepresentationTypeKind> {
    if p >= s.len() {
        Step::More(Needed::Size(1))
    } else if upper(s[p]) == 0x41u8 || upper(s[p]) == 0x45u8 {
        if p + 1 >= s.len() {
            Step::More(Needed::Size(1))
        } else if s[p + 1] == SP {
            lift(
                form_code_spec(s, p + 2),
                |f: FormatControl| text_type(upper(s[p]), Some(f)),
            )
        } else {
            Step::Done(text_type(upper(s[p]), None), p + 1)
        }
    } else if upper(s[p]) == 0x49u8 {
        Step::Done(RepresentationTypeKind::Image, p + 1)
    } else if upper(s[p]) == 0x4Cu8 {
        after_byte(
            s,
            p + 1,
            SP,
            lift(byte_size_spec(s, p + 2), |n: u8| RepresentationTypeKind::LocalByte(n)),
        )
    } else {
        Step::Fail(p)
    }
}

/// A structure code letter: F, R or P.
pub open spec fn structure_code_spec(s: Seq<u8>, p: int) -> Step<FileStructureKind> {
    if p >= s.len() {
        Step::More(Needed::Size(1))
    } else if upper(s[p]) == 0x46u8 {
        Step::Done(FileStructureKind::File, p + 1)
    } else if upper(s[p]) == 0x52u8 {
        Step::Done(FileStructureKind::Record, p + 1)
    } else if upper(s[p]) == 0x50u8 {
        Step::Done(FileStructureKind::Page, p + 1)
    } else {
        Step::Fail(p)
    }
}

/// A mode code letter: S, B or C.
pub open spec fn mode_code_spec(s: Seq<u8>, p: int) -> Step<TransferModeKind> {
    if p >= s.len() {
        Step::More(Needed::Size(1))
    } else if upper(s[p]) == 0x53u8 {
        Step::Done(TransferModeKind::Stream, p + 1)
    } else if upper(s[p]) == 0x42u8 {
        Step::Done(TransferModeKind::Block, p + 1)
    } else if upper(s[p]) == 0x43u8 {
        Step::Done(TransferModeKind::Compressed, p + 1)
    } else {
        Step::Fail(p)
    }
}

/// `count` comma-separated byte values, appended to `acc`.
pub open spec fn numbers_spec(s: Seq<u8>, p: int, count: nat, acc: Seq<u8>) -> Step<Seq<u8>>
    decreases count,
{
    match byte_size_spec(s, p) {
        Step::Done(v, q) => if count <= 1 {
            Step::Done(acc.push(v), q)
        } else {
            after_byte(s, q, COMMA, numbers_spec(s, q + 1, (count - 1) as nat, acc.push(v)))
        },
        Step::More(h) => Step::More(h),
        Step::Fail(x) => Step::Fail(x),
    }
}

/// The port that two bytes spell, high byte first.
pub open spec fn port_of(high: u8, low: u8) -> u16 {
    (high * 256 + low) as u16
}

/// Four host octets and two port bytes, comma separated.
pub open spec fn host_port_spec(s: Seq<u8>, p: int) -> Step<(Seq<u8>, u16)> {
    lift(numbers_spec(s, p, 6, seq![]), |v: Seq<u8>| (v.take(4), port_of(v[4], v[5])))
}

/// A size, optionally followed by ` R ` and a maximum record size.
pub open spec fn allocate_spec(s: Seq<u8>, p: int) -> Step<ArgumentModel> {
    match decimal_integer_spec(s, p) {
        Step::Done(a, q) => if q < s.len() && s[q] == SP {
            if q + 1 >= s.len() {
                Step::More(Needed::Size(1))
            } else if upper(s[q + 1]) != 0x52u8 {
                Step::Fail(q + 1)
            } else {
                after_byte(
                    s,
                    q + 2,
                    SP,
                    lift(
                        decimal_integer_spec(s, q + 3),
                        |b: i64| ArgumentModel::Allocate(a, Some(b)),
                    ),
                )
            }
        } else {
            Step::Done(ArgumentModel::Allocate(a, None), q)
        },
        Step::More(h) => Step::More(h),
        Step::Fail(x) => Step::Fail(x),
    }
}

/// What follows a verb of the given shape, up to and including the line end.
pub open spec fn argument_spec(sh: Shape, s: Seq<u8>, p: int) -> Step<ArgumentModel> {
    match sh {
        Shape::Nothing => then_crlf(s, Step::Done(ArgumentModel::Nothing, p)),
        Shape::Text => then_crlf(
            s,
            after_byte(
                s,
                p,
                SP,
                lift(string_spec(s, p + 1, Class::Line), |b: Seq<u8>| ArgumentModel::Bytes(b)),
            ),
        ),
        Shape::Marker => then_crlf(
            s,
            after_byte(
                s,
                p,
                SP,
                lift(
                    string_spec(s, p + 1, Class::Printable),
                    |b: Seq<u8>| ArgumentModel::Bytes(b),
                ),
            ),
        ),
        Shape::MaybeText => if 0 <= p < s.len() && s[p] == SP {
            then_crlf(
                s,
                lift(
                    string_spec(s, p + 1, Class::Line),
                    |b: Seq<u8>| ArgumentModel::MaybeBytes(Some(b)),
                ),
            )
        } else {
            then_crlf(s, Step::Done(ArgumentModel::MaybeBytes(None), p))
        },
        Shape::HostPort => then_crlf(
            s,
            after_byte(
                s,
                p,
                SP,
                lift(
                    host_port_spec(s, p + 1),
                    |hp: (Seq<u8>, u16)| ArgumentModel::HostPort(hp.0, hp.1),
                ),
            ),
        ),
        Shape::Type => then_crlf(
            s,
            after_byte(
                s,
                p,
                SP,
                lift(type_code_spec(s, p + 1), |k: RepresentationTypeKind| ArgumentModel::Type(k)),
            ),
        ),
        Shape::Structure => then_crlf(
            s,
            after_byte(
                s,
                p,
                SP,
                lift(
                    structure_code_spec(s, p + 1),
                    |k: FileStructureKind| ArgumentModel::Structure(k),
                ),
            ),
        ),
        Shape::Mode => then_crlf(
            s,
            after_byte(
                s,
                p,
                SP,
                lift(mode_code_spec(s, p + 1), |k: TransferModeKind| ArgumentModel::Mode(k)),
            ),
        ),
        Shape::Allocate => then_crlf(s, after_byte(s, p, SP, allocate_spec(s, p + 1))),
    }
}

/// A whole command at the front of `s`: verb, argument, line end.
pub open spec fn command_spec(s: Seq<u8>) -> Step<CommandModel> {
    match command_name_spec(s) {
        Step::Done(v, q) => lift(
            argument_spec(shape(v), s, q),
            |a: ArgumentModel| CommandModel { verb: v, arg: a },
        ),
        Step::More(h) => Step::More(h),
        Step::Fail(x) => Step::Fail(x),
    }
}

/// The three-digit code at the front of a reply.
pub open spec fn code_spec(s: Seq<u8>) -> Step<Seq<u8>> {
    if s.len() >= 1 && !in_class(s[0], Class::Digit) {
        Step::Fail(0)
    } else if s.len() >= 2 && !in_class(s[1], Class::Digit) {
        Step::Fail(1)
    } else if s.len() >= 3 && !in_class(s[2], Class::Digit) {
        Step::Fail(2)
    } else if s.len() < 3 {
        Step::More(Needed::Size((3 - s.len()) as usize))
    } else {
        Step::Done(s.take(3), 3)
    }
}

/// A line of reply text: any bytes up to the first CR LF pair, which ends
/// it. A lone CR or LF belongs to the text.
pub open spec fn text_line_spec(s: Seq<u8>, p: int) -> Step<Seq<u8>> {
    let q = line_end(s, p);
    if q + 1 >= s.len() {
        Step::More(Needed::Unknown)
    } else {
        Step::Done(s.subrange(p, q), q + 2)
    }
}

/// The lines of a multi-line reply from `p` on, after the lines in `acc`,
/// through the closing line that starts with the code and a space.
pub open spec fn closing_spec(s: Seq<u8>, code: Seq<u8>, p: int, acc: Seq<Seq<u8>>) -> Step<
    TextModel,
>
    decreases s.len() - p,
{
    if p < 0 || p + 4 > s.len() {
        Step::More(Needed::Unknown)
    } else if s.subrange(p, p + 4) == code.push(SP) {
        lift(text_line_spec(s, p + 4), |l: Seq<u8>| TextModel::MultiLine(acc, l))
    } else {
        match text_line_spec(s, p) {
            Step::Done(l, q) => if q > p {
                closing_spec(s, code, q, acc.push(l))
            } else {
                Step::Fail(p)
            },
            Step::More(h) => Step::More(h),
            Step::Fail(x) => Step::Fail(x),
        }
    }
}

/// A whole reply at the front of `s`.
pub open spec fn reply_spec(s: Seq<u8>) -> Step<ReplyModel> {
    match code_spec(s) {
        Step::Done(code, _) => if s.len() <= 3 {
            Step::More(Needed::Size(1))
        } else if s[3] == SP {
            lift(
                text_line_spec(s, 4),
                |l: Seq<u8>| ReplyModel { code, text: TextModel::SingleLine(l) },
            )
        } else if s[3] == HYPHEN {
            match text_line_spec(s, 4) {
                Step::Done(first, q) => lift(
                    closing_spec(s, code, q, seq![first]),
                    |t: TextModel| ReplyModel { code, text: t },
                ),
                Step::More(h) => Step::More(h),
                Step::Fail(x) => Step::Fail(x),
            }
        } else {
            Step::Fail(3)
        },
        Step::More(h) => Step::More(h),
        Step::Fail(x) => Step::Fail(x),
    }
}

} // verus!
