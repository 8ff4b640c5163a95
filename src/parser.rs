//! Incremental parsers for commands and replies.
use vstd::prelude::*;

use crate::bytes::{
    byte_in_class, is_digit, copy_range, digits_number, find_line_end, find_run_end, to_upper, upper, Class, COMMA, CR, HYPHEN,
    LF, SP,
};
use crate::laws::{lemma_reply_code_digits, lemma_reply_has_code};
use crate::grammar::{
    allocate_spec, argument_spec, byte_size_spec, byte_spec, closing_spec, code_spec,
    command_name_spec, command_spec, crlf_spec, decimal_integer_spec, form_code_spec,
    host_port_spec, keyword_prefix, mode_code_spec, then_crlf, upper_all, number_spec, numbers_spec, port_of, reply_spec,
    string_spec, structure_code_spec, text_line_spec, type_code_spec, Needed, Step,
};
use crate::model::{
    fits_shape, is_code, keyword, keyword_bytes, lemma_verb_index, lines_view, lookup_verb3, verb_at,
    verb_index, verb_table, VERB_COUNT, lookup_verb4, shape_of, Argument, Command, FileStructureKind,
    FormatControl, Reply, RepresentationTypeKind, Shape, Text, TransferModeKind, Verb,
};

verus! {

/// The result of parsing the front of a byte slice.
#[derive(Clone, Debug, PartialEq, Eq)]
pub enum ParseOutcome<T> {
    /// A complete element, and how many bytes from the start of the slice
    /// it reaches to; the bytes after it are left for the next parse.
    Parsed(T, usize),
    /// The slice is a prefix of something well-formed but ends too early.
    Incomplete(Needed),
    /// The slice can never complete; the offset where it went wrong.
    Invalid(usize),
}

impl<T: View> View for ParseOutcome<T> {
    type V = Step<T::V>;

    open spec fn view(&self) -> Step<T::V> {
        match self {
            ParseOutcome::Parsed(v, n) => Step::Done(v@, *n as int),
            ParseOutcome::Incomplete(h) => Step::More(*h),
            ParseOutcome::Invalid(n) => Step::Fail(*n as int),
        }
    }
}

/// A single given byte at `at`.
fn expect_byte(i: &[u8], at: usize, b: u8) -> (r: ParseOutcome<()>)
    requires
        at <= i@.len(),
    ensures
        r@ == byte_spec(i@, at as int, b),
        r matches ParseOutcome::Invalid(x) ==> x < i@.len(),
        r matches ParseOutcome::Parsed(_, e) ==> e == at + 1,
{
    if at >= i.len() {
        ParseOutcome::Incomplete(Needed::Size(1))
    } else if i[at] == b {
        ParseOutcome::Parsed((), at + 1)
    } else {
        ParseOutcome::Invalid(at)
    }
}

/// A comma at `at`.
pub fn comma(i: &[u8], at: usize) -> (r: ParseOutcome<()>)
    requires
        at <= i@.len(),
    ensures
        r@ == byte_spec(i@, at as int, COMMA),
        r matches ParseOutcome::Invalid(x) ==> x < i@.len(),
{
    expect_byte(i, at, COMMA)
}

/// A space at `at`.
pub fn space(i: &[u8], at: usize) -> (r: ParseOutcome<()>)
    requires
        at <= i@.len(),
    ensures
        r@ == byte_spec(i@, at as int, SP),
        r matches ParseOutcome::Invalid(x) ==> x < i@.len(),
{
    expect_byte(i, at, SP)
}

/// The line end CR LF at `at`.
pub fn crlf(i: &[u8], at: usize) -> (r: ParseOutcome<()>)
    requires
        at <= i@.len(),
    ensures
        r@ == crlf_spec(i@, at as int),
        r matches ParseOutcome::Invalid(x) ==> x < i@.len(),
        r matches ParseOutcome::Parsed(_, e) ==> e == at + 2,
{
    if at >= i.len() {
        ParseOutcome::Incomplete(Needed::Size(2))
    } else if i[at] != CR {
        ParseOutcome::Invalid(at)
    } else if at + 1 >= i.len() {
        ParseOutcome::Incomplete(Needed::Size(1))
    } else if i[at + 1] != LF {
        ParseOutcome::Invalid(at + 1)
    } else {
        ParseOutcome::Parsed((), at + 2)
    }
}

/// One or more bytes of a class at `at`.
fn string(i: &[u8], at: usize, cls: Class) -> (r: ParseOutcome<Vec<u8>>)
    requires
        at <= i@.len(),
    ensures
        r@ == string_spec(i@, at as int, cls),
        r matches ParseOutcome::Invalid(x) ==> x < i@.len(),
        r matches ParseOutcome::Parsed(_, e) ==> at < e < i@.len(),
{
    let q = find_run_end(i, at, cls);
    if q >= i.len() {
        ParseOutcome::Incomplete(Needed::Unknown)
    } else if q == at {
        ParseOutcome::Invalid(at)
    } else {
        ParseOutcome::Parsed(copy_range(i, at, q), q)
    }
}

/// A decimal number no greater than `limit` at `at`.
fn number(i: &[u8], at: usize, limit: u64) -> (r: ParseOutcome<u64>)
    requires
        at <= i@.len(),
    ensures
        r@ == number_spec(i@, at as int, limit),
        r matches ParseOutcome::Invalid(x) ==> x < i@.len(),
        r matches ParseOutcome::Parsed(v, e) ==> at < e < i@.len() && v <= limit,
{
    let q = find_run_end(i, at, Class::Digit);
    if q >= i.len() {
        ParseOutcome::Incomplete(Needed::Unknown)
    } else if q == at {
        ParseOutcome::Invalid(at)
    } else {
        match digits_number(i, at, q, limit) {
            Some(v) => ParseOutcome::Parsed(v, q),
            None => ParseOutcome::Invalid(at),
        }
    }
}

/// A decimal number from 0 through 255 at `at`.
fn byte_size(i: &[u8], at: usize) -> (r: ParseOutcome<u8>)
    requires
        at <= i@.len(),
    ensures
        r@ == byte_size_spec(i@, at as int),
        r matches ParseOutcome::Invalid(x) ==> x < i@.len(),
        r matches ParseOutcome::Parsed(_, e) ==> at < e < i@.len(),
{
    match number(i, at, 255) {
        ParseOutcome::Parsed(v, e) => ParseOutcome::Parsed(v as u8, e),
        ParseOutcome::Incomplete(h) => ParseOutcome::Incomplete(h),
        ParseOutcome::Invalid(x) => ParseOutcome::Invalid(x),
    }
}

/// A signed 64-bit decimal integer at `at`.
fn decimal_integer(i: &[u8], at: usize) -> (r: ParseOutcome<i64>)
    requires
        at <= i@.len(),
    ensures
        r@ == decimal_integer_spec(i@, at as int),
        r matches ParseOutcome::Invalid(x) ==> x < i@.len(),
        r matches ParseOutcome::Parsed(_, e) ==> at < e < i@.len(),
{
    if at < i.len() && i[at] == HYPHEN {
        match number(i, at + 1, 0x8000_0000_0000_0000) {
            ParseOutcome::Parsed(v, e) => {
                let n: i64 = if v == 0x8000_0000_0000_0000 {
                    i64::MIN
                } else {
                    -(v as i64)
                };
                ParseOutcome::Parsed(n, e)
            },
            ParseOutcome::Incomplete(h) => ParseOutcome::Incomplete(h),
            ParseOutcome::Invalid(x) => ParseOutcome::Invalid(x),
        }
    } else {
        match number(i, at, 0x7fff_ffff_ffff_ffff) {
            ParseOutcome::Parsed(v, e) => ParseOutcome::Parsed(v as i64, e),
            ParseOutcome::Incomplete(h) => ParseOutcome::Incomplete(h),
            ParseOutcome::Invalid(x) => ParseOutcome::Invalid(x),
        }
    }
}

/// Whether `w`, in upper case, starts some verb's keyword.
fn is_keyword_prefix(w: &[u8]) -> (r: bool)
    ensures
        r == keyword_prefix(upper_all(w@)),
{
    let mut up: Vec<u8> = Vec::new();
    let mut k: usize = 0;
    while k < w.len()
        invariant
            k <= w@.len(),
            up@ == upper_all(w@.take(k as int)),
        decreases w@.len() - k,
    {
        up.push(to_upper(w[k]));
        assert(upper_all(w@.take(k + 1)) =~= upper_all(w@.take(k as int)).push(upper(w@[k as int])));
        k += 1;
    }
    assert(w@.take(w@.len() as int) == w@);
    let ghost target = up@;
    assert(target == upper_all(w@));
    let mut i: usize = 0;
    while i < VERB_COUNT
        invariant
            i <= VERB_COUNT,
            up@ == target,
            target == upper_all(w@),
            forall|j: int|
                0 <= j < i ==> !(target.len() <= keyword(verb_table()[j]).len() && #[trigger] keyword(
                    verb_table()[j],
                ).take(target.len() as int) == target),
        decreases VERB_COUNT - i,
    {
        let verb = verb_at(i);
        let kw = keyword_bytes(verb);
        if up.len() <= kw.len() {
            let mut j: usize = 0;
            let mut same = true;
            while j < up.len()
                invariant
                    j <= up@.len() <= kw@.len(),
                    same == (forall|m: int| 0 <= m < j ==> up@[m] == kw@[m]),
                decreases up@.len() - j,
            {
                if up[j] != kw[j] {
                    same = false;
                }
                j += 1;
            }
            if same {
                assert(kw@.take(target.len() as int) =~= target);
                assert(keyword_prefix(target)) by {
                    reveal(keyword_prefix);
                    assert(target.len() <= keyword(verb).len() && keyword(verb).take(
                        target.len() as int,
                    ) == target);
                }
                return true;
            }
            assert(kw@.take(target.len() as int) != target) by {
                let m = choose|m: int| 0 <= m < up@.len() && up@[m] != kw@[m];
                assert(kw@.take(target.len() as int)[m] == kw@[m]);
            }
        }
        i += 1;
    }
    assert forall|v: Verb|
        !(target.len() <= keyword(v).len() && #[trigger] keyword(v).take(target.len() as int)
            == target) by {
        lemma_verb_index(v);
        assert(verb_table()[verb_index(v) as int] == v);
    }
    assert(!keyword_prefix(target)) by {
        reveal(keyword_prefix);
    }
    false
}

/// The verb keyword at the start of a command.
fn command_name(i: &[u8]) -> (r: ParseOutcome<Verb>)
    ensures
        r@ == command_name_spec(i@),
        r matches ParseOutcome::Invalid(x) ==> x < i@.len(),
        r matches ParseOutcome::Parsed(_, e) ==> e <= i@.len(),
{
    proof {
        if i@.len() == 0 {
            reveal(keyword_prefix);
            assert(keyword(Verb::User).take(0) =~= upper_all(i@));
        }
    }
    if i.len() >= 3 {
        if let Some(v) = lookup_verb3(to_upper(i[0]), to_upper(i[1]), to_upper(i[2])) {
            return ParseOutcome::Parsed(v, 3);
        }
    }
    if i.len() < 4 {
        if !is_keyword_prefix(i) {
            ParseOutcome::Invalid(0)
        } else if i.len() < 3 {
            ParseOutcome::Incomplete(Needed::Size(3 - i.len()))
        } else {
            ParseOutcome::Incomplete(Needed::Size(1))
        }
    } else {
        match lookup_verb4(to_upper(i[0]), to_upper(i[1]), to_upper(i[2]), to_upper(i[3])) {
            Some(v) => ParseOutcome::Parsed(v, 4),
            None => ParseOutcome::Invalid(0),
        }
    }
}

/// A form code letter at `at`.
fn form_code(i: &[u8], at: usize) -> (r: ParseOutcome<FormatControl>)
    requires
        at <= i@.len(),
    ensures
        r@ == form_code_spec(i@, at as int),
        r matches ParseOutcome::Invalid(x) ==> x < i@.len(),
        r matches ParseOutcome::Parsed(_, e) ==> e == at + 1,
{
    if at >= i.len() {
        return ParseOutcome::Incomplete(Needed::Size(1));
    }
    let c = to_upper(i[at]);
    if c == 0x4E {
        ParseOutcome::Parsed(FormatControl::NonPrint, at + 1)
    } else if c == 0x54 {
        ParseOutcome::Parsed(FormatControl::Telnet, at + 1)
    } else if c == 0x43 {
        ParseOutcome::Parsed(FormatControl::Carriage, at + 1)
    } else {
        ParseOutcome::Invalid(at)
    }
}

/// A type code at `at`.
fn type_code(i: &[u8], at: usize) -> (r: ParseOutcome<RepresentationTypeKind>)
    requires
        at <= i@.len(),
    ensures
        r@ == type_code_spec(i@, at as int),
        r matches ParseOutcome::Invalid(x) ==> x < i@.len(),
        r matches ParseOutcome::Parsed(_, e) ==> at < e <= i@.len(),
{
    if at >= i.len() {
        return ParseOutcome::Incomplete(Needed::Size(1));
    }
    let c = to_upper(i[at]);
    if c == 0x41 || c == 0x45 {
        if at + 1 >= i.len() {
            ParseOutcome::Incomplete(Needed::Size(1))
        } else if i[at + 1] == SP {
            match form_code(i, at + 2) {
                ParseOutcome::Parsed(f, e) => {
                    let k = if c == 0x41 {
                        RepresentationTypeKind::Ascii(Some(f))
                    } else {
                        RepresentationTypeKind::Ebcdic(Some(f))
                    };
                    ParseOutcome::Parsed(k, e)
                },
                ParseOutcome::Incomplete(h) => ParseOutcome::Incomplete(h),
                ParseOutcome::Invalid(x) => ParseOutcome::Invalid(x),
            }
        } else {
            let k = if c == 0x41 {
                RepresentationTypeKind::Ascii(None)
            } else {
                RepresentationTypeKind::Ebcdic(None)
            };
            ParseOutcome::Parsed(k, at + 1)
        }
    } else if c == 0x49 {
        ParseOutcome::Parsed(RepresentationTypeKind::Image, at + 1)
    } else if c == 0x4C {
        match expect_byte(i, at + 1, SP) {
            ParseOutcome::Parsed(_, _) => match byte_size(i, at + 2) {
                ParseOutcome::Parsed(n, e) => ParseOutcome::Parsed(
                    RepresentationTypeKind::LocalByte(n),
                    e,
                ),
                ParseOutcome::Incomplete(h) => ParseOutcome::Incomplete(h),
                ParseOutcome::Invalid(x) => ParseOutcome::Invalid(x),
            },
            ParseOutcome::Incomplete(h) => ParseOutcome::Incomplete(h),
            ParseOutcome::Invalid(x) => ParseOutcome::Invalid(x),
        }
    } else {
        ParseOutcome::Invalid(at)
    }
}

/// A structure code letter at `at`.
fn structure_code(i: &[u8], at: usize) -> (r: ParseOutcome<FileStructureKind>)
    requires
        at <= i@.len(),
    ensures
        r@ == structure_code_spec(i@, at as int),
        r matches ParseOutcome::Invalid(x) ==> x < i@.len(),
        r matches ParseOutcome::Parsed(_, e) ==> e == at + 1,
{
    if at >= i.len() {
        return ParseOutcome::Incomplete(Needed::Size(1));
    }
    let c = to_upper(i[at]);
    if c == 0x46 {
        ParseOutcome::Parsed(FileStructureKind::File, at + 1)
    } else if c == 0x52 {
        ParseOutcome::Parsed(FileStructureKind::Record, at + 1)
    } else if c == 0x50 {
        ParseOutcome::Parsed(FileStructureKind::Page, at + 1)
    } else {
        ParseOutcome::Invalid(at)
    }
}

/// A mode code letter at `at`.
fn mode_code(i: &[u8], at: usize) -> (r: ParseOutcome<TransferModeKind>)
    requires
        at <= i@.len(),
    ensures
        r@ == mode_code_spec(i@, at as int),
        r matches ParseOutcome::Invalid(x) ==> x < i@.len(),
        r matches ParseOutcome::Parsed(_, e) ==> e == at + 1,
{
    if at >= i.len() {
        return ParseOutcome::Incomplete(Needed::Size(1));
    }
    let c = to_upper(i[at]);
    if c == 0x53 {
        ParseOutcome::Parsed(TransferModeKind::Stream, at + 1)
    } else if c == 0x42 {
        ParseOutcome::Parsed(TransferModeKind::Block, at + 1)
    } else if c == 0x43 {
        ParseOutcome::Parsed(TransferModeKind::Compressed, at + 1)
    } else {
        ParseOutcome::Invalid(at)
    }
}

/// Four host octets and two port bytes, comma separated, at `at`.
fn host_port(i: &[u8], at: usize) -> (r: ParseOutcome<([u8; 4], u16)>)
    requires
        at <= i@.len(),
    ensures
        r@ == host_port_spec(i@, at as int),
        r matches ParseOutcome::Invalid(x) ==> x < i@.len(),
        r matches ParseOutcome::Parsed(_, e) ==> at < e < i@.len(),
{
    let mut values: Vec<u8> = Vec::new();
    let mut p: usize = at;
    let mut count: usize = 6;
    loop
        invariant
            at <= p <= i@.len(),
            1 <= count <= 6,
            values@.len() + count == 6,
            numbers_spec(i@, at as int, 6, seq![]) == numbers_spec(
                i@,
                p as int,
                count as nat,
                values@,
            ),
        decreases count,
    {
        match byte_size(i, p) {
            ParseOutcome::Parsed(v, q) => {
                values.push(v);
                if count == 1 {
                    let address: [u8; 4] = [values[0], values[1], values[2], values[3]];
                    let port: u16 = (values[4] as u16) * 256 + values[5] as u16;
                    assert(address@ =~= values@.take(4));
                    assert(port == port_of(values@[4], values@[5]));
                    return ParseOutcome::Parsed((address, port), q);
                }
                match comma(i, q) {
                    ParseOutcome::Parsed(_, _) => {
                        p = q + 1;
                        count = count - 1;
                    },
                    ParseOutcome::Incomplete(h) => {
                        return ParseOutcome::Incomplete(h);
                    },
                    ParseOutcome::Invalid(x) => {
                        return ParseOutcome::Invalid(x);
                    },
                }
            },
            ParseOutcome::Incomplete(h) => {
                return ParseOutcome::Incomplete(h);
            },
            ParseOutcome::Invalid(x) => {
                return ParseOutcome::Invalid(x);
            },
        }
    }
}

/// The argument of ALLO at `at`.
fn allocate(i: &[u8], at: usize) -> (r: ParseOutcome<Argument>)
    requires
        at <= i@.len(),
    ensures
        r@ == allocate_spec(i@, at as int),
        r matches ParseOutcome::Invalid(x) ==> x < i@.len(),
        r matches ParseOutcome::Parsed(a, e) ==> a is Allocate && at < e <= i@.len(),
{
    match decimal_integer(i, at) {
        ParseOutcome::Parsed(a, q) => {
            if q < i.len() && i[q] == SP {
                if q + 1 >= i.len() {
                    ParseOutcome::Incomplete(Needed::Size(1))
                } else if to_upper(i[q + 1]) != 0x52 {
                    ParseOutcome::Invalid(q + 1)
                } else {
                    match expect_byte(i, q + 2, SP) {
                        ParseOutcome::Parsed(_, _) => match decimal_integer(i, q + 3) {
                            ParseOutcome::Parsed(b, e) => ParseOutcome::Parsed(
                                Argument::Allocate(a, Some(b)),
                                e,
                            ),
                            ParseOutcome::Incomplete(h) => ParseOutcome::Incomplete(h),
                            ParseOutcome::Invalid(x) => ParseOutcome::Invalid(x),
                        },
                        ParseOutcome::Incomplete(h) => ParseOutcome::Incomplete(h),
                        ParseOutcome::Invalid(x) => ParseOutcome::Invalid(x),
                    }
                }
            } else {
                ParseOutcome::Parsed(Argument::Allocate(a, None), q)
            }
        },
        ParseOutcome::Incomplete(h) => ParseOutcome::Incomplete(h),
        ParseOutcome::Invalid(x) => ParseOutcome::Invalid(x),
    }
}

/// `r` followed by the line end.
fn finish<T: View>(i: &[u8], r: ParseOutcome<T>) -> (out: ParseOutcome<T>)
    requires
        r matches ParseOutcome::Parsed(_, e) ==> e <= i@.len(),
        r matches ParseOutcome::Invalid(x) ==> x < i@.len(),
    ensures
        out@ == then_crlf(i@, r@),
        out matches ParseOutcome::Invalid(y) ==> y < i@.len(),
        out matches ParseOutcome::Parsed(_, e) ==> e <= i@.len(),
{
    match r {
        ParseOutcome::Parsed(v, q) => match crlf(i, q) {
            ParseOutcome::Parsed(_, e) => ParseOutcome::Parsed(v, e),
            ParseOutcome::Incomplete(h) => ParseOutcome::Incomplete(h),
            ParseOutcome::Invalid(x) => ParseOutcome::Invalid(x),
        },
        ParseOutcome::Incomplete(h) => ParseOutcome::Incomplete(h),
        ParseOutcome::Invalid(x) => ParseOutcome::Invalid(x),
    }
}

/// What follows a verb of shape `sh`, through the line end.
fn argument(sh: Shape, i: &[u8], at: usize) -> (r: ParseOutcome<Argument>)
    requires
        at <= i@.len(),
    ensures
        r@ == argument_spec(sh, i@, at as int),
        r matches ParseOutcome::Invalid(x) ==> x < i@.len(),
        r matches ParseOutcome::Parsed(a, e) ==> fits_shape(sh, a@) && e <= i@.len(),
{
    let body: ParseOutcome<Argument> = match sh {
        Shape::Nothing => ParseOutcome::Parsed(Argument::Nothing, at),
        Shape::Text | Shape::Marker => {
            let cls = if sh == Shape::Text {
                Class::Line
            } else {
                Class::Printable
            };
            match space(i, at) {
                ParseOutcome::Parsed(_, _) => match string(i, at + 1, cls) {
                    ParseOutcome::Parsed(b, e) => ParseOutcome::Parsed(Argument::Bytes(b), e),
                    ParseOutcome::Incomplete(h) => ParseOutcome::Incomplete(h),
                    ParseOutcome::Invalid(x) => ParseOutcome::Invalid(x),
                },
                ParseOutcome::Incomplete(h) => ParseOutcome::Incomplete(h),
                ParseOutcome::Invalid(x) => ParseOutcome::Invalid(x),
            }
        },
        Shape::MaybeText => {
            if at < i.len() && i[at] == SP {
                match string(i, at + 1, Class::Line) {
                    ParseOutcome::Parsed(b, e) => ParseOutcome::Parsed(
                        Argument::MaybeBytes(Some(b)),
                        e,
                    ),
                    ParseOutcome::Incomplete(h) => ParseOutcome::Incomplete(h),
                    ParseOutcome::Invalid(x) => ParseOutcome::Invalid(x),
                }
            } else {
                ParseOutcome::Parsed(Argument::MaybeBytes(None), at)
            }
        },
        Shape::HostPort => match space(i, at) {
            ParseOutcome::Parsed(_, _) => match host_port(i, at + 1) {
                ParseOutcome::Parsed((a, p), e) => ParseOutcome::Parsed(Argument::HostPort(a, p), e),
                ParseOutcome::Incomplete(h) => ParseOutcome::Incomplete(h),
                ParseOutcome::Invalid(x) => ParseOutcome::Invalid(x),
            },
            ParseOutcome::Incomplete(h) => ParseOutcome::Incomplete(h),
            ParseOutcome::Invalid(x) => ParseOutcome::Invalid(x),
        },
        Shape::Type => match space(i, at) {
            ParseOutcome::Parsed(_, _) => match type_code(i, at + 1) {
                ParseOutcome::Parsed(k, e) => ParseOutcome::Parsed(Argument::Type(k), e),
                ParseOutcome::Incomplete(h) => ParseOutcome::Incomplete(h),
                ParseOutcome::Invalid(x) => ParseOutcome::Invalid(x),
            },
            ParseOutcome::Incomplete(h) => ParseOutcome::Incomplete(h),
            ParseOutcome::Invalid(x) => ParseOutcome::Invalid(x),
        },
        Shape::Structure => match space(i, at) {
            ParseOutcome::Parsed(_, _) => match structure_code(i, at + 1) {
                ParseOutcome::Parsed(k, e) => ParseOutcome::Parsed(Argument::Structure(k), e),
                ParseOutcome::Incomplete(h) => ParseOutcome::Incomplete(h),
                ParseOutcome::Invalid(x) => ParseOutcome::Invalid(x),
            },
            ParseOutcome::Incomplete(h) => ParseOutcome::Incomplete(h),
            ParseOutcome::Invalid(x) => ParseOutcome::Invalid(x),
        },
        Shape::Mode => match space(i, at) {
            ParseOutcome::Parsed(_, _) => match mode_code(i, at + 1) {
                ParseOutcome::Parsed(k, e) => ParseOutcome::Parsed(Argument::Mode(k), e),
                ParseOutcome::Incomplete(h) => ParseOutcome::Incomplete(h),
                ParseOutcome::Invalid(x) => ParseOutcome::Invalid(x),
            },
            ParseOutcome::Incomplete(h) => ParseOutcome::Incomplete(h),
            ParseOutcome::Invalid(x) => ParseOutcome::Invalid(x),
        },
        Shape::Allocate => match space(i, at) {
            ParseOutcome::Parsed(_, _) => allocate(i, at + 1),
            ParseOutcome::Incomplete(h) => ParseOutcome::Incomplete(h),
            ParseOutcome::Invalid(x) => ParseOutcome::Invalid(x),
        },
    };
    finish(i, body)
}

/// Parses one command from the front of `i`.
pub fn command(i: &[u8]) -> (r: ParseOutcome<Command>)
    ensures
        r@ == command_spec(i@),
        r matches ParseOutcome::Invalid(x) ==> x < i@.len(),
        r matches ParseOutcome::Parsed(_, e) ==> e <= i@.len(),
{
    match command_name(i) {
        ParseOutcome::Parsed(v, q) => match argument(shape_of(v), i, q) {
            ParseOutcome::Parsed(a, e) => ParseOutcome::Parsed(Command::from_parts(v, a), e),
            ParseOutcome::Incomplete(h) => ParseOutcome::Incomplete(h),
            ParseOutcome::Invalid(x) => ParseOutcome::Invalid(x),
        },
        ParseOutcome::Incomplete(h) => ParseOutcome::Incomplete(h),
        ParseOutcome::Invalid(x) => ParseOutcome::Invalid(x),
    }
}

/// The three-digit code at the front of a reply.
fn code(i: &[u8]) -> (r: ParseOutcome<[u8; 3]>)
    ensures
        r@ == code_spec(i@),
        r matches ParseOutcome::Invalid(x) ==> x < i@.len(),
        r matches ParseOutcome::Parsed(_, e) ==> e == 3 && i@.len() >= 3,
{
    if i.len() >= 1 && !byte_in_class(i[0], Class::Digit) {
        ParseOutcome::Invalid(0)
    } else if i.len() >= 2 && !byte_in_class(i[1], Class::Digit) {
        ParseOutcome::Invalid(1)
    } else if i.len() >= 3 && !byte_in_class(i[2], Class::Digit) {
        ParseOutcome::Invalid(2)
    } else if i.len() < 3 {
        ParseOutcome::Incomplete(Needed::Size(3 - i.len()))
    } else {
        let c: [u8; 3] = [i[0], i[1], i[2]];
        assert(c@ =~= i@.take(3));
        ParseOutcome::Parsed(c, 3)
    }
}

/// A line of reply text at `at`, through its line end.
fn text_line(i: &[u8], at: usize) -> (r: ParseOutcome<Vec<u8>>)
    requires
        at <= i@.len(),
    ensures
        r@ == text_line_spec(i@, at as int),
        r matches ParseOutcome::Invalid(x) ==> x < i@.len(),
        r matches ParseOutcome::Parsed(_, e) ==> at + 2 <= e <= i@.len(),
        !(r is Invalid),
{
    let q = find_line_end(i, at);
    if q >= i.len() || q + 1 >= i.len() {
        ParseOutcome::Incomplete(Needed::Unknown)
    } else {
        ParseOutcome::Parsed(copy_range(i, at, q), q + 2)
    }
}

/// The lines of a multi-line reply after its first line, through the
/// closing line.
fn closing_lines(i: &[u8], code: &[u8; 3], start: usize, first: Vec<u8>) -> (r: ParseOutcome<
    Text,
>)
    requires
        start <= i@.len(),
    ensures
        r@ == closing_spec(i@, code@, start as int, seq![first@]),
        r matches ParseOutcome::Invalid(x) ==> x < i@.len(),
        r matches ParseOutcome::Parsed(_, e) ==> e <= i@.len(),
{
    let mut lines: Vec<Vec<u8>> = Vec::new();
    lines.push(first);
    assert(lines_view(lines@) =~= seq![first@]);
    let mut p: usize = start;
    loop
        invariant
            p <= i@.len(),
            closing_spec(i@, code@, start as int, seq![first@]) == closing_spec(
                i@,
                code@,
                p as int,
                lines_view(lines@),
            ),
        decreases i@.len() - p,
    {
        if i.len() - p < 4 {
            return ParseOutcome::Incomplete(Needed::Unknown);
        }
        let closing = i[p] == code[0] && i[p + 1] == code[1] && i[p + 2] == code[2] && i[p + 3]
            == SP;
        proof {
            let window = i@.subrange(p as int, p + 4);
            assert(window[0] == i@[p as int] && window[1] == i@[p + 1] && window[2] == i@[p + 2]
                && window[3] == i@[p + 3]);
            if closing {
                assert(window =~= code@.push(SP));
            } else if window == code@.push(SP) {
                assert(code@.push(SP)[3] == SP);
            }
        }
        if closing {
            return match text_line(i, p + 4) {
                ParseOutcome::Parsed(l, e) => ParseOutcome::Parsed(
                    Text::MultiLine { lines, last_line: l },
                    e,
                ),
                ParseOutcome::Incomplete(h) => ParseOutcome::Incomplete(h),
                ParseOutcome::Invalid(x) => ParseOutcome::Invalid(x),
            };
        }
        match text_line(i, p) {
            ParseOutcome::Parsed(l, q) => {
                let ghost before = lines@;
                let ghost lv = l@;
                lines.push(l);
                assert(lines_view(lines@) =~= lines_view(before).push(lv));
                p = q;
            },
            ParseOutcome::Incomplete(h) => {
                return ParseOutcome::Incomplete(h);
            },
            ParseOutcome::Invalid(x) => {
                return ParseOutcome::Invalid(x);
            },
        }
    }
}

/// Parses one reply from the front of `i`. A reply is only ever found
/// behind three ASCII digits, which are its code; a byte among the first
/// three that is not a digit makes the input invalid.
pub fn reply(i: &[u8]) -> (r: ParseOutcome<Reply>)
    ensures
        r@ == reply_spec(i@),
        r matches ParseOutcome::Invalid(x) ==> x < i@.len(),
        r matches ParseOutcome::Parsed(_, e) ==> e <= i@.len(),
        r is Parsed ==> is_code(i@.take(3)) && r->Parsed_0@.code == i@.take(3),
        forall|j: int| 0 <= j < 3 && j < i@.len() && !is_digit(#[trigger] i@[j]) ==> r is Invalid,
{
    let r = reply_outcome(i);
    proof {
        if r is Parsed {
            lemma_reply_has_code(i@);
        }
        assert forall|j: int| 0 <= j < 3 && j < i@.len() && !is_digit(#[trigger] i@[j]) implies r is Invalid by {
            lemma_reply_code_digits(i@, j);
        }
    }
    r
}

/// Parses one reply from the front of `i`, by the grammar alone.
fn reply_outcome(i: &[u8]) -> (r: ParseOutcome<Reply>)
    ensures
        r@ == reply_spec(i@),
        r matches ParseOutcome::Invalid(x) ==> x < i@.len(),
        r matches ParseOutcome::Parsed(_, e) ==> e <= i@.len(),
{
    let code = match code(i) {
        ParseOutcome::Parsed(c, _) => c,
        ParseOutcome::Incomplete(h) => {
            return ParseOutcome::Incomplete(h);
        },
        ParseOutcome::Invalid(x) => {
            return ParseOutcome::Invalid(x);
        },
    };
    if i.len() <= 3 {
        return ParseOutcome::Incomplete(Needed::Size(1));
    }
    if i[3] == SP {
        match text_line(i, 4) {
            ParseOutcome::Parsed(l, e) => ParseOutcome::Parsed(
                Reply { code, text: Text::SingleLine { line: l } },
                e,
            ),
            ParseOutcome::Incomplete(h) => ParseOutcome::Incomplete(h),
            ParseOutcome::Invalid(x) => ParseOutcome::Invalid(x),
        }
    } else if i[3] == HYPHEN {
        match text_line(i, 4) {
            ParseOutcome::Parsed(first, q) => match closing_lines(i, &code, q, first) {
                ParseOutcome::Parsed(t, e) => ParseOutcome::Parsed(Reply { code, text: t }, e),
                ParseOutcome::Incomplete(h) => ParseOutcome::Incomplete(h),
                ParseOutcome::Invalid(x) => ParseOutcome::Invalid(x),
            },
            ParseOutcome::Incomplete(h) => ParseOutcome::Incomplete(h),
            ParseOutcome::Invalid(x) => ParseOutcome::Invalid(x),
        }
    } else {
        ParseOutcome::Invalid(3)
    }
}

} // verus!
