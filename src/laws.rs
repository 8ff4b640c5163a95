//! Properties of the codec: encoding and parsing are inverse, and a parser
//! fed a strict prefix of an encoded message asks for more without ever
//! rejecting it or asking for more bytes than the message still has.
use vstd::prelude::*;

use crate::bytes::{
    digits, in_class, integer_text, is_digit, lemma_digits, lemma_scan_end_at,
    lemma_line_end_at, lemma_line_end_bounds, crlf_at, scan_end, upper,
    Class, COMMA, CR, HYPHEN, LF, SP,
};
use crate::encoding::{
    argument_bytes, command_bytes, crlf_bytes, form_letter, host_port_bytes, joined_lines,
    mode_letter, reply_bytes, structure_letter, type_bytes,
};
use crate::framing::{next_need, rest_after, Demand};
use crate::grammar::{
    after_byte, allocate_spec, argument_spec, byte_size_spec, byte_spec, closing_spec, code_spec,
    command_name_spec, command_spec, crlf_spec, keyword_prefix, upper_all, decimal_integer_spec, form_code_spec,
    host_port_spec, lift, mode_code_spec, number_spec, numbers_spec, port_of, reply_spec,
    string_spec, structure_code_spec, text_line_spec, then_crlf, type_code_spec, Needed, Step,
};
use crate::model::{
    argument_wf, closes, command_wf, is_code, is_line, keyword, reply_wf, shape, ArgumentModel,
    CommandModel, FileStructureKind, ReplyModel, RepresentationTypeKind, Shape, TextModel,
    TransferModeKind, Verb,
};

verus! {

/// `step` asks for more input, and for at most `n` more bytes when it names
/// an amount.
pub open spec fn asks_at_most<V>(step: Step<V>, n: int) -> bool {
    match step {
        Step::More(Needed::Size(m)) => m <= n,
        Step::More(Needed::Unknown) => true,
        _ => false,
    }
}

/// Read on a prefix of length `k` of its input, `step` has found `v`
/// ending at `end` once the prefix reaches `end`, and asks for at most the
/// missing bytes before that.
pub open spec fn settles<V>(step: Step<V>, v: V, end: int, k: int) -> bool {
    if k >= end {
        step == Step::Done(v, end)
    } else {
        asks_at_most(step, end - k)
    }
}

/// Like `settles`, for an element that ends only where a byte of another
/// kind follows it.
pub open spec fn settles_ahead<V>(step: Step<V>, v: V, end: int, k: int) -> bool {
    if k > end {
        step == Step::Done(v, end)
    } else {
        step == Step::<V>::More(Needed::Unknown)
    }
}

proof fn lemma_byte(f: Seq<u8>, k: int, p: int, b: u8)
    requires
        0 <= p <= k <= f.len(),
        p < f.len(),
        f[p] == b,
    ensures
        settles(byte_spec(f.take(k), p, b), (), p + 1, k),
{
}

proof fn lemma_crlf(f: Seq<u8>, k: int, p: int)
    requires
        0 <= p <= k <= f.len(),
        p + 2 <= f.len(),
        f[p] == CR,
        f[p + 1] == LF,
    ensures
        settles(crlf_spec(f.take(k), p), (), p + 2, k),
{
}

/// The scan of a run of class bytes in a prefix.
proof fn lemma_scan_prefix(f: Seq<u8>, k: int, p: int, q: int, cls: Class)
    requires
        0 <= p <= q < f.len(),
        0 <= p <= k <= f.len(),
        forall|i: int| p <= i < q ==> in_class(#[trigger] f[i], cls),
        !in_class(f[q], cls),
    ensures
        k > q ==> scan_end(f.take(k), p, cls) == q,
        k <= q ==> scan_end(f.take(k), p, cls) == k,
{
    let s = f.take(k);
    if k > q {
        assert forall|i: int| p <= i < q implies in_class(#[trigger] s[i], cls) by {
            assert(s[i] == f[i]);
        }
        lemma_scan_end_at(s, p, q, cls);
    } else {
        assert forall|i: int| p <= i < k implies in_class(#[trigger] s[i], cls) by {
            assert(s[i] == f[i]);
        }
        lemma_scan_end_at(s, p, k, cls);
    }
}

proof fn lemma_string(f: Seq<u8>, k: int, p: int, cls: Class, b: Seq<u8>)
    requires
        0 <= p <= k <= f.len(),
        b.len() >= 1,
        p + b.len() < f.len(),
        f.subrange(p, p + b.len()) == b,
        forall|i: int| 0 <= i < b.len() ==> in_class(#[trigger] b[i], cls),
        !in_class(f[p + b.len()], cls),
    ensures
        settles_ahead(string_spec(f.take(k), p, cls), b, p + b.len(), k),
{
    let q = p + b.len();
    assert forall|i: int| p <= i < q implies in_class(#[trigger] f[i], cls) by {
        assert(f[i] == b[i - p]);
    }
    lemma_scan_prefix(f, k, p, q, cls);
    if k > q {
        assert(f.take(k).subrange(p, q) == b);
    }
}

proof fn lemma_number(f: Seq<u8>, k: int, p: int, n: u64, limit: u64)
    requires
        0 <= p <= k <= f.len(),
        n <= limit,
        p + digits(n as nat).len() < f.len(),
        f.subrange(p, p + digits(n as nat).len()) == digits(n as nat),
        !is_digit(f[p + digits(n as nat).len()]),
    ensures
        settles_ahead(number_spec(f.take(k), p, limit), n, p + digits(n as nat).len(), k),
{
    let b = digits(n as nat);
    lemma_digits(n as nat);
    let q = p + b.len();
    assert forall|i: int| p <= i < q implies in_class(#[trigger] f[i], Class::Digit) by {
        assert(f[i] == b[i - p]);
    }
    lemma_scan_prefix(f, k, p, q, Class::Digit);
    if k > q {
        assert(f.take(k).subrange(p, q) == b);
    }
}

proof fn lemma_byte_size(f: Seq<u8>, k: int, p: int, n: u8)
    requires
        0 <= p <= k <= f.len(),
        p + digits(n as nat).len() < f.len(),
        f.subrange(p, p + digits(n as nat).len()) == digits(n as nat),
        !is_digit(f[p + digits(n as nat).len()]),
    ensures
        settles_ahead(byte_size_spec(f.take(k), p), n, p + digits(n as nat).len(), k),
{
    lemma_number(f, k, p, n as u64, 255);
}

proof fn lemma_integer(f: Seq<u8>, k: int, p: int, a: i64)
    requires
        0 <= p <= k <= f.len(),
        p + integer_text(a).len() < f.len(),
        f.subrange(p, p + integer_text(a).len()) == integer_text(a),
        !is_digit(f[p + integer_text(a).len()]),
    ensures
        settles_ahead(decimal_integer_spec(f.take(k), p), a, p + integer_text(a).len(), k),
{
    let s = f.take(k);
    let t = integer_text(a);
    if a < 0 {
        let m = (-a) as nat;
        let d = digits(m);
        assert(f[p] == t[0]);
        assert(f.subrange(p + 1, p + 1 + d.len()) == d) by {
            assert forall|i: int| 0 <= i < d.len() implies f.subrange(p + 1, p + 1 + d.len())[i]
                == d[i] by {
                assert(f[p + 1 + i] == t[1 + i]);
            }
            assert(f.subrange(p + 1, p + 1 + d.len()) =~= d);
        }
        if k > p {
            assert(s[p] == HYPHEN);
            lemma_number(f, k, p + 1, m as u64, 0x8000_0000_0000_0000);
        } else {
            assert(scan_end(s, p, Class::Digit) == s.len());
        }
    } else {
        lemma_number(f, k, p, a as u64, 0x7fff_ffff_ffff_ffff);
    }
}

/// Like `settles`, for an element after which a line end follows: when the
/// prefix stops right at its end, the element may be found or may still ask
/// for at most `slack` bytes.
pub open spec fn settles_within<V>(step: Step<V>, v: V, end: int, k: int, slack: int) -> bool {
    if k > end {
        step == Step::Done(v, end)
    } else if k == end {
        step == Step::Done(v, end) || asks_at_most(step, slack)
    } else {
        asks_at_most(step, end - k + slack)
    }
}

/// The bytes `f[p..p + whole.len()]` are `whole`, so any window of `whole`
/// stands in `f` at the same offset.
proof fn lemma_window(f: Seq<u8>, p: int, whole: Seq<u8>, o: int, n: int)
    requires
        0 <= p,
        p + whole.len() <= f.len(),
        f.subrange(p, p + whole.len()) == whole,
        0 <= o,
        0 <= n,
        o + n <= whole.len(),
    ensures
        f.subrange(p + o, p + o + n) == whole.subrange(o, o + n),
{
    assert forall|i: int| 0 <= i < n implies #[trigger] f.subrange(p + o, p + o + n)[i]
        == whole.subrange(o, o + n)[i] by {
        assert(f.subrange(p, p + whole.len())[o + i] == whole[o + i]);
    }
    assert(f.subrange(p + o, p + o + n) =~= whole.subrange(o, o + n));
}

proof fn lemma_at(f: Seq<u8>, p: int, whole: Seq<u8>, i: int)
    requires
        0 <= p,
        p + whole.len() <= f.len(),
        f.subrange(p, p + whole.len()) == whole,
        0 <= i < whole.len(),
    ensures
        f[p + i] == whole[i],
{
    assert(f.subrange(p, p + whole.len())[i] == whole[i]);
}

proof fn lemma_lift<A, B>(r: Step<A>, v: A, end: int, k: int, slack: int, g: spec_fn(A) -> B)
    requires
        settles_within(r, v, end, k, slack),
    ensures
        settles_within(lift(r, g), g(v), end, k, slack),
{
}

proof fn lemma_lift_settles<A, B>(r: Step<A>, v: A, end: int, k: int, g: spec_fn(A) -> B)
    requires
        settles(r, v, end, k),
    ensures
        settles(lift(r, g), g(v), end, k),
{
}

proof fn lemma_after_byte<V>(
    f: Seq<u8>,
    k: int,
    p: int,
    b: u8,
    r: Step<V>,
    v: V,
    end: int,
    slack: int,
)
    requires
        0 <= p <= k <= f.len(),
        p < f.len(),
        f[p] == b,
        end >= p + 1,
        slack >= 0,
        k >= p + 1 ==> settles_within(r, v, end, k, slack),
    ensures
        settles_within(after_byte(f.take(k), p, b, r), v, end, k, slack),
{
    lemma_byte(f, k, p, b);
}

proof fn lemma_then_crlf<V>(f: Seq<u8>, k: int, r: Step<V>, v: V, q: int)
    requires
        0 <= q,
        0 <= k <= f.len(),
        q + 2 <= f.len(),
        f[q] == CR,
        f[q + 1] == LF,
        settles_within(r, v, q, k, 2),
    ensures
        settles(then_crlf(f.take(k), r), v, q + 2, k),
{
    if k >= q {
        lemma_crlf(f, k, q);
    }
}

/// Byte values, each in decimal, comma separated.
#[verifier::opaque]
pub open spec fn numbers_bytes(vals: Seq<u8>) -> Seq<u8>
    decreases vals.len(),
{
    if vals.len() <= 1 {
        digits(vals[0] as nat)
    } else {
        digits(vals[0] as nat) + seq![COMMA] + numbers_bytes(vals.subrange(1, vals.len() as int))
    }
}

proof fn lemma_numbers(f: Seq<u8>, k: int, p: int, vals: Seq<u8>, acc: Seq<u8>)
    requires
        0 <= p <= k <= f.len(),
        vals.len() >= 1,
        p + numbers_bytes(vals).len() < f.len(),
        f.subrange(p, p + numbers_bytes(vals).len()) == numbers_bytes(vals),
        !is_digit(f[p + numbers_bytes(vals).len()]),
    ensures
        settles_ahead(
            numbers_spec(f.take(k), p, vals.len(), acc),
            acc + vals,
            p + numbers_bytes(vals).len(),
            k,
        ),
    decreases vals.len(),
{
    reveal(numbers_bytes);
    let nb = numbers_bytes(vals);
    let d = digits(vals[0] as nat);
    let q = p + d.len();
    lemma_digits(vals[0] as nat);
    if vals.len() == 1 {
        lemma_byte_size(f, k, p, vals[0]);
        assert(acc.push(vals[0]) == acc + vals);
    } else {
        let rest = vals.subrange(1, vals.len() as int);
        lemma_window(f, p, nb, 0, d.len() as int);
        assert(nb.subrange(0, d.len() as int) == d);
        lemma_at(f, p, nb, d.len() as int);
        lemma_byte_size(f, k, p, vals[0]);
        if k > q {
            lemma_byte(f, k, q, COMMA);
            let dl = d.len() as int;
            let rl = numbers_bytes(rest).len() as int;
            lemma_window(f, p, nb, dl + 1, rl);
            assert(nb.subrange(dl + 1, dl + 1 + rl) == numbers_bytes(rest));
            lemma_numbers(f, k, q + 1, rest, acc.push(vals[0]));
            assert(acc.push(vals[0]) + rest == acc + vals);
        }
    }
}

proof fn lemma_numbers_step(vals: Seq<u8>)
    requires
        vals.len() >= 2,
    ensures
        numbers_bytes(vals) == digits(vals[0] as nat) + seq![COMMA] + numbers_bytes(
            vals.subrange(1, vals.len() as int),
        ),
{
    reveal(numbers_bytes);
}

/// The host-port text is the six byte values, comma separated.
#[verifier::rlimit(40)]
proof fn lemma_host_port_bytes(o: Seq<u8>, port: u16)
    requires
        o.len() == 4,
    ensures
        numbers_bytes(seq![o[0], o[1], o[2], o[3], (port / 256) as u8, (port % 256) as u8])
            == host_port_bytes(o, port),
{
    let vals = seq![o[0], o[1], o[2], o[3], (port / 256) as u8, (port % 256) as u8];
    let c = seq![COMMA];
    let d0 = digits(o[0] as nat);
    let d1 = digits(o[1] as nat);
    let d2 = digits(o[2] as nat);
    let d3 = digits(o[3] as nat);
    let d4 = digits((port / 256) as nat);
    let d5 = digits((port % 256) as nat);
    let v5 = vals.subrange(5, 6);
    let v4 = vals.subrange(4, 6);
    let v3 = vals.subrange(3, 6);
    let v2 = vals.subrange(2, 6);
    let v1 = vals.subrange(1, 6);
    assert(v5[0] == (port % 256) as u8);
    assert(numbers_bytes(v5) == d5) by {
        reveal(numbers_bytes);
    }
    lemma_numbers_step(v4);
    assert(v4.subrange(1, 2) =~= v5);
    assert(v4[0] == (port / 256) as u8);
    lemma_numbers_step(v3);
    assert(v3.subrange(1, 3) =~= v4);
    lemma_numbers_step(v2);
    assert(v2.subrange(1, 4) =~= v3);
    lemma_numbers_step(v1);
    assert(v1.subrange(1, 5) =~= v2);
    lemma_numbers_step(vals);
    assert(vals.subrange(1, 6) =~= v1);
    assert(numbers_bytes(vals) == d0 + c + (d1 + c + (d2 + c + (d3 + c + (d4 + c + d5)))));
    assert(d0 + c + (d1 + c + (d2 + c + (d3 + c + (d4 + c + d5)))) =~= d0 + c + d1 + c + d2 + c
        + d3 + c + d4 + c + d5);
}

proof fn lemma_host_port(f: Seq<u8>, k: int, p: int, o: Seq<u8>, port: u16)
    requires
        0 <= p <= k <= f.len(),
        o.len() == 4,
        p + host_port_bytes(o, port).len() < f.len(),
        f.subrange(p, p + host_port_bytes(o, port).len()) == host_port_bytes(o, port),
        !is_digit(f[p + host_port_bytes(o, port).len()]),
    ensures
        settles_ahead(host_port_spec(f.take(k), p), (o, port), p + host_port_bytes(o, port).len(), k),
{
    let vals = seq![o[0], o[1], o[2], o[3], (port / 256) as u8, (port % 256) as u8];
    lemma_host_port_bytes(o, port);
    lemma_numbers(f, k, p, vals, seq![]);
    assert(seq![] + vals == vals);
    assert(vals.take(4) =~= o);
    assert(port_of(vals[4], vals[5]) == port);
}

proof fn lemma_type_code(f: Seq<u8>, k: int, p: int, t: RepresentationTypeKind)
    requires
        0 <= p <= k <= f.len(),
        p + type_bytes(t).len() + 2 <= f.len(),
        f.subrange(p, p + type_bytes(t).len() + 2) == type_bytes(t) + crlf_bytes(),
    ensures
        settles_within(type_code_spec(f.take(k), p), t, p + type_bytes(t).len(), k, 2),
{
    let s = f.take(k);
    let w = type_bytes(t) + crlf_bytes();
    let n = type_bytes(t).len() as int;
    lemma_at(f, p, w, 0);
    lemma_at(f, p, w, 1);
    match t {
        RepresentationTypeKind::Ascii(Some(fc)) | RepresentationTypeKind::Ebcdic(Some(fc)) => {
            lemma_at(f, p, w, 2);
            if k > p + 2 {
                assert(upper(form_letter(fc)) == form_letter(fc));
                assert(form_code_spec(s, p + 2) == Step::Done(fc, p + 3));
            }
        },
        RepresentationTypeKind::LocalByte(b) => {
            lemma_digits(b as nat);
            let d = digits(b as nat);
            let dl = d.len() as int;
            lemma_window(f, p, w, 2, dl);
            assert(w.subrange(2, 2 + dl) =~= d);
            lemma_at(f, p, w, 2 + dl);
            if k >= p + 2 {
                lemma_byte_size(f, k, p + 2, b);
            }
            if k >= p + 1 {
                lemma_after_byte(
                    f,
                    k,
                    p + 1,
                    SP,
                    lift(byte_size_spec(s, p + 2), |n: u8| RepresentationTypeKind::LocalByte(n)),
                    t,
                    p + n,
                    2,
                );
            }
        },
        _ => {},
    }
}

proof fn lemma_structure_code(f: Seq<u8>, k: int, p: int, t: FileStructureKind)
    requires
        0 <= p <= k <= f.len(),
        p < f.len(),
        f[p] == structure_letter(t),
    ensures
        settles(structure_code_spec(f.take(k), p), t, p + 1, k),
{
}

proof fn lemma_mode_code(f: Seq<u8>, k: int, p: int, t: TransferModeKind)
    requires
        0 <= p <= k <= f.len(),
        p < f.len(),
        f[p] == mode_letter(t),
    ensures
        settles(mode_code_spec(f.take(k), p), t, p + 1, k),
{
}

proof fn lemma_allocate(f: Seq<u8>, k: int, p: int, a: ArgumentModel)
    requires
        a is Allocate,
        0 <= p <= k <= f.len(),
        p + argument_bytes(a).len() + 1 <= f.len(),
        f.subrange(p - 1, p + argument_bytes(a).len() - 1 + 2) == argument_bytes(a) + crlf_bytes(),
        p >= 1,
    ensures
        settles_within(allocate_spec(f.take(k), p), a, p + argument_bytes(a).len() - 1, k, 2),
{
    let s = f.take(k);
    let w = argument_bytes(a) + crlf_bytes();
    match a {
        ArgumentModel::Allocate(x, None) => {
            let t = integer_text(x);
            let tl = t.len() as int;
            lemma_window(f, p - 1, w, 1, tl);
            assert(w.subrange(1, 1 + tl) =~= t);
            lemma_at(f, p - 1, w, 1 + tl);
            lemma_integer(f, k, p, x);
        },
        ArgumentModel::Allocate(x, Some(y)) => {
            let t = integer_text(x);
            let u = integer_text(y);
            let tl = t.len() as int;
            let ul = u.len() as int;
            let q = p + tl;
            lemma_window(f, p - 1, w, 1, tl);
            assert(w.subrange(1, 1 + tl) =~= t);
            lemma_at(f, p - 1, w, 1 + tl);
            lemma_at(f, p - 1, w, 2 + tl);
            lemma_at(f, p - 1, w, 3 + tl);
            lemma_window(f, p - 1, w, 4 + tl, ul);
            assert(w.subrange(4 + tl, 4 + tl + ul) =~= u);
            lemma_at(f, p - 1, w, 4 + tl + ul);
            lemma_integer(f, k, p, x);
            if k > q + 1 {
                assert(s[q + 1] == 0x52u8);
                if k >= q + 3 {
                    lemma_integer(f, k, q + 3, y);
                }
                lemma_after_byte(
                    f,
                    k,
                    q + 2,
                    SP,
                    lift(
                        decimal_integer_spec(s, q + 3),
                        |b: i64| ArgumentModel::Allocate(x, Some(b)),
                    ),
                    a,
                    q + 3 + ul,
                    2,
                );
            }
        },
        _ => {},
    }
}

#[verifier::spinoff_prover]
#[verifier::rlimit(60)]
proof fn lemma_argument(f: Seq<u8>, k: int, p: int, sh: Shape, a: ArgumentModel)
    requires
        argument_wf(sh, a),
        0 <= p <= k <= f.len(),
        p + argument_bytes(a).len() + 2 <= f.len(),
        f.subrange(p, p + argument_bytes(a).len() + 2) == argument_bytes(a) + crlf_bytes(),
    ensures
        settles(argument_spec(sh, f.take(k), p), a, p + argument_bytes(a).len() + 2, k),
{
    let s = f.take(k);
    let ab = argument_bytes(a);
    let w = ab + crlf_bytes();
    let n = ab.len() as int;
    let q = p + n;
    lemma_at(f, p, w, n);
    lemma_at(f, p, w, n + 1);
    if n > 0 {
        lemma_at(f, p, w, 0);
    }
    match a {
        ArgumentModel::Nothing => {
            lemma_then_crlf(f, k, Step::Done(ArgumentModel::Nothing, p), a, q);
        },
        ArgumentModel::Bytes(b) => {
            let cls = if sh == Shape::Text {
                Class::Line
            } else {
                Class::Printable
            };
            let bl = b.len() as int;
            lemma_window(f, p, w, 1, bl);
            assert(w.subrange(1, 1 + bl) =~= b);
            if k >= p + 1 {
                lemma_string(f, k, p + 1, cls, b);
            }
            let inner = lift(string_spec(s, p + 1, cls), |b: Seq<u8>| ArgumentModel::Bytes(b));
            lemma_after_byte(f, k, p, SP, inner, a, q, 2);
            lemma_then_crlf(f, k, after_byte(s, p, SP, inner), a, q);
        },
        ArgumentModel::MaybeBytes(None) => {
            lemma_then_crlf(f, k, Step::Done(ArgumentModel::MaybeBytes(None), p), a, q);
        },
        ArgumentModel::MaybeBytes(Some(b)) => {
            let bl = b.len() as int;
            lemma_window(f, p, w, 1, bl);
            assert(w.subrange(1, 1 + bl) =~= b);
            if k >= p + 1 {
                lemma_string(f, k, p + 1, Class::Line, b);
                let inner = lift(
                    string_spec(s, p + 1, Class::Line),
                    |b: Seq<u8>| ArgumentModel::MaybeBytes(Some(b)),
                );
                lemma_then_crlf(f, k, inner, a, q);
            }
        },
        ArgumentModel::HostPort(o, port) => {
            let hl = host_port_bytes(o, port).len() as int;
            lemma_window(f, p, w, 1, hl);
            assert(w.subrange(1, 1 + hl) =~= host_port_bytes(o, port));
            if k >= p + 1 {
                lemma_host_port(f, k, p + 1, o, port);
            }
            let inner = lift(
                host_port_spec(s, p + 1),
                |hp: (Seq<u8>, u16)| ArgumentModel::HostPort(hp.0, hp.1),
            );
            lemma_after_byte(f, k, p, SP, inner, a, q, 2);
            lemma_then_crlf(f, k, after_byte(s, p, SP, inner), a, q);
        },
        ArgumentModel::Type(t) => {
            let tl = type_bytes(t).len() as int;
            lemma_window(f, p, w, 1, tl + 2);
            assert(w.subrange(1, 1 + tl + 2) =~= type_bytes(t) + crlf_bytes());
            if k >= p + 1 {
                lemma_type_code(f, k, p + 1, t);
            }
            let inner = lift(
                type_code_spec(s, p + 1),
                |k: RepresentationTypeKind| ArgumentModel::Type(k),
            );
            lemma_after_byte(f, k, p, SP, inner, a, q, 2);
            lemma_then_crlf(f, k, after_byte(s, p, SP, inner), a, q);
        },
        ArgumentModel::Structure(t) => {
            lemma_at(f, p, w, 1);
            if k >= p + 1 {
                lemma_structure_code(f, k, p + 1, t);
            }
            let inner = lift(
                structure_code_spec(s, p + 1),
                |k: FileStructureKind| ArgumentModel::Structure(k),
            );
            lemma_after_byte(f, k, p, SP, inner, a, q, 2);
            lemma_then_crlf(f, k, after_byte(s, p, SP, inner), a, q);
        },
        ArgumentModel::Mode(t) => {
            lemma_at(f, p, w, 1);
            if k >= p + 1 {
                lemma_mode_code(f, k, p + 1, t);
            }
            let inner = lift(
                mode_code_spec(s, p + 1),
                |k: TransferModeKind| ArgumentModel::Mode(k),
            );
            lemma_after_byte(f, k, p, SP, inner, a, q, 2);
            lemma_then_crlf(f, k, after_byte(s, p, SP, inner), a, q);
        },
        ArgumentModel::Allocate(_, _) => {
            if k >= p + 1 {
                lemma_allocate(f, k, p + 1, a);
            }
            let inner = allocate_spec(s, p + 1);
            lemma_after_byte(f, k, p, SP, inner, a, q, 2);
            lemma_then_crlf(f, k, after_byte(s, p, SP, inner), a, q);
        },
    }
}

/// Keywords are spelled in upper-case letters.
proof fn lemma_keyword_letters(v: Verb)
    ensures
        forall|i: int| 0 <= i < keyword(v).len() ==> upper(#[trigger] keyword(v)[i]) == keyword(v)[i],
{
    match v {
        Verb::User => {},
        Verb::Pass => {},
        Verb::Acct => {},
        Verb::Cwd => {},
        Verb::Cdup => {},
        Verb::Smnt => {},
        Verb::Rein => {},
        Verb::Quit => {},
        Verb::Port => {},
        Verb::Pasv => {},
        Verb::Type => {},
        Verb::Stru => {},
        Verb::Mode => {},
        Verb::Retr => {},
        Verb::Stor => {},
        Verb::Stou => {},
        Verb::Appe => {},
        Verb::Allo => {},
        Verb::Rest => {},
        Verb::Rnfr => {},
        Verb::Rnto => {},
        Verb::Abor => {},
        Verb::Dele => {},
        Verb::Rmd => {},
        Verb::Mkd => {},
        Verb::Pwd => {},
        Verb::List => {},
        Verb::Nlst => {},
        Verb::Site => {},
        Verb::Syst => {},
        Verb::Stat => {},
        Verb::Help => {},
        Verb::Noop => {},
    }
}

proof fn lemma_command_name(f: Seq<u8>, k: int, v: Verb)
    requires
        0 <= k <= f.len(),
        keyword(v).len() <= f.len(),
        f.subrange(0, keyword(v).len() as int) == keyword(v),
    ensures
        settles(command_name_spec(f.take(k)), v, keyword(v).len() as int, k),
{
    let kw = keyword(v);
    let s = f.take(k);
    lemma_at(f, 0, kw, 0);
    lemma_at(f, 0, kw, 1);
    lemma_at(f, 0, kw, 2);
    if kw.len() == 4 {
        lemma_at(f, 0, kw, 3);
    }
    if k < kw.len() {
        reveal(keyword_prefix);
        lemma_keyword_letters(v);
        assert(kw.take(k) =~= upper_all(s));
        assert(k <= keyword(v).len() && keyword(v).take(upper_all(s).len() as int) == upper_all(s));
    }
    match v {
        Verb::User => {},
        Verb::Pass => {},
        Verb::Acct => {},
        Verb::Cwd => {},
        Verb::Cdup => {},
        Verb::Smnt => {},
        Verb::Rein => {},
        Verb::Quit => {},
        Verb::Port => {},
        Verb::Pasv => {},
        Verb::Type => {},
        Verb::Stru => {},
        Verb::Mode => {},
        Verb::Retr => {},
        Verb::Stor => {},
        Verb::Stou => {},
        Verb::Appe => {},
        Verb::Allo => {},
        Verb::Rest => {},
        Verb::Rnfr => {},
        Verb::Rnto => {},
        Verb::Abor => {},
        Verb::Dele => {},
        Verb::Rmd => {},
        Verb::Mkd => {},
        Verb::Pwd => {},
        Verb::List => {},
        Verb::Nlst => {},
        Verb::Site => {},
        Verb::Syst => {},
        Verb::Stat => {},
        Verb::Help => {},
        Verb::Noop => {},
    }
}

proof fn lemma_command(f: Seq<u8>, k: int, c: CommandModel)
    requires
        command_wf(c),
        0 <= k <= f.len(),
        command_bytes(c).len() <= f.len(),
        f.subrange(0, command_bytes(c).len() as int) == command_bytes(c),
    ensures
        settles(command_spec(f.take(k)), c, command_bytes(c).len() as int, k),
{
    let e = command_bytes(c);
    let kw = keyword(c.verb);
    let l = kw.len() as int;
    let rest = argument_bytes(c.arg) + crlf_bytes();
    lemma_window(f, 0, e, 0, l);
    assert(e.subrange(0, l) =~= kw);
    assert(f.subrange(0, l) == kw);
    lemma_command_name(f, k, c.verb);
    if k >= l {
        lemma_window(f, 0, e, l, rest.len() as int);
        assert(e.subrange(l, l + rest.len()) =~= rest);
        lemma_argument(f, k, l, shape(c.verb), c.arg);
        lemma_lift_settles(
            argument_spec(shape(c.verb), f.take(k), l),
            c.arg,
            e.len() as int,
            k,
            |a: ArgumentModel| CommandModel { verb: c.verb, arg: a },
        );
    }
}

/// Parsing the wire form of a well-formed command, whatever bytes follow
/// it, gives back the command and stops exactly where its wire form ends.
pub proof fn lemma_command_round_trip(c: CommandModel, rest: Seq<u8>)
    requires
        command_wf(c),
    ensures
        command_spec(command_bytes(c) + rest) == Step::Done(c, command_bytes(c).len() as int),
{
    let f = command_bytes(c) + rest;
    assert(f.subrange(0, command_bytes(c).len() as int) =~= command_bytes(c));
    lemma_command(f, f.len() as int, c);
    assert(f.take(f.len() as int) =~= f);
}

/// A strict prefix of the wire form of a well-formed command is never
/// rejected: the parser asks for more input, and when it names an amount,
/// that amount fits in what is left of the command.
pub proof fn lemma_command_prefix(c: CommandModel, k: int)
    requires
        command_wf(c),
        0 <= k < command_bytes(c).len(),
    ensures
        asks_at_most(command_spec(command_bytes(c).take(k)), command_bytes(c).len() - k),
{
    let f = command_bytes(c);
    assert(f.subrange(0, f.len() as int) =~= f);
    lemma_command(f, k, c);
}

proof fn lemma_text_line(f: Seq<u8>, k: int, p: int, l: Seq<u8>)
    requires
        is_line(l),
        0 <= p <= k <= f.len(),
        p + l.len() + 2 <= f.len(),
        f.subrange(p, p + l.len() + 2) == l + crlf_bytes(),
    ensures
        settles(text_line_spec(f.take(k), p), l, p + l.len() + 2, k),
{
    let s = f.take(k);
    let w = l + crlf_bytes();
    let q = p + l.len();
    lemma_at(f, p, w, l.len() as int);
    lemma_at(f, p, w, l.len() as int + 1);
    let q2 = if k < q {
        k
    } else {
        q
    };
    assert forall|i: int| p <= i < q2 implies !#[trigger] crlf_at(s, i) by {
        lemma_at(f, p, w, i - p);
        if i + 1 < q {
            lemma_at(f, p, w, i + 1 - p);
            assert(!crlf_at(l, i - p));
        }
    }
    lemma_line_end_at(s, p, q2);
    if k >= q + 2 {
        lemma_window(f, p, w, 0, l.len() as int);
        assert(w.subrange(0, l.len() as int) =~= l);
        assert(s.subrange(p, q) =~= f.subrange(p, q));
    }
}

proof fn lemma_code(f: Seq<u8>, k: int, code: Seq<u8>)
    requires
        is_code(code),
        0 <= k <= f.len(),
        3 <= f.len(),
        f.subrange(0, 3) == code,
    ensures
        settles(code_spec(f.take(k)), code, 3, k),
{
    lemma_at(f, 0, code, 0);
    lemma_at(f, 0, code, 1);
    lemma_at(f, 0, code, 2);
    if k >= 3 {
        assert(f.take(k).take(3) =~= code);
    }
}

/// The joined lines start with the first line.
proof fn lemma_joined_cons(lines: Seq<Seq<u8>>)
    requires
        lines.len() >= 1,
    ensures
        joined_lines(lines) == lines[0] + crlf_bytes() + joined_lines(
            lines.subrange(1, lines.len() as int),
        ),
    decreases lines.len(),
{
    let tail = lines.subrange(1, lines.len() as int);
    if lines.len() == 1 {
        assert(lines.drop_last() =~= Seq::<Seq<u8>>::empty());
        assert(tail =~= Seq::<Seq<u8>>::empty());
        assert(joined_lines(lines) =~= lines[0] + crlf_bytes() + joined_lines(tail));
    } else {
        let front = lines.drop_last();
        lemma_joined_cons(front);
        assert(front.subrange(1, front.len() as int) =~= tail.drop_last());
        assert(tail.last() == lines.last());
        assert(joined_lines(lines) =~= lines[0] + crlf_bytes() + joined_lines(tail));
    }
}

/// The closing part of a multi-line reply's wire form.
pub open spec fn closing_bytes(code: Seq<u8>, rest: Seq<Seq<u8>>, last: Seq<u8>) -> Seq<u8> {
    joined_lines(rest) + code + seq![SP] + last + crlf_bytes()
}

/// No byte of a code followed by a space is a line end.
proof fn lemma_window_not_closing(f: Seq<u8>, pos: int, code: Seq<u8>, l: Seq<u8>)
    requires
        is_code(code),
        !closes(code, l),
        0 <= pos,
        pos + l.len() + 2 <= f.len(),
        pos + 4 <= f.len(),
        f.subrange(pos, pos + l.len() + 2) == l + crlf_bytes(),
    ensures
        f.subrange(pos, pos + 4) != code.push(SP),
{
    let w = l + crlf_bytes();
    if f.subrange(pos, pos + 4) == code.push(SP) {
        if l.len() >= 4 {
            assert forall|i: int| 0 <= i < 4 implies l.take(4)[i] == code.push(SP)[i] by {
                lemma_at(f, pos, w, i);
                assert(f.subrange(pos, pos + 4)[i] == f[pos + i]);
            }
            assert(l.take(4) =~= code.push(SP));
        } else {
            let j = l.len() as int;
            lemma_at(f, pos, w, j);
            assert(f.subrange(pos, pos + 4)[j] == f[pos + j]);
            assert(code.push(SP)[j] == CR);
        }
    }
}

proof fn lemma_closing(
    f: Seq<u8>,
    k: int,
    code: Seq<u8>,
    pos: int,
    acc: Seq<Seq<u8>>,
    rest: Seq<Seq<u8>>,
    last: Seq<u8>,
)
    requires
        is_code(code),
        forall|i: int| 0 <= i < rest.len() ==> is_line(#[trigger] rest[i]),
        forall|i: int| 0 <= i < rest.len() ==> !closes(code, #[trigger] rest[i]),
        is_line(last),
        0 <= pos <= k <= f.len(),
        pos + closing_bytes(code, rest, last).len() <= f.len(),
        f.subrange(pos, pos + closing_bytes(code, rest, last).len()) == closing_bytes(code, rest, last),
    ensures
        settles(
            closing_spec(f.take(k), code, pos, acc),
            TextModel::MultiLine(acc + rest, last),
            pos + closing_bytes(code, rest, last).len(),
            k,
        ),
    decreases rest.len(),
{
    let s = f.take(k);
    let tail = closing_bytes(code, rest, last);
    if pos + 4 > k {
    } else {
        assert(s.subrange(pos, pos + 4) =~= f.subrange(pos, pos + 4));
        if rest.len() == 0 {
            assert(tail =~= code.push(SP) + (last + crlf_bytes()));
            lemma_window(f, pos, tail, 0, 4);
            assert(tail.subrange(0, 4) =~= code.push(SP));
            let ll = last.len() as int;
            lemma_window(f, pos, tail, 4, ll + 2);
            assert(tail.subrange(4, 4 + ll + 2) =~= last + crlf_bytes());
            lemma_text_line(f, k, pos + 4, last);
            assert(acc + rest =~= acc);
            lemma_lift_settles(
                text_line_spec(s, pos + 4),
                last,
                pos + tail.len(),
                k,
                |l: Seq<u8>| TextModel::MultiLine(acc, l),
            );
        } else {
            let r0 = rest[0];
            let more = rest.subrange(1, rest.len() as int);
            let tail2 = closing_bytes(code, more, last);
            lemma_joined_cons(rest);
            assert(tail =~= (r0 + crlf_bytes()) + tail2);
            let n0 = r0.len() as int + 2;
            lemma_window(f, pos, tail, 0, n0);
            assert(tail.subrange(0, n0) =~= r0 + crlf_bytes());
            lemma_window_not_closing(f, pos, code, r0);
            lemma_text_line(f, k, pos, r0);
            if k >= pos + n0 {
                lemma_window(f, pos, tail, n0, tail2.len() as int);
                assert(tail.subrange(n0, n0 + tail2.len()) =~= tail2);
                lemma_closing(f, k, code, pos + n0, acc.push(r0), more, last);
                assert(acc.push(r0) + more =~= acc + rest);
            }
        }
    }
}

proof fn lemma_reply_single(f: Seq<u8>, k: int, r: ReplyModel, l: Seq<u8>)
    requires
        reply_wf(r),
        r.text == TextModel::SingleLine(l),
        4 <= k <= f.len(),
        reply_bytes(r).len() <= f.len(),
        f.subrange(0, reply_bytes(r).len() as int) == reply_bytes(r),
        f.take(k).take(3) == r.code,
    ensures
        settles(
            lift(
                text_line_spec(f.take(k), 4),
                |l: Seq<u8>| ReplyModel { code: f.take(k).take(3), text: TextModel::SingleLine(l) },
            ),
            r,
            reply_bytes(r).len() as int,
            k,
        ),
{
    let e = reply_bytes(r);
    let ll = l.len() as int;
    lemma_window(f, 0, e, 4, ll + 2);
    assert(e.subrange(4, 4 + ll + 2) =~= l + crlf_bytes());
    lemma_text_line(f, k, 4, l);
}

#[verifier::rlimit(30)]
proof fn lemma_reply_multi(f: Seq<u8>, k: int, r: ReplyModel, lines: Seq<Seq<u8>>, last: Seq<u8>)
    requires
        reply_wf(r),
        r.text == TextModel::MultiLine(lines, last),
        4 <= k <= f.len(),
        reply_bytes(r).len() <= f.len(),
        f.subrange(0, reply_bytes(r).len() as int) == reply_bytes(r),
        f.take(k).take(3) == r.code,
    ensures
        settles(
            match text_line_spec(f.take(k), 4) {
                Step::Done(first, q) => lift(
                    closing_spec(f.take(k), r.code, q, seq![first]),
                    |t: TextModel| ReplyModel { code: r.code, text: t },
                ),
                Step::More(h) => Step::More(h),
                Step::Fail(x) => Step::Fail(x),
            },
            r,
            reply_bytes(r).len() as int,
            k,
        ),
{
    let e = reply_bytes(r);
    let s = f.take(k);
    let l0 = lines[0];
    let more = lines.subrange(1, lines.len() as int);
    let tail = closing_bytes(r.code, more, last);
    lemma_joined_cons(lines);
    assert(e =~= r.code + seq![HYPHEN] + (l0 + crlf_bytes()) + tail);
    let n0 = l0.len() as int + 2;
    lemma_window(f, 0, e, 4, n0);
    assert(e.subrange(4, 4 + n0) =~= l0 + crlf_bytes());
    lemma_text_line(f, k, 4, l0);
    if k >= 4 + n0 {
        lemma_window(f, 0, e, 4 + n0, tail.len() as int);
        assert(e.subrange(4 + n0, 4 + n0 + tail.len()) =~= tail);
        assert forall|i: int| 0 <= i < more.len() implies is_line(#[trigger] more[i]) && !closes(
            r.code,
            more[i],
        ) by {
            assert(more[i] == lines[i + 1]);
        }
        lemma_closing(f, k, r.code, 4 + n0, seq![l0], more, last);
        assert(seq![l0] + more =~= lines);
        lemma_lift_settles(
            closing_spec(s, r.code, 4 + n0, seq![l0]),
            TextModel::MultiLine(lines, last),
            e.len() as int,
            k,
            |t: TextModel| ReplyModel { code: r.code, text: t },
        );
    }
}

proof fn lemma_reply(f: Seq<u8>, k: int, r: ReplyModel)
    requires
        reply_wf(r),
        0 <= k <= f.len(),
        reply_bytes(r).len() <= f.len(),
        f.subrange(0, reply_bytes(r).len() as int) == reply_bytes(r),
    ensures
        settles(reply_spec(f.take(k)), r, reply_bytes(r).len() as int, k),
{
    let e = reply_bytes(r);
    let s = f.take(k);
    lemma_window(f, 0, e, 0, 3);
    assert(e.subrange(0, 3) =~= r.code);
    lemma_code(f, k, r.code);
    lemma_at(f, 0, e, 3);
    if k >= 4 {
        assert(s.take(3) =~= r.code);
        match r.text {
            TextModel::SingleLine(l) => {
                lemma_reply_single(f, k, r, l);
            },
            TextModel::MultiLine(lines, last) => {
                lemma_reply_multi(f, k, r, lines, last);
            },
        }
    }
}

/// Parsing the wire form of a well-formed reply, whatever bytes follow it,
/// gives back the reply and stops exactly where its wire form ends.
pub proof fn lemma_reply_round_trip(r: ReplyModel, rest: Seq<u8>)
    requires
        reply_wf(r),
    ensures
        reply_spec(reply_bytes(r) + rest) == Step::Done(r, reply_bytes(r).len() as int),
{
    let f = reply_bytes(r) + rest;
    assert(f.subrange(0, reply_bytes(r).len() as int) =~= reply_bytes(r));
    lemma_reply(f, f.len() as int, r);
    assert(f.take(f.len() as int) =~= f);
}

/// A strict prefix of the wire form of a well-formed reply is never
/// rejected: the parser asks for more input, and when it names an amount,
/// that amount fits in what is left of the reply.
pub proof fn lemma_reply_prefix(r: ReplyModel, k: int)
    requires
        reply_wf(r),
        0 <= k < reply_bytes(r).len(),
    ensures
        asks_at_most(reply_spec(reply_bytes(r).take(k)), reply_bytes(r).len() - k),
{
    let f = reply_bytes(r);
    assert(f.subrange(0, f.len() as int) =~= f);
    lemma_reply(f, k, r);
}

/// Fed a well-formed command a piece at a time, a driver whose buffer can
/// hold the whole command never faults before the command is complete, and
/// a read of an exact size never reaches past the command's end.
pub proof fn lemma_command_feed(c: CommandModel, k: int, capacity: nat)
    requires
        command_wf(c),
        0 <= k < command_bytes(c).len(),
        command_bytes(c).len() <= capacity,
    ensures
        command_spec(command_bytes(c).take(k)) is More,
        next_need(command_spec(command_bytes(c).take(k)), k as nat, capacity) matches Ok(d) && (
        d matches Demand::Exactly(n) ==> k + n <= command_bytes(c).len()),
{
    lemma_command_prefix(c, k);
}

/// The same for replies.
pub proof fn lemma_reply_feed(r: ReplyModel, k: int, capacity: nat)
    requires
        reply_wf(r),
        0 <= k < reply_bytes(r).len(),
        reply_bytes(r).len() <= capacity,
    ensures
        reply_spec(reply_bytes(r).take(k)) is More,
        next_need(reply_spec(reply_bytes(r).take(k)), k as nat, capacity) matches Ok(d) && (
        d matches Demand::Exactly(n) ==> k + n <= reply_bytes(r).len()),
{
    lemma_reply_prefix(r, k);
}

/// When the buffer holds a whole command and then the start of what
/// follows, a poll decodes the command and keeps exactly what follows.
pub proof fn lemma_command_keeps_rest(c: CommandModel, rest: Seq<u8>)
    requires
        command_wf(c),
    ensures
        command_spec(command_bytes(c) + rest) == Step::Done(c, command_bytes(c).len() as int),
        rest_after(command_spec(command_bytes(c) + rest), command_bytes(c) + rest) == rest,
{
    lemma_command_round_trip(c, rest);
    let f = command_bytes(c) + rest;
    assert(f.subrange(command_bytes(c).len() as int, f.len() as int) =~= rest);
}

/// The same for replies.
pub proof fn lemma_reply_keeps_rest(r: ReplyModel, rest: Seq<u8>)
    requires
        reply_wf(r),
    ensures
        reply_spec(reply_bytes(r) + rest) == Step::Done(r, reply_bytes(r).len() as int),
        rest_after(reply_spec(reply_bytes(r) + rest), reply_bytes(r) + rest) == rest,
{
    lemma_reply_round_trip(r, rest);
    let f = reply_bytes(r) + rest;
    assert(f.subrange(reply_bytes(r).len() as int, f.len() as int) =~= rest);
}

/// Input with a byte that is not an ASCII digit among its first three is
/// rejected as a reply.
pub proof fn lemma_reply_code_digits(s: Seq<u8>, i: int)
    requires
        0 <= i < 3,
        i < s.len(),
        !is_digit(s[i]),
    ensures
        reply_spec(s) is Fail,
{
}

/// A reply is only ever found behind three ASCII digits, which become its
/// code.
pub proof fn lemma_reply_has_code(s: Seq<u8>)
    requires
        reply_spec(s) is Done,
    ensures
        s.len() >= 3,
        is_code(s.take(3)),
        reply_spec(s)->Done_0.code == s.take(3),
{
}

proof fn lemma_text_line_found(s: Seq<u8>, p: int)
    requires
        0 <= p <= s.len(),
        text_line_spec(s, p) is Done,
    ensures
        ({
            let e = text_line_spec(s, p)->Done_1;
            &&& p + 2 <= e <= s.len()
            &&& text_line_spec(s, p)->Done_0 == s.subrange(p, e - 2)
            &&& s[e - 2] == CR
            &&& s[e - 1] == LF
        }),
{
    lemma_line_end_bounds(s, p);
}

proof fn lemma_closing_marker(s: Seq<u8>, code: Seq<u8>, p: int, acc: Seq<Seq<u8>>)
    requires
        0 <= p <= s.len(),
        closing_spec(s, code, p, acc) is Done,
    ensures
        ({
            let n = closing_spec(s, code, p, acc)->Done_1;
            let t = closing_spec(s, code, p, acc)->Done_0;
            &&& t is MultiLine
            &&& n - t->MultiLine_1.len() - 6 >= p
            &&& n <= s.len()
            &&& s.subrange(n - t->MultiLine_1.len() - 6, n - t->MultiLine_1.len() - 2) == code.push(SP)
            &&& s.subrange(n - t->MultiLine_1.len() - 2, n - 2) == t->MultiLine_1
            &&& s[n - 2] == CR
            &&& s[n - 1] == LF
        }),
    decreases s.len() - p,
{
    if p + 4 > s.len() {
    } else if s.subrange(p, p + 4) == code.push(SP) {
        lemma_text_line_found(s, p + 4);
    } else {
        lemma_text_line_found(s, p);
        let q = text_line_spec(s, p)->Done_1;
        lemma_closing_marker(s, code, q, acc.push(text_line_spec(s, p)->Done_0));
    }
}

/// A multi-line reply ends only with a line that repeats its code followed
/// by a space: the last line of its text stands right after that marker, and
/// a line end follows it.
pub proof fn lemma_multi_line_ends_with_code(s: Seq<u8>)
    requires
        reply_spec(s) is Done,
        reply_spec(s)->Done_0.text is MultiLine,
    ensures
        ({
            let r = reply_spec(s)->Done_0;
            let n = reply_spec(s)->Done_1;
            let last = r.text->MultiLine_1;
            &&& n <= s.len()
            &&& n - last.len() - 6 >= 4
            &&& s.subrange(n - last.len() - 6, n - last.len() - 2) == r.code.push(SP)
            &&& s.subrange(n - last.len() - 2, n - 2) == last
            &&& s[n - 2] == CR
            &&& s[n - 1] == LF
        }),
{
    lemma_text_line_found(s, 4);
    let q = text_line_spec(s, 4)->Done_1;
    lemma_closing_marker(s, s.take(3), q, seq![text_line_spec(s, 4)->Done_0]);
}

} // verus!
