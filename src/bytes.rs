use vstd::prelude::*;

verus! {

/// Carriage return.
pub const CR: u8 = 0x0D;

/// Line feed.
pub const LF: u8 = 0x0A;

/// Space, the separator between a verb and its argument.
pub const SP: u8 = 0x20;

/// Comma, the separator inside a host-port argument.
pub const COMMA: u8 = 0x2C;

/// Hyphen, which opens a multi-line reply.
pub const HYPHEN: u8 = 0x2D;

/// The digit zero.
pub const ZERO: u8 = 0x30;

/// The byte classes that the grammar scans runs of.
#[derive(Clone, Copy, Debug, PartialEq, Eq, Structural)]
pub enum Class {
    /// Any byte but CR and LF.
    Line,
    /// Printable ASCII, codes 33 through 126.
    Printable,
    /// ASCII decimal digits.
    Digit,
}

pub open spec fn is_digit(c: u8) -> bool {
    0x30 <= c <= 0x39
}

pub open spec fn in_class(c: u8, cls: Class) -> bool {
    match cls {
        Class::Line => c != CR && c != LF,
        Class::Printable => 33 <= c <= 126,
        Class::Digit => is_digit(c),
    }
}

pub fn byte_in_class(c: u8, cls: Class) -> (r: bool)
    ensures
        r == in_class(c, cls),
{
    match cls {
        Class::Line => c != CR && c != LF,
        Class::Printable => 33 <= c && c <= 126,
        Class::Digit => 0x30 <= c && c <= 0x39,
    }
}

/// Upper-case form of an ASCII letter; other bytes are unchanged.
pub open spec fn upper(c: u8) -> u8 {
    if 0x61 <= c <= 0x7A {
        (c - 0x20) as u8
    } else {
        c
    }
}

pub fn to_upper(c: u8) -> (r: u8)
    ensures
        r == upper(c),
{
    if 0x61 <= c && c <= 0x7A {
        c - 0x20
    } else {
        c
    }
}

/// The first position at or after `p` whose byte is outside `cls`, or the
/// length of `s` when the run reaches the end.
pub open spec fn scan_end(s: Seq<u8>, p: int, cls: Class) -> int
    decreases s.len() - p,
{
    if p < 0 || p >= s.len() {
        s.len() as int
    } else if in_class(s[p], cls) {
        scan_end(s, p + 1, cls)
    } else {
        p
    }
}

pub proof fn lemma_scan_end_bounds(s: Seq<u8>, p: int, cls: Class)
    requires
        0 <= p <= s.len(),
    ensures
        p <= scan_end(s, p, cls) <= s.len(),
        forall|i: int| p <= i < scan_end(s, p, cls) ==> in_class(#[trigger] s[i], cls),
        scan_end(s, p, cls) < s.len() ==> !in_class(s[scan_end(s, p, cls)], cls),
    decreases s.len() - p,
{
    if p < s.len() && in_class(s[p], cls) {
        lemma_scan_end_bounds(s, p + 1, cls);
    }
}

/// A run of class bytes followed by a byte outside the class ends there.
pub proof fn lemma_scan_end_at(s: Seq<u8>, p: int, q: int, cls: Class)
    requires
        0 <= p <= q <= s.len(),
        forall|i: int| p <= i < q ==> in_class(#[trigger] s[i], cls),
        q < s.len() ==> !in_class(s[q], cls),
    ensures
        scan_end(s, p, cls) == q,
    decreases q - p,
{
    if p < q {
        lemma_scan_end_at(s, p + 1, q, cls);
    }
}

/// Finds where the run of `cls` bytes that starts at `p` ends.
pub fn find_run_end(s: &[u8], p: usize, cls: Class) -> (r: usize)
    requires
        p <= s@.len(),
    ensures
        r as int == scan_end(s@, p as int, cls),
        p <= r <= s@.len(),
        forall|i: int| p <= i < r ==> in_class(#[trigger] s@[i], cls),
        r < s@.len() ==> !in_class(s@[r as int], cls),
{
    proof {
        lemma_scan_end_bounds(s@, p as int, cls);
    }
    let mut i: usize = p;
    while i < s.len() && byte_in_class(s[i], cls)
        invariant
            p <= i <= s@.len(),
            scan_end(s@, p as int, cls) == scan_end(s@, i as int, cls),
        decreases s@.len() - i,
    {
        i += 1;
    }
    i
}

/// Whether a CR LF pair starts at `i`.
pub open spec fn crlf_at(s: Seq<u8>, i: int) -> bool {
    0 <= i && i + 1 < s.len() && s[i] == CR && s[i + 1] == LF
}

/// The first position at or after `p` where a CR LF pair starts, or the
/// length of `s` when there is none.
pub open spec fn line_end(s: Seq<u8>, p: int) -> int
    decreases s.len() - p,
{
    if p < 0 || p + 1 >= s.len() {
        s.len() as int
    } else if crlf_at(s, p) {
        p
    } else {
        line_end(s, p + 1)
    }
}

pub proof fn lemma_line_end_bounds(s: Seq<u8>, p: int)
    requires
        0 <= p <= s.len(),
    ensures
        p <= line_end(s, p) <= s.len(),
        line_end(s, p) < s.len() ==> crlf_at(s, line_end(s, p)),
        forall|i: int| p <= i < line_end(s, p) ==> !#[trigger] crlf_at(s, i),
    decreases s.len() - p,
{
    if p + 1 < s.len() && !crlf_at(s, p) {
        lemma_line_end_bounds(s, p + 1);
    }
}

/// Where the first CR LF pair after `p` is, when no pair comes before `q`.
pub proof fn lemma_line_end_at(s: Seq<u8>, p: int, q: int)
    requires
        0 <= p <= q <= s.len(),
        forall|i: int| p <= i < q ==> !#[trigger] crlf_at(s, i),
        q == s.len() || crlf_at(s, q) || q + 1 == s.len(),
    ensures
        line_end(s, p) == (if crlf_at(s, q) {
            q
        } else {
            s.len() as int
        }),
    decreases q - p,
{
    if p < q {
        assert(!crlf_at(s, p));
        lemma_line_end_at(s, p + 1, q);
    }
}

/// Finds the first CR LF pair at or after `p`.
pub fn find_line_end(s: &[u8], p: usize) -> (r: usize)
    requires
        p <= s@.len(),
    ensures
        r as int == line_end(s@, p as int),
        p <= r <= s@.len(),
        r < s@.len() ==> crlf_at(s@, r as int),
{
    proof {
        lemma_line_end_bounds(s@, p as int);
    }
    let mut i: usize = p;
    while i < s.len() && i + 1 < s.len() && !(s[i] == CR && s[i + 1] == LF)
        invariant
            p <= i <= s@.len(),
            line_end(s@, p as int) == line_end(s@, i as int),
        decreases s@.len() - i,
    {
        i += 1;
    }
    if i >= s.len() || i + 1 >= s.len() {
        s.len()
    } else {
        i
    }
}

/// Copies `s[a..b]` into a new vector.
pub fn copy_range(s: &[u8], a: usize, b: usize) -> (r: Vec<u8>)
    requires
        a <= b <= s@.len(),
    ensures
        r@ == s@.subrange(a as int, b as int),
{
    let mut r: Vec<u8> = Vec::new();
    let mut i: usize = a;
    while i < b
        invariant
            a <= i <= b <= s@.len(),
            r@ == s@.subrange(a as int, i as int),
        decreases b - i,
    {
        r.push(s[i]);
        assert(s@.subrange(a as int, i + 1) == s@.subrange(a as int, i as int).push(s@[i as int]));
        i += 1;
    }
    r
}

/// Appends all of `bytes` to `out`.
pub fn append_bytes(out: &mut Vec<u8>, bytes: &[u8])
    ensures
        final(out)@ == old(out)@ + bytes@,
{
    let mut i: usize = 0;
    while i < bytes.len()
        invariant
            i <= bytes@.len(),
            out@ == old(out)@ + bytes@.take(i as int),
        decreases bytes@.len() - i,
    {
        out.push(bytes[i]);
        assert(bytes@.take(i + 1) == bytes@.take(i as int).push(bytes@[i as int]));
        i += 1;
    }
    assert(bytes@.take(bytes@.len() as int) == bytes@);
}

/// The decimal digits of a natural number, without leading zeros.
pub open spec fn digits(n: nat) -> Seq<u8>
    decreases n,
{
    if n < 10 {
        seq![(ZERO + n) as u8]
    } else {
        digits(n / 10).push((ZERO + n % 10) as u8)
    }
}

/// The number that a string of decimal digits spells.
pub open spec fn digits_value(s: Seq<u8>) -> nat
    decreases s.len(),
{
    if s.len() == 0 {
        0
    } else {
        digits_value(s.drop_last()) * 10 + (s.last() - ZERO) as nat
    }
}

/// The decimal text of a signed integer: a minus sign for negative values.
pub open spec fn integer_text(n: i64) -> Seq<u8> {
    if n < 0 {
        seq![HYPHEN] + digits((-n) as nat)
    } else {
        digits(n as nat)
    }
}

pub proof fn lemma_digits(n: nat)
    ensures
        digits(n).len() >= 1,
        forall|i: int| 0 <= i < digits(n).len() ==> is_digit(#[trigger] digits(n)[i]),
        digits_value(digits(n)) == n,
    decreases n,
{
    if n >= 10 {
        lemma_digits(n / 10);
        assert(digits(n).drop_last() == digits(n / 10));
        assert((n / 10) * 10 + n % 10 == n) by (nonlinear_arith);
        assert(digits(n).last() == (ZERO + n % 10) as u8);
        assert(digits_value(digits(n)) == digits_value(digits(n / 10)) * 10 + (n % 10));
    } else {
        assert(digits(n).drop_last() =~= Seq::<u8>::empty());
        assert(digits(n).last() == (ZERO + n) as u8);
        assert(digits_value(digits(n)) == digits_value(Seq::<u8>::empty()) * 10 + n);
    }
}

/// A longer run of digits never spells a smaller number.
pub proof fn lemma_digits_value_grows(s: Seq<u8>, k: int)
    requires
        0 <= k <= s.len(),
        forall|i: int| 0 <= i < s.len() ==> is_digit(#[trigger] s[i]),
    ensures
        digits_value(s.take(k)) <= digits_value(s),
    decreases s.len() - k,
{
    if k < s.len() {
        lemma_digits_value_grows(s, k + 1);
        assert(s.take(k + 1).drop_last() == s.take(k));
        assert(s.take(k + 1).last() == s[k]);
    } else {
        assert(s.take(k) == s);
    }
}

/// Appends the decimal digits of `n`.
pub fn push_digits(out: &mut Vec<u8>, n: u64)
    ensures
        final(out)@ == old(out)@ + digits(n as nat),
    decreases n,
{
    if n >= 10 {
        push_digits(out, n / 10);
    }
    out.push(ZERO + (n % 10) as u8);
}

/// Appends the decimal text of a signed integer.
pub fn push_integer(out: &mut Vec<u8>, n: i64)
    ensures
        final(out)@ == old(out)@ + integer_text(n),
{
    if n < 0 {
        out.push(HYPHEN);
        let m: u64 = (-(n + 1)) as u64 + 1;
        push_digits(out, m);
        assert(out@ == old(out)@ + integer_text(n));
    } else {
        push_digits(out, n as u64);
    }
}

/// Reads the decimal number spelled by `s[a..b]`, if it is at most `limit`.
pub fn digits_number(s: &[u8], a: usize, b: usize, limit: u64) -> (r: Option<u64>)
    requires
        a <= b <= s@.len(),
        forall|i: int| a <= i < b ==> is_digit(#[trigger] s@[i]),
    ensures
        digits_value(s@.subrange(a as int, b as int)) <= limit as nat ==> r == Some(
            digits_value(s@.subrange(a as int, b as int)) as u64,
        ),
        digits_value(s@.subrange(a as int, b as int)) > limit as nat ==> r is None,
{
    let ghost whole = s@.subrange(a as int, b as int);
    let mut acc: u64 = 0;
    let mut i: usize = a;
    while i < b
        invariant
            a <= i <= b <= s@.len(),
            whole == s@.subrange(a as int, b as int),
            forall|j: int| a <= j < b ==> is_digit(#[trigger] s@[j]),
            acc as nat == digits_value(whole.take(i - a)),
            acc <= limit,
        decreases b - i,
    {
        let d: u64 = (s[i] - ZERO) as u64;
        assert(whole.take(i - a + 1).drop_last() == whole.take(i - a));
        assert(whole[i - a] == s@[i as int]);
        assert(whole.take(i - a + 1).last() == s@[i as int]);
        if d > limit || acc > (limit - d) / 10 {
            assert(digits_value(whole.take(i - a + 1)) > limit) by (nonlinear_arith)
                requires
                    d > limit || acc > (limit - d) / 10,
                    digits_value(whole.take(i - a + 1)) == acc * 10 + d,
            ;
            proof {
                lemma_digits_value_grows(whole, i - a + 1);
            }
            return None;
        }
        assert(acc * 10 + d <= limit) by (nonlinear_arith)
            requires
                acc <= (limit - d) / 10,
                d <= 9,
        ;
        acc = acc * 10 + d;
        i += 1;
    }
    assert(whole.take(b - a) == whole);
    Some(acc)
}

} // verus!
