//! Verified JSON primitives.
//!
//! The wire protocols carry JSON objects over length-framed byte strings.
//! This module holds the primitive pieces: string escaping, decimal
//! integers, booleans and literals, each with an encoder, a parser, and a
//! proof that the parser inverts the encoder.  Everything works on UTF-8
//! bytes; non-ASCII bytes pass through strings unescaped, as JSON allows.

use vstd::prelude::*;

verus! {

/// The escape of one string byte: quote and backslash get a backslash,
/// the named control characters get their short escapes, other control
/// bytes get a `\u00xx` escape, and everything else stands as itself.
pub open spec fn esc_byte(b: u8) -> Seq<u8> {
    if b == 0x22 {
        seq![0x5cu8, 0x22u8]
    } else if b == 0x5c {
        seq![0x5cu8, 0x5cu8]
    } else if b == 0x08 {
        seq![0x5cu8, 0x62u8]
    } else if b == 0x09 {
        seq![0x5cu8, 0x74u8]
    } else if b == 0x0a {
        seq![0x5cu8, 0x6eu8]
    } else if b == 0x0c {
        seq![0x5cu8, 0x66u8]
    } else if b == 0x0d {
        seq![0x5cu8, 0x72u8]
    } else if b < 0x20 {
        seq![0x5cu8, 0x75u8, 0x30u8, 0x30u8, hex_digit((b / 16) as int), hex_digit((b % 16) as int)]
    } else {
        seq![b]
    }
}

/// The lowercase hex digit for a value below 16.
pub open spec fn hex_digit(v: int) -> u8 {
    if v < 10 {
        (0x30 + v) as u8
    } else {
        (0x57 + v) as u8
    }
}

/// Value of a hex digit byte, or -1 when the byte is no hex digit.
pub open spec fn hex_val(b: u8) -> int {
    if 0x30 <= b <= 0x39 {
        b - 0x30
    } else if 0x61 <= b <= 0x66 {
        b - 0x61 + 10
    } else if 0x41 <= b <= 0x46 {
        b - 0x41 + 10
    } else {
        -1
    }
}

/// The escaped body of a JSON string.
pub open spec fn enc_str_body(s: Seq<u8>) -> Seq<u8>
    decreases s.len(),
{
    if s.len() == 0 {
        Seq::empty()
    } else {
        esc_byte(s[0]) + enc_str_body(s.skip(1))
    }
}

/// A JSON string: quote, escaped body, quote.
pub open spec fn enc_str(s: Seq<u8>) -> Seq<u8> {
    seq![0x22u8] + enc_str_body(s) + seq![0x22u8]
}

/// The decimal digits of an unsigned number.
pub open spec fn dec_u64(n: int) -> Seq<u8>
    decreases n,
{
    if n < 10 {
        seq![(0x30 + if n >= 0 { n } else { 0 }) as u8]
    } else {
        dec_u64(n / 10).push((0x30 + n % 10) as u8)
    }
}

/// A decimal integer with an optional leading minus.
pub open spec fn dec_i64(v: int) -> Seq<u8> {
    if v < 0 {
        seq![0x2du8] + dec_u64(-v)
    } else {
        dec_u64(v)
    }
}

/// The bytes of `true` or `false`.
pub open spec fn enc_bool(b: bool) -> Seq<u8> {
    if b {
        seq![0x74u8, 0x72u8, 0x75u8, 0x65u8]
    } else {
        seq![0x66u8, 0x61u8, 0x6cu8, 0x73u8, 0x65u8]
    }
}

/// The bytes of `null`.
pub open spec fn enc_null() -> Seq<u8> {
    seq![0x6eu8, 0x75u8, 0x6cu8, 0x6cu8]
}

/// Numeric value of a digit string, most significant digit first.
pub open spec fn val_of_digits(ds: Seq<u8>) -> int
    decreases ds.len(),
{
    if ds.len() == 0 {
        0
    } else {
        val_of_digits(ds.drop_last()) * 10 + (ds.last() - 0x30)
    }
}

/// A decimal digit byte.
pub open spec fn is_digit(b: u8) -> bool {
    0x30 <= b <= 0x39
}

/// The digits of a number read back as that number.
pub proof fn lemma_val_of_dec(n: int)
    requires
        n >= 0,
    ensures
        val_of_digits(dec_u64(n)) == n,
        dec_u64(n).len() >= 1,
        forall|i: int| 0 <= i < dec_u64(n).len() ==> is_digit(#[trigger] dec_u64(n)[i]),
    decreases n,
{
    if n < 10 {
        let ds = dec_u64(n);
        assert(ds =~= seq![(0x30 + n) as u8]);
        assert(ds.drop_last() =~= Seq::<u8>::empty());
        assert(val_of_digits(ds.drop_last()) == 0);
        assert(val_of_digits(ds) == 0 * 10 + (ds.last() - 0x30));
        assert(forall|i: int| 0 <= i < ds.len() ==> is_digit(#[trigger] ds[i]));
    } else {
        lemma_val_of_dec(n / 10);
        let ds = dec_u64(n);
        let pre = dec_u64(n / 10);
        assert(ds == pre.push((0x30 + n % 10) as u8));
        assert(ds.drop_last() =~= pre);
        assert(ds.last() == (0x30 + n % 10) as u8);
        assert(val_of_digits(ds) == (n / 10) * 10 + n % 10);
        assert((n / 10) * 10 + n % 10 == n) by (nonlinear_arith)
            requires n >= 10
        ;
        assert forall|i: int| 0 <= i < ds.len() implies is_digit(#[trigger] ds[i]) by {
            if i < ds.len() - 1 {
                assert(ds[i] == pre[i]);
            }
        }
    }
}

/// Append the decimal digits of `n`.
pub fn enc_u64_push(out: &mut Vec<u8>, n: u64)
    ensures
        final(out)@ == old(out)@ + dec_u64(n as int),
    decreases n,
{
    if n < 10 {
        out.push(0x30 + n as u8);
        assert(out@ =~= old(out)@ + dec_u64(n as int));
    } else {
        enc_u64_push(out, n / 10);
        out.push(0x30 + (n % 10) as u8);
        assert(out@ =~= old(out)@ + dec_u64(n as int));
    }
}

/// Append the decimal form of `v`, with a minus sign when negative.
pub fn enc_i64_push(out: &mut Vec<u8>, v: i64)
    ensures
        final(out)@ == old(out)@ + dec_i64(v as int),
{
    if v < 0 {
        out.push(0x2du8);
        let m: u64 = if v == i64::MIN {
            0x8000_0000_0000_0000u64
        } else {
            (-v) as u64
        };
        assert(m as int == -(v as int));
        enc_u64_push(out, m);
        assert(out@ =~= old(out)@ + dec_i64(v as int));
    } else {
        enc_u64_push(out, v as u64);
    }
}

/// Append one byte, escaped as JSON requires.
fn enc_byte_push(out: &mut Vec<u8>, b: u8)
    ensures
        final(out)@ == old(out)@ + esc_byte(b),
{
    if b == 0x22 {
        out.push(0x5c);
        out.push(0x22);
    } else if b == 0x5c {
        out.push(0x5c);
        out.push(0x5c);
    } else if b == 0x08 {
        out.push(0x5c);
        out.push(0x62);
    } else if b == 0x09 {
        out.push(0x5c);
        out.push(0x74);
    } else if b == 0x0a {
        out.push(0x5c);
        out.push(0x6e);
    } else if b == 0x0c {
        out.push(0x5c);
        out.push(0x66);
    } else if b == 0x0d {
        out.push(0x5c);
        out.push(0x72);
    } else if b < 0x20 {
        out.push(0x5c);
        out.push(0x75);
        out.push(0x30);
        out.push(0x30);
        let hi = b / 16;
        let lo = b % 16;
        out.push(if hi < 10 { 0x30 + hi } else { 0x57 + hi });
        out.push(if lo < 10 { 0x30 + lo } else { 0x57 + lo });
    } else {
        out.push(b);
    }
    assert(out@ =~= old(out)@ + esc_byte(b));
}

/// Append a whole JSON string: quote, escaped bytes, quote.
pub fn enc_str_push(out: &mut Vec<u8>, s: &Vec<u8>)
    ensures
        final(out)@ == old(out)@ + enc_str(s@),
{
    out.push(0x22);
    let mut i: usize = 0;
    while i < s.len()
        invariant
            i <= s@.len(),
            out@ == old(out)@ + seq![0x22u8] + enc_str_body(s@.take(i as int)),
        decreases s@.len() - i,
    {
        proof {
            lemma_enc_str_body_snoc(s@.take(i as int), s@[i as int]);
            assert(s@.take(i + 1 as int) =~= s@.take(i as int).push(s@[i as int]));
        }
        enc_byte_push(out, s[i]);
        i += 1;
    }
    out.push(0x22);
    proof {
        assert(s@.take(s@.len() as int) =~= s@);
        assert(out@ =~= old(out)@ + enc_str(s@));
    }
}

/// Escaping distributes over appending one byte at the end.
pub proof fn lemma_enc_str_body_snoc(s: Seq<u8>, b: u8)
    ensures
        enc_str_body(s.push(b)) == enc_str_body(s) + esc_byte(b),
    decreases s.len(),
{
    if s.len() == 0 {
        assert(s.push(b).skip(1) =~= Seq::<u8>::empty());
        assert(s.push(b)[0] == b);
        assert(enc_str_body(Seq::<u8>::empty()) =~= Seq::<u8>::empty());
        assert(enc_str_body(s.push(b)) == esc_byte(b) + enc_str_body(s.push(b).skip(1)));
        assert(enc_str_body(s.push(b)) =~= esc_byte(b));
        assert(enc_str_body(s) + esc_byte(b) =~= esc_byte(b));
    } else {
        lemma_enc_str_body_snoc(s.skip(1), b);
        assert(s.push(b)[0] == s[0]);
        assert(s.push(b).skip(1) =~= s.skip(1).push(b));
        assert(enc_str_body(s.push(b)) == esc_byte(s[0]) + enc_str_body(s.skip(1).push(b)));
        assert(enc_str_body(s.push(b)) =~= enc_str_body(s) + esc_byte(b));
    }
}

/// Append a boolean literal.
pub fn enc_bool_push(out: &mut Vec<u8>, b: bool)
    ensures
        final(out)@ == old(out)@ + enc_bool(b),
{
    if b {
        out.push(0x74);
        out.push(0x72);
        out.push(0x75);
        out.push(0x65);
    } else {
        out.push(0x66);
        out.push(0x61);
        out.push(0x6c);
        out.push(0x73);
        out.push(0x65);
    }
    assert(out@ =~= old(out)@ + enc_bool(b));
}

/// Append the `null` literal.
pub fn enc_null_push(out: &mut Vec<u8>)
    ensures
        final(out)@ == old(out)@ + enc_null(),
{
    out.push(0x6e);
    out.push(0x75);
    out.push(0x6c);
    out.push(0x6c);
    assert(out@ =~= old(out)@ + enc_null());
}

/// The byte a simple escape stands for, if `e` is a valid escape letter.
pub open spec fn unesc_simple(e: u8) -> Option<u8> {
    if e == 0x22 {
        Some(0x22u8)
    } else if e == 0x5c {
        Some(0x5cu8)
    } else if e == 0x2f {
        Some(0x2fu8)
    } else if e == 0x62 {
        Some(0x08u8)
    } else if e == 0x74 {
        Some(0x09u8)
    } else if e == 0x6e {
        Some(0x0au8)
    } else if e == 0x66 {
        Some(0x0cu8)
    } else if e == 0x72 {
        Some(0x0du8)
    } else {
        None
    }
}

/// Prepend a byte to the content of a partial parse.
pub open spec fn sps_cons(c: u8, rest: Option<(Seq<u8>, int)>) -> Option<(Seq<u8>, int)> {
    match rest {
        Some((s, j)) => Some((seq![c] + s, j)),
        None => None,
    }
}

/// Parse the body of a JSON string starting at `i`, up to and including the
/// closing quote: the content and the index after the quote.
pub open spec fn sps_body(data: Seq<u8>, i: int) -> Option<(Seq<u8>, int)>
    decreases data.len() - i,
{
    if i < 0 || i >= data.len() {
        None
    } else if data[i] == 0x22 {
        Some((Seq::empty(), i + 1))
    } else if data[i] == 0x5c {
        if i + 1 >= data.len() {
            None
        } else {
            let e = data[i + 1];
            if e == 0x75 {
                if i + 5 < data.len() && data[i + 2] == 0x30 && data[i + 3] == 0x30 && hex_val(
                    data[i + 4],
                ) >= 0 && hex_val(data[i + 5]) >= 0 && hex_val(data[i + 4]) * 16 + hex_val(
                    data[i + 5],
                ) < 0x80 {
                    sps_cons(
                        (hex_val(data[i + 4]) * 16 + hex_val(data[i + 5])) as u8,
                        sps_body(data, i + 6),
                    )
                } else {
                    None
                }
            } else {
                match unesc_simple(e) {
                    Some(c) => sps_cons(c, sps_body(data, i + 2)),
                    None => None,
                }
            }
        }
    } else if data[i] >= 0x20 {
        sps_cons(data[i], sps_body(data, i + 1))
    } else {
        None
    }
}

/// Parse a JSON string starting at `i`: the opening quote, the body, the
/// closing quote.
pub open spec fn sps_string(data: Seq<u8>, i: int) -> Option<(Seq<u8>, int)> {
    if 0 <= i < data.len() && data[i] == 0x22 {
        sps_body(data, i + 1)
    } else {
        None
    }
}

/// End of the run of decimal digits starting at `i`.
pub open spec fn digit_run_end(data: Seq<u8>, i: int) -> int
    decreases data.len() - i,
{
    if i < 0 || i >= data.len() {
        i
    } else if is_digit(data[i]) {
        digit_run_end(data, i + 1)
    } else {
        i
    }
}

/// Parse an unsigned decimal number starting at `i`.
pub open spec fn sps_u64(data: Seq<u8>, i: int) -> Option<(int, int)> {
    let e = digit_run_end(data, i);
    if i < 0 || e == i {
        None
    } else if val_of_digits(data.subrange(i, e)) > u64::MAX {
        None
    } else {
        Some((val_of_digits(data.subrange(i, e)), e))
    }
}

/// Parse a decimal number with an optional leading minus starting at `i`.
pub open spec fn sps_i64(data: Seq<u8>, i: int) -> Option<(int, int)> {
    if 0 <= i < data.len() && data[i] == 0x2d {
        match sps_u64(data, i + 1) {
            Some((v, e)) => if v <= 0x8000_0000_0000_0000 {
                Some((-v, e))
            } else {
                None
            },
            None => None,
        }
    } else {
        match sps_u64(data, i) {
            Some((v, e)) => if v <= i64::MAX {
                Some((v, e))
            } else {
                None
            },
            None => None,
        }
    }
}

/// A run of digits, delimited on the right, parses back to its end.
proof fn lemma_digit_run(data: Seq<u8>, i: int, e: int)
    requires
        0 <= i <= e <= data.len(),
        forall|j: int| i <= j < e ==> is_digit(#[trigger] data[j]),
        e == data.len() || !is_digit(data[e]),
    ensures
        digit_run_end(data, i) == e,
    decreases e - i,
{
    if i < e {
        lemma_digit_run(data, i + 1, e);
    }
}

/// The decimal encoding of a number, followed by a non-digit, parses back
/// to that number.
pub proof fn lemma_sps_u64_enc(data: Seq<u8>, i: int, n: u64)
    requires
        0 <= i,
        i + dec_u64(n as int).len() <= data.len(),
        data.subrange(i, i + dec_u64(n as int).len()) == dec_u64(n as int),
        i + dec_u64(n as int).len() == data.len() || !is_digit(
            data[i + dec_u64(n as int).len()],
        ),
    ensures
        sps_u64(data, i) == Some((n as int, i + dec_u64(n as int).len())),
{
    let l = dec_u64(n as int).len() as int;
    lemma_val_of_dec(n as int);
    assert forall|j: int| i <= j < i + l implies is_digit(#[trigger] data[j]) by {
        assert(data[j] == data.subrange(i, i + l)[j - i]);
    }
    lemma_digit_run(data, i, i + l);
}

/// The signed decimal encoding of a number, followed by a non-digit,
/// parses back to that number.
pub proof fn lemma_sps_i64_enc(data: Seq<u8>, i: int, v: int)
    requires
        i64::MIN <= v <= i64::MAX,
        0 <= i,
        i + dec_i64(v as int).len() <= data.len(),
        data.subrange(i, i + dec_i64(v as int).len()) == dec_i64(v as int),
        i + dec_i64(v as int).len() == data.len() || !is_digit(
            data[i + dec_i64(v as int).len()],
        ),
    ensures
        sps_i64(data, i) == Some((v as int, i + dec_i64(v as int).len())),
{
    let l = dec_i64(v as int).len() as int;
    if v < 0 {
        let m = -v;
        assert(data[i] == dec_i64(v as int)[0]);
        assert(data[i] == 0x2d);
        assert(dec_u64(m).len() + 1 == l);
        assert forall|j: int| 0 <= j < dec_u64(m).len() implies #[trigger] data.subrange(
            i + 1,
            i + l,
        )[j] == dec_u64(m)[j] by {
            assert(data.subrange(i + 1, i + l)[j] == data[i + 1 + j]);
            assert(data[i + 1 + j] == data.subrange(i, i + l)[j + 1]);
            assert(dec_i64(v as int)[j + 1] == dec_u64(m)[j]);
        }
        assert(data.subrange(i + 1, i + l) =~= dec_u64(m));
        lemma_val_of_dec(m);
        assert(m <= 0x8000_0000_0000_0000);
        let mu = m as u64;
        assert(dec_u64(mu as int) == dec_u64(m));
        lemma_sps_u64_enc(data, i + 1, mu);
        assert(is_digit(dec_u64(m)[0]));
        assert(data[i] != 0x30);
    } else {
        lemma_val_of_dec(v as int);
        assert(dec_i64(v as int) == dec_u64(v as int));
        lemma_sps_u64_enc(data, i, v as u64);
        assert(is_digit(data.subrange(i, i + l)[0]));
        assert(data[i] == data.subrange(i, i + l)[0]);
        assert(data[i] != 0x2d);
    }
}

/// The escaped body of a string, followed by the closing quote, parses
/// back to the string.
pub proof fn lemma_sps_body_enc(data: Seq<u8>, i: int, s: Seq<u8>)
    requires
        0 <= i,
        i + enc_str_body(s).len() + 1 <= data.len(),
        data.subrange(i, i + enc_str_body(s).len() + 1) == enc_str_body(s) + seq![0x22u8],
    ensures
        sps_body(data, i) == Some((s, i + enc_str_body(s).len() + 1)),
    decreases s.len(),
{
    let bl = enc_str_body(s).len() as int;
    if s.len() == 0 {
        assert(enc_str_body(s) =~= Seq::<u8>::empty());
        assert(data[i] == data.subrange(i, i + 1)[0]);
        assert(data[i] == 0x22);
    } else {
        let b = s[0];
        let eb = esc_byte(b);
        let tail = enc_str_body(s.skip(1));
        assert(enc_str_body(s) == eb + tail);
        let el = eb.len() as int;
        assert forall|j: int| 0 <= j < el implies #[trigger] data.subrange(i, i + el)[j]
            == eb[j] by {
            assert(data.subrange(i, i + el)[j] == data[i + j]);
            assert(data[i + j] == data.subrange(i, i + bl + 1)[j]);
            assert((eb + tail + seq![0x22u8])[j] == eb[j]);
        }
        assert(data.subrange(i, i + el) =~= eb);
        assert(data[i] == data.subrange(i, i + el)[0]);
        if el >= 2 {
            assert(data[i + 1] == data.subrange(i, i + el)[1]);
        }
        if el == 6 {
            assert(data[i + 2] == data.subrange(i, i + el)[2]);
            assert(data[i + 3] == data.subrange(i, i + el)[3]);
            assert(data[i + 4] == data.subrange(i, i + el)[4]);
            assert(data[i + 5] == data.subrange(i, i + el)[5]);
        }
        assert forall|j: int| 0 <= j < tail.len() + 1 implies #[trigger] data.subrange(
            i + el,
            i + el + tail.len() + 1,
        )[j] == (tail + seq![0x22u8])[j] by {
            assert(data.subrange(i + el, i + el + tail.len() + 1)[j] == data[i + el + j]);
            assert(data[i + el + j] == data.subrange(i, i + bl + 1)[el + j]);
            assert((eb + tail + seq![0x22u8])[el + j] == (tail + seq![0x22u8])[j]);
        }
        assert(data.subrange(i + el, i + el + tail.len() + 1) =~= tail + seq![0x22u8]);
        lemma_sps_body_enc(data, i + el, s.skip(1));
        assert(sps_body(data, i + el) == Some((s.skip(1), i + bl + 1)));
        assert(seq![b] + s.skip(1) =~= s);
        if b == 0x22 {
            assert(data[i] == 0x5c && data[i + 1] == 0x22);
            assert(sps_body(data, i) == sps_cons(0x22u8, sps_body(data, i + 2)));
        } else if b == 0x5c {
            assert(data[i] == 0x5c && data[i + 1] == 0x5c);
            assert(sps_body(data, i) == sps_cons(0x5cu8, sps_body(data, i + 2)));
        } else if b == 0x08 {
            assert(data[i] == 0x5c && data[i + 1] == 0x62);
            assert(sps_body(data, i) == sps_cons(0x08u8, sps_body(data, i + 2)));
        } else if b == 0x09 {
            assert(data[i] == 0x5c && data[i + 1] == 0x74);
            assert(sps_body(data, i) == sps_cons(0x09u8, sps_body(data, i + 2)));
        } else if b == 0x0a {
            assert(data[i] == 0x5c && data[i + 1] == 0x6e);
            assert(sps_body(data, i) == sps_cons(0x0au8, sps_body(data, i + 2)));
        } else if b == 0x0c {
            assert(data[i] == 0x5c && data[i + 1] == 0x66);
            assert(sps_body(data, i) == sps_cons(0x0cu8, sps_body(data, i + 2)));
        } else if b == 0x0d {
            assert(data[i] == 0x5c && data[i + 1] == 0x72);
            assert(sps_body(data, i) == sps_cons(0x0du8, sps_body(data, i + 2)));
        } else if b < 0x20 {
            assert(data[i] == 0x5c && data[i + 1] == 0x75);
            assert(data[i + 2] == 0x30 && data[i + 3] == 0x30);
            assert(data[i + 4] == hex_digit((b / 16) as int));
            assert(data[i + 5] == hex_digit((b % 16) as int));
            assert(hex_val(hex_digit((b / 16) as int)) == b / 16);
            assert(hex_val(hex_digit((b % 16) as int)) == b % 16);
            assert((b / 16) * 16 + b % 16 == b) by (nonlinear_arith);
            assert(sps_body(data, i) == sps_cons(b, sps_body(data, i + 6)));
        } else {
            assert(data[i] == b);
            assert(b != 0x22 && b != 0x5c && b >= 0x20);
            assert(sps_body(data, i) == sps_cons(b, sps_body(data, i + 1)));
        }
    }
}

/// A whole encoded string parses back to the string.
pub proof fn lemma_sps_string_enc(data: Seq<u8>, i: int, s: Seq<u8>)
    requires
        0 <= i,
        i + enc_str(s).len() <= data.len(),
        data.subrange(i, i + enc_str(s).len()) == enc_str(s),
    ensures
        sps_string(data, i) == Some((s, i + enc_str(s).len())),
{
    let bl = enc_str_body(s).len() as int;
    assert(data[i] == data.subrange(i, i + bl + 2)[0]);
    assert(data[i] == 0x22);
    assert forall|j: int| 0 <= j < bl + 1 implies #[trigger] data.subrange(
        i + 1,
        i + 1 + bl + 1,
    )[j] == (enc_str_body(s) + seq![0x22u8])[j] by {
        assert(data.subrange(i + 1, i + 1 + bl + 1)[j] == data[i + 1 + j]);
        assert(data[i + 1 + j] == data.subrange(i, i + bl + 2)[j + 1]);
        assert(enc_str(s)[j + 1] == (enc_str_body(s) + seq![0x22u8])[j]);
    }
    assert(data.subrange(i + 1, i + 1 + bl + 1) =~= enc_str_body(s) + seq![0x22u8]);
    lemma_sps_body_enc(data, i + 1, s);
}

/// A successful body parse ends inside the data and past its start.
pub proof fn lemma_sps_body_bounds(data: Seq<u8>, i: int)
    ensures
        match sps_body(data, i) {
            Some(p) => i < p.1 <= data.len(),
            None => true,
        },
    decreases data.len() - i,
{
    if 0 <= i < data.len() {
        if data[i] == 0x22 {
        } else if data[i] == 0x5c {
            if i + 1 < data.len() {
                let e = data[i + 1];
                if e == 0x75 {
                    if i + 5 < data.len() {
                        lemma_sps_body_bounds(data, i + 6);
                    }
                } else {
                    lemma_sps_body_bounds(data, i + 2);
                }
            }
        } else if data[i] >= 0x20 {
            lemma_sps_body_bounds(data, i + 1);
        }
    }
}

/// Match a literal at `pos`: succeeds exactly when the data carries the
/// literal bytes there, returning the position after it.
pub fn parse_lit(data: &Vec<u8>, pos: usize, lit: &Vec<u8>) -> (r: Option<usize>)
    ensures
        match r {
            Some(p) => p == pos + lit@.len() && pos + lit@.len() <= data@.len()
                && data@.subrange(pos as int, p as int) == lit@,
            None => !(pos + lit@.len() <= data@.len() && data@.subrange(
                pos as int,
                pos + lit@.len(),
            ) == lit@),
        },
{
    if pos > data.len() || lit.len() > data.len() - pos {
        return None;
    }
    let mut i: usize = 0;
    let mut p: usize = pos;
    while i < lit.len()
        invariant
            i <= lit@.len(),
            p == pos + i,
            pos + lit@.len() <= data@.len(),
            data@.len() <= usize::MAX,
            forall|j: int| 0 <= j < i ==> data@[pos + j] == lit@[j],
        decreases lit@.len() - i,
    {
        if data[p] != lit[i] {
            proof {
                let sub = data@.subrange(pos as int, pos + lit@.len());
                assert(sub[i as int] == data@[pos + i]);
                assert(sub[i as int] != lit@[i as int]);
            }
            return None;
        }
        i += 1;
        p += 1;
    }
    proof {
        assert(data@.subrange(pos as int, pos + lit@.len()) =~= lit@);
    }
    Some(pos + lit.len())
}

/// Parse a JSON string at `pos`: the parse succeeds, with the unescaped
/// content and the position after the closing quote, exactly when the
/// string grammar matches.
pub fn parse_string(data: &Vec<u8>, pos: usize) -> (r: Option<(Vec<u8>, usize)>)
    ensures
        match r {
            Some(v) => sps_string(data@, pos as int) == Some((v.0@, v.1 as int)) && pos < v.1
                <= data@.len(),
            None => sps_string(data@, pos as int) is None,
        },
{
    if pos >= data.len() || data[pos] != 0x22 {
        return None;
    }
    let mut cur: usize = pos + 1;
    let mut acc: Vec<u8> = Vec::new();
    proof {
        let r0 = sps_body(data@, cur as int);
        match r0 {
            Some(p) => {
                assert(Seq::<u8>::empty() + p.0 =~= p.0);
                lemma_sps_body_bounds(data@, cur as int);
            },
            None => {},
        }
    }
    loop
        invariant
            pos + 1 <= cur <= data@.len(),
            data@.len() <= usize::MAX,
            pos < data@.len(),
            data@[pos as int] == 0x22,
            match sps_body(data@, cur as int) {
                Some((s2, j)) => sps_body(data@, pos + 1 as int) == Some((acc@ + s2, j)) && cur
                    as int <= j <= data@.len(),
                None => sps_body(data@, pos + 1 as int) is None,
            },
        decreases data@.len() - cur,
    {
        if cur == data.len() {
            return None;
        }
        let b = data[cur];
        if b == 0x22 {
            proof {
                assert(sps_body(data@, cur as int) == Some((Seq::<u8>::empty(), cur + 1 as int)));
                assert(acc@ + Seq::<u8>::empty() =~= acc@);
            }
            return Some((acc, cur + 1));
        } else if b == 0x5c {
            if data.len() - cur < 2 {
                return None;
            }
            let e = data[cur + 1];
            if e == 0x75 {
                if data.len() - cur < 6 {
                    return None;
                }
                if data[cur + 2] != 0x30 || data[cur + 3] != 0x30 {
                    return None;
                }
                let h1 = hex_val_exec(data[cur + 4]);
                let h2 = hex_val_exec(data[cur + 5]);
                if h1 < 0 || h2 < 0 {
                    return None;
                }
                let v = h1 * 16 + h2;
                if v >= 0x80 {
                    return None;
                }
                let c = v as u8;
                proof {
                    assert(sps_body(data@, cur as int) == sps_cons(
                        c,
                        sps_body(data@, cur + 6 as int),
                    ));
                    let r2 = sps_body(data@, cur + 6 as int);
                    match r2 {
                        Some(p) => {
                            assert(acc@ + (seq![c] + p.0) =~= acc@.push(c) + p.0);
                            lemma_sps_body_bounds(data@, cur + 6 as int);
                        },
                        None => {},
                    }
                }
                acc.push(c);
                cur = cur + 6;
            } else {
                let c: u8;
                if e == 0x22 {
                    c = 0x22;
                } else if e == 0x5c {
                    c = 0x5c;
                } else if e == 0x2f {
                    c = 0x2f;
                } else if e == 0x62 {
                    c = 0x08;
                } else if e == 0x74 {
                    c = 0x09;
                } else if e == 0x6e {
                    c = 0x0a;
                } else if e == 0x66 {
                    c = 0x0c;
                } else if e == 0x72 {
                    c = 0x0d;
                } else {
                    return None;
                }
                proof {
                    assert(unesc_simple(e) == Some(c));
                    assert(sps_body(data@, cur as int) == sps_cons(
                        c,
                        sps_body(data@, cur + 2 as int),
                    ));
                    let r2 = sps_body(data@, cur + 2 as int);
                    match r2 {
                        Some(p) => {
                            assert(acc@ + (seq![c] + p.0) =~= acc@.push(c) + p.0);
                            lemma_sps_body_bounds(data@, cur + 2 as int);
                        },
                        None => {},
                    }
                }
                acc.push(c);
                cur = cur + 2;
            }
        } else if b >= 0x20 {
            proof {
                assert(sps_body(data@, cur as int) == sps_cons(
                    b,
                    sps_body(data@, cur + 1 as int),
                ));
                let r2 = sps_body(data@, cur + 1 as int);
                match r2 {
                    Some(p) => {
                        assert(acc@ + (seq![b] + p.0) =~= acc@.push(b) + p.0);
                        lemma_sps_body_bounds(data@, cur + 1 as int);
                    },
                    None => {},
                }
            }
            acc.push(b);
            cur = cur + 1;
        } else {
            return None;
        }
    }
}

/// Hex digit value, or -1.
fn hex_val_exec(b: u8) -> (r: i32)
    ensures
        r as int == hex_val(b),
{
    if 0x30 <= b && b <= 0x39 {
        (b - 0x30) as i32
    } else if 0x61 <= b && b <= 0x66 {
        (b - 0x61) as i32 + 10
    } else if 0x41 <= b && b <= 0x46 {
        (b - 0x41) as i32 + 10
    } else {
        -1
    }
}

/// Value of the digit run `data[start..end]`, or none on overflow.
fn digits_to_u64(data: &Vec<u8>, start: usize, end: usize) -> (r: Option<u64>)
    requires
        start <= end <= data@.len(),
        forall|j: int| start <= j < end ==> is_digit(#[trigger] data@[j]),
    ensures
        match r {
            Some(v) => v as int == val_of_digits(data@.subrange(start as int, end as int)),
            None => val_of_digits(data@.subrange(start as int, end as int)) > u64::MAX,
        },
    decreases end - start,
{
    if end == start {
        proof {
            assert(data@.subrange(start as int, end as int) =~= Seq::<u8>::empty());
        }
        return Some(0);
    }
    let front = digits_to_u64(data, start, end - 1);
    proof {
        let ds = data@.subrange(start as int, end as int);
        assert(ds.drop_last() =~= data@.subrange(start as int, end - 1 as int));
        assert(ds.last() == data@[end - 1]);
        assert(is_digit(data@[end - 1]));
    }
    match front {
        None => {
            proof {
                let ds = data@.subrange(start as int, end as int);
                let f = val_of_digits(ds.drop_last());
                assert(val_of_digits(ds) == f * 10 + (ds.last() - 0x30));
                assert(f > u64::MAX ==> f * 10 + (ds.last() - 0x30) > u64::MAX) by (nonlinear_arith);
            }
            None
        },
        Some(acc) => {
            let d = data[end - 1] - 0x30;
            if acc > u64::MAX / 10 || (acc == u64::MAX / 10 && d > 5) {
                proof {
                    let ds = data@.subrange(start as int, end as int);
                    let f = val_of_digits(ds.drop_last());
                    assert(f == acc as int);
                    assert(val_of_digits(ds) == f * 10 + (ds.last() - 0x30));
                    assert(u64::MAX / 10 == 0x1999_9999_9999_9999);
                    assert(acc > 0x1999_9999_9999_9999 ==> acc as int * 10 > u64::MAX)
                        by (nonlinear_arith);
                    assert(ds.last() - 0x30 == d as int);
                }
                None
            } else {
                proof {
                    assert(acc as int * 10 + d as int <= u64::MAX) by (nonlinear_arith)
                        requires
                            acc as int <= 0x1999_9999_9999_9999,
                            d as int <= 9,
                            !(acc as int >= 0x1999_9999_9999_9999 && d as int > 5),
                    ;
                    let ds = data@.subrange(start as int, end as int);
                    assert(val_of_digits(ds) == acc as int * 10 + (ds.last() - 0x30));
                }
                Some(acc * 10 + d as u64)
            }
        },
    }
}

/// Parse an unsigned decimal number at `pos`.
pub fn parse_u64(data: &Vec<u8>, pos: usize) -> (r: Option<(u64, usize)>)
    ensures
        match r {
            Some(v) => sps_u64(data@, pos as int) == Some((v.0 as int, v.1 as int)) && pos < v.1
                <= data@.len(),
            None => sps_u64(data@, pos as int) is None,
        },
{
    if pos >= data.len() {
        return None;
    }
    let mut end: usize = pos;
    let mut more = end < data.len() && 0x30 <= data[end] && data[end] <= 0x39;
    while more
        invariant
            more == (end < data@.len() && is_digit(data@[end as int])),
            pos <= end <= data@.len(),
            data@.len() <= usize::MAX,
            forall|j: int| pos <= j < end ==> is_digit(#[trigger] data@[j]),
            digit_run_end(data@, pos as int) == digit_run_end(data@, end as int),
        decreases data@.len() - end,
    {
        end += 1;
        more = end < data.len() && 0x30 <= data[end] && data[end] <= 0x39;
    }
    proof {
        assert(digit_run_end(data@, end as int) == end as int);
    }
    if end == pos {
        return None;
    }
    match digits_to_u64(data, pos, end) {
        Some(v) => Some((v, end)),
        None => None,
    }
}

/// Parse a decimal number with optional leading minus at `pos`.
pub fn parse_i64(data: &Vec<u8>, pos: usize) -> (r: Option<(i64, usize)>)
    ensures
        match r {
            Some(v) => sps_i64(data@, pos as int) == Some((v.0 as int, v.1 as int)) && pos < v.1
                <= data@.len(),
            None => sps_i64(data@, pos as int) is None,
        },
{
    if pos < data.len() && data[pos] == 0x2d {
        match parse_u64(data, pos + 1) {
            Some((m, end)) => {
                if m > 0x8000_0000_0000_0000u64 {
                    None
                } else {
                    let v: i64 = if m == 0x8000_0000_0000_0000u64 {
                        i64::MIN
                    } else {
                        -(m as i64)
                    };
                    assert(v as int == -(m as int));
                    Some((v, end))
                }
            },
            None => None,
        }
    } else {
        match parse_u64(data, pos) {
            Some((m, end)) => {
                if m > i64::MAX as u64 {
                    None
                } else {
                    Some((m as i64, end))
                }
            },
            None => None,
        }
    }
}

/// Parse `true` or `false` at `pos`.
pub fn parse_bool(data: &Vec<u8>, pos: usize) -> (r: Option<(bool, usize)>)
    ensures
        match r {
            Some(v) => pos + enc_bool(v.0).len() <= data@.len() && v.1 == pos + enc_bool(
                v.0,
            ).len() && data@.subrange(pos as int, v.1 as int) == enc_bool(v.0),
            None => forall|b: bool|
                !(pos + enc_bool(b).len() <= data@.len() && data@.subrange(
                    pos as int,
                    pos + enc_bool(b).len(),
                ) == enc_bool(b)),
        },
{
    let t = lit_true();
    match parse_lit(data, pos, &t) {
        Some(p) => Some((true, p)),
        None => {
            let f = lit_false();
            match parse_lit(data, pos, &f) {
                Some(p) => Some((false, p)),
                None => None,
            }
        },
    }
}

/// The bytes of `true`.
pub fn lit_true() -> (r: Vec<u8>)
    ensures
        r@ == enc_bool(true),
{
    let mut v: Vec<u8> = Vec::new();
    v.push(0x74);
    v.push(0x72);
    v.push(0x75);
    v.push(0x65);
    assert(v@ =~= enc_bool(true));
    v
}

/// The bytes of `false`.
pub fn lit_false() -> (r: Vec<u8>)
    ensures
        r@ == enc_bool(false),
{
    let mut v: Vec<u8> = Vec::new();
    v.push(0x66);
    v.push(0x61);
    v.push(0x6c);
    v.push(0x73);
    v.push(0x65);
    assert(v@ =~= enc_bool(false));
    v
}

/// The bytes of `null`.
pub fn lit_null() -> (r: Vec<u8>)
    ensures
        r@ == enc_null(),
{
    let mut v: Vec<u8> = Vec::new();
    v.push(0x6e);
    v.push(0x75);
    v.push(0x6c);
    v.push(0x6c);
    assert(v@ =~= enc_null());
    v
}

/// A successful string parse ends inside the data, past the opening quote.
pub proof fn lemma_sps_string_bounds(data: Seq<u8>, i: int)
    ensures
        match sps_string(data, i) {
            Some(p) => i + 1 < p.1 <= data.len(),
            None => true,
        },
{
    if 0 <= i < data.len() && data[i] == 0x22 {
        lemma_sps_body_bounds(data, i + 1);
    }
}

/// Parse `null` or a JSON string at `i`.
pub open spec fn sps_opt_str(data: Seq<u8>, i: int) -> Option<(Option<Seq<u8>>, int)> {
    if 0 <= i < data.len() && data[i] == 0x6e {
        if i + 4 <= data.len() && data.subrange(i, i + 4) == enc_null() {
            Some((None, i + 4))
        } else {
            None
        }
    } else {
        match sps_string(data, i) {
            Some((s, j)) => Some((Some(s), j)),
            None => None,
        }
    }
}

/// Parse an optional string: `null` stands for an absent value.
pub fn parse_opt_str(data: &Vec<u8>, pos: usize) -> (r: Option<(Option<Vec<u8>>, usize)>)
    ensures
        match r {
            Some(v) => sps_opt_str(data@, pos as int) == Some(
                (
                    match v.0 {
                        Some(s) => Some(s@),
                        None => None,
                    },
                    v.1 as int,
                ),
            ) && pos < v.1 <= data@.len(),
            None => sps_opt_str(data@, pos as int) is None,
        },
{
    if pos < data.len() && data[pos] == 0x6e {
        let nul = lit_null();
        match parse_lit(data, pos, &nul) {
            Some(p) => Some((None, p)),
            None => None,
        }
    } else {
        match parse_string(data, pos) {
            Some((s, p)) => Some((Some(s), p)),
            None => None,
        }
    }
}

/// An encoded optional string, in place in a larger buffer, parses back to
/// the value that was encoded.
pub proof fn lemma_sps_opt_str_enc(data: Seq<u8>, i: int, o: Option<Seq<u8>>)
    requires
        0 <= i,
        i + opt_str_len(o) <= data.len(),
        data.subrange(i, i + opt_str_len(o)) == match o {
            Some(s) => enc_str(s),
            None => enc_null(),
        },
    ensures
        sps_opt_str(data, i) == Some((o, i + opt_str_len(o))),
{
    match o {
        Some(s) => {
            lemma_sps_string_enc(data, i, s);
            assert(data[i] == data.subrange(i, i + opt_str_len(o))[0]);
            assert(enc_str(s)[0] == 0x22);
        },
        None => {
            assert(data[i] == data.subrange(i, i + opt_str_len(o))[0]);
            assert(enc_null()[0] == 0x6e);
        },
    }
}

/// Length of an encoded optional string.
pub open spec fn opt_str_len(o: Option<Seq<u8>>) -> int {
    match o {
        Some(s) => enc_str(s).len() as int,
        None => enc_null().len() as int,
    }
}

} // verus!
