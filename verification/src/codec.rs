//! Wire codec for the coordination protocol.
//!
//! Every frame on the connection is a JSON object in a canonical compact
//! form: no whitespace between tokens, object keys in a fixed order, strings
//! escaped with the five short escapes `\"`, `\\`, `\n`, `\r`, `\t` and
//! `\u00XX` for the remaining control bytes.
//! Encoders produce exactly that form, and the decoders accept it: parsing
//! what an encoder produced recovers the message, field for field.

use vstd::prelude::*;

verus! {

/// ASCII double quote.
pub const QU: u8 = 0x22;

/// ASCII backslash.
pub const BSL: u8 = 0x5c;

/// ASCII opening brace.
pub const LB: u8 = 0x7b;

/// ASCII closing brace.
pub const RB: u8 = 0x7d;

/// ASCII opening bracket.
pub const LS: u8 = 0x5b;

/// ASCII closing bracket.
pub const RS: u8 = 0x5d;

/// ASCII comma.
pub const CM: u8 = 0x2c;

/// ASCII colon.
pub const CO: u8 = 0x3a;

/// One decimal digit rendered as its ASCII byte.
pub open spec fn digit_byte(d: nat) -> u8
    recommends
        d < 10,
{
    (0x30 + d) as u8
}

/// Decimal representation of a natural number, most significant digit first.
pub open spec fn dec_rep(n: nat) -> Seq<u8>
    decreases n,
{
    if n < 10 {
        seq![digit_byte(n)]
    } else {
        dec_rep(n / 10).push(digit_byte(n % 10))
    }
}

/// Decimal representation of `n` in exactly `w` digits, zero padded on the
/// left; only the lowest `w` digits of `n` appear.
pub open spec fn fixw(n: nat, w: nat) -> Seq<u8>
    decreases w,
{
    if w == 0 {
        Seq::empty()
    } else {
        fixw(n / 10, (w - 1) as nat).push(digit_byte(n % 10))
    }
}

/// Appends exactly `w` decimal digits of `n`, zero padded.
pub fn push_fixw(out: &mut Vec<u8>, n: u64, w: u8)
    ensures
        final(out)@ == old(out)@ + fixw(n as nat, w as nat),
    decreases w,
{
    if w > 0 {
        push_fixw(out, n / 10, w - 1);
        out.push(0x30 + ((n % 10) as u8));
    }
}

/// The lowercase hex digit of a nibble.
pub open spec fn hex_digit(d: nat) -> u8
    recommends
        d < 16,
{
    if d < 10 {
        (0x30 + d) as u8
    } else {
        (0x61 + (d - 10)) as u8
    }
}

/// Canonical escape of a single byte inside a JSON string: the five short
/// escapes, and `\u00XX` for the remaining control bytes.
pub open spec fn esc_byte(b: u8) -> Seq<u8> {
    if b == 0x22 {
        seq![0x5cu8, 0x22u8]
    } else if b == 0x5c {
        seq![0x5cu8, 0x5cu8]
    } else if b == 0x0a {
        seq![0x5cu8, 0x6eu8]
    } else if b == 0x0d {
        seq![0x5cu8, 0x72u8]
    } else if b == 0x09 {
        seq![0x5cu8, 0x74u8]
    } else if b < 0x20 {
        seq![
            0x5cu8,
            0x75u8,
            0x30u8,
            0x30u8,
            hex_digit((b >> 4) as nat),
            hex_digit((b & 0x0f) as nat),
        ]
    } else {
        seq![b]
    }
}

/// Canonical escape of a whole byte string.
pub open spec fn esc(s: Seq<u8>) -> Seq<u8>
    decreases s.len(),
{
    if s.len() == 0 {
        Seq::empty()
    } else {
        esc_byte(s.first()) + esc(s.drop_first())
    }
}

/// A JSON string token: quote, escaped contents, quote.
pub open spec fn qs(s: Seq<u8>) -> Seq<u8> {
    seq![QU] + esc(s) + seq![QU]
}

/// Appends the bytes of `bs` to `out`.
pub fn push_bytes(out: &mut Vec<u8>, bs: &[u8])
    ensures
        final(out)@ == old(out)@ + bs@,
{
    let n = bs.len();
    let mut i: usize = 0;
    while i < n
        invariant
            n == bs@.len(),
            i <= n,
            out@ == old(out)@ + bs@.subrange(0, i as int),
        decreases n - i,
    {
        out.push(bs[i]);
        i = i + 1;
        assert(bs@.subrange(0, i as int) == bs@.subrange(0, i - 1) + seq![bs@[i - 1]]);
    }
    assert(bs@.subrange(0, n as int) == bs@);
}

/// Appends the decimal digits of `n` to `out`.
pub fn push_dec(out: &mut Vec<u8>, n: u64)
    ensures
        final(out)@ == old(out)@ + dec_rep(n as nat),
    decreases n,
{
    if n < 10 {
        out.push(0x30 + (n as u8));
    } else {
        push_dec(out, n / 10);
        out.push(0x30 + ((n % 10) as u8));
    }
}

/// Appends the canonical escape of `s` to `out`.
pub fn push_esc(out: &mut Vec<u8>, s: &[u8])
    ensures
        final(out)@ == old(out)@ + esc(s@),
{
    let n = s.len();
    let mut i: usize = 0;
    while i < n
        invariant
            n == s@.len(),
            i <= n,
            out@ == old(out)@ + esc(s@.subrange(0, i as int)),
        decreases n - i,
    {
        let b = s[i];
        if b == 0x22 {
            out.push(0x5c);
            out.push(0x22);
        } else if b == 0x5c {
            out.push(0x5c);
            out.push(0x5c);
        } else if b == 0x0a {
            out.push(0x5c);
            out.push(0x6e);
        } else if b == 0x0d {
            out.push(0x5c);
            out.push(0x72);
        } else if b == 0x09 {
            out.push(0x5c);
            out.push(0x74);
        } else if b < 0x20 {
            out.push(0x5c);
            out.push(0x75);
            out.push(0x30);
            out.push(0x30);
            let hi = b >> 4;
            let lo = b & 0x0f;
            proof {
                assert(b >> 4 < 16 && b & 0x0f < 16) by (bit_vector);
            }
            out.push(if hi < 10 { 0x30 + hi } else { 0x61 + (hi - 10) });
            out.push(if lo < 10 { 0x30 + lo } else { 0x61 + (lo - 10) });
        } else {
            out.push(b);
        }
        i = i + 1;
        proof {
            lemma_esc_snoc(s@.subrange(0, i as int));
            assert(s@.subrange(0, i as int).drop_last() == s@.subrange(0, i - 1));
            assert(s@.subrange(0, i as int).last() == s@[i - 1]);
        }
    }
    assert(s@.subrange(0, n as int) == s@);
}

/// Escaping a string is escaping all but the last byte, then the last byte.
pub proof fn lemma_esc_snoc(s: Seq<u8>)
    requires
        s.len() > 0,
    ensures
        esc(s) == esc(s.drop_last()) + esc_byte(s.last()),
    decreases s.len(),
{
    if s.len() == 1 {
        assert(s.drop_last() == Seq::<u8>::empty());
        assert(s.drop_first() == Seq::<u8>::empty());
        assert(esc(s) == esc_byte(s.first()) + esc(s.drop_first()));
        assert(esc(s) == esc(s.drop_last()) + esc_byte(s.last()));
    } else {
        lemma_esc_snoc(s.drop_first());
        assert(s.drop_first().drop_last() == s.drop_last().drop_first());
        assert(s.drop_first().last() == s.last());
        assert(s.drop_last().first() == s.first());
        assert(esc(s.drop_last()) == esc_byte(s.first()) + esc(s.drop_last().drop_first()));
        assert(esc(s) == esc_byte(s.first()) + esc(s.drop_first()));
        assert(esc_byte(s.first()) + (esc(s.drop_first().drop_last()) + esc_byte(s.last()))
            == (esc_byte(s.first()) + esc(s.drop_first().drop_last())) + esc_byte(s.last()));
    }
}

/// Appends a quoted JSON string token holding `s` to `out`.
pub fn push_qs(out: &mut Vec<u8>, s: &[u8])
    ensures
        final(out)@ == old(out)@ + qs(s@),
{
    out.push(QU);
    push_esc(out, s);
    out.push(QU);
}

/// Compares two byte strings for equality.
pub fn bytes_eq(a: &[u8], b: &[u8]) -> (r: bool)
    ensures
        r == (a@ == b@),
{
    if a.len() != b.len() {
        return false;
    }
    let n = a.len();
    let mut i: usize = 0;
    while i < n
        invariant
            n == a@.len(),
            n == b@.len(),
            i <= n,
            forall|k: int| 0 <= k < i ==> a@[k] == b@[k],
        decreases n - i,
    {
        if a[i] != b[i] {
            return false;
        }
        i = i + 1;
    }
    proof {
        assert(a@ =~= b@);
    }
    true
}

/// The decimal digits of `n` as a fresh byte string.
pub fn dec_bytes(n: u64) -> (r: Vec<u8>)
    ensures
        r@ == dec_rep(n as nat),
{
    let mut out: Vec<u8> = Vec::new();
    push_dec(&mut out, n);
    out
}

/// A fresh copy of a byte string.
pub fn clone_bytes(v: &Vec<u8>) -> (r: Vec<u8>)
    ensures
        r@ == v@,
{
    let mut r: Vec<u8> = Vec::new();
    push_bytes(&mut r, v.as_slice());
    r
}

} // verus!


