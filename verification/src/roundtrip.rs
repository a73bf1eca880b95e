//! Round-trip laws for the wire codec.
//!
//! Encoding any outbound message and parsing the bytes back recovers the
//! message, field for field.  The proofs walk the specification parser over
//! the specification encoding, one token at a time.

use vstd::prelude::*;

use crate::codec::{BSL, CM, QU, RB, RS, dec_rep, digit_byte, esc, esc_byte, fixw, qs};
use crate::parse::{digit_val, is_digit, p_fix6, p_lit, p_price, p_qs_or_null, p_str,
    p_str_body, p_u32, p_u64, p_u64_rec, unesc_byte};

verus! {

/// Splits knowledge of a concatenation at a cursor into its two halves.
pub proof fn lemma_split(s: Seq<u8>, c: int, a: Seq<u8>, b: Seq<u8>)
    requires
        0 <= c,
        c + a.len() + b.len() <= s.len(),
        s.subrange(c, c + a.len() + b.len()) == a + b,
    ensures
        s.subrange(c, c + a.len()) == a,
        s.subrange(c + a.len(), c + a.len() + b.len()) == b,
{
    assert forall|k: int| 0 <= k < a.len() implies s.subrange(c, c + a.len())[k] == a[k] by {
        assert(s.subrange(c, c + a.len())[k] == s[c + k]);
        assert(s.subrange(c, c + a.len() + b.len())[k] == s[c + k]);
        assert((a + b)[k] == a[k]);
    }
    assert(s.subrange(c, c + a.len()) =~= a);
    assert forall|k: int|
        0 <= k < b.len() implies s.subrange(c + a.len(), c + a.len() + b.len())[k] == b[k] by {
        assert(s.subrange(c + a.len(), c + a.len() + b.len())[k] == s[c + a.len() + k]);
        assert(s.subrange(c, c + a.len() + b.len())[a.len() + k] == s[c + a.len() + k]);
        assert((a + b)[a.len() + k] == b[k]);
    }
    assert(s.subrange(c + a.len(), c + a.len() + b.len()) =~= b);
}

/// Joins two adjacent known subranges into one.
pub proof fn lemma_join(s: Seq<u8>, c: int, a: Seq<u8>, b: Seq<u8>)
    requires
        0 <= c,
        c + a.len() + b.len() <= s.len(),
        s.subrange(c, c + a.len()) == a,
        s.subrange(c + a.len(), c + a.len() + b.len()) == b,
    ensures
        s.subrange(c, c + a.len() + b.len()) == a + b,
{
    assert forall|k: int|
        0 <= k < a.len() + b.len() implies s.subrange(c, c + a.len() + b.len())[k] == (a
        + b)[k] by {
        assert(s.subrange(c, c + a.len() + b.len())[k] == s[c + k]);
        if k < a.len() {
            assert(s.subrange(c, c + a.len())[k] == s[c + k]);
        } else {
            assert(s.subrange(c + a.len(), c + a.len() + b.len())[k - a.len()] == s[c + k]);
        }
    }
    assert(s.subrange(c, c + a.len() + b.len()) =~= a + b);
}

/// A literal that stands at the cursor is recognised there.
pub proof fn lemma_lit_at(s: Seq<u8>, c: int, lit: Seq<u8>)
    requires
        0 <= c,
        c + lit.len() <= s.len(),
        s.subrange(c, c + lit.len()) == lit,
    ensures
        p_lit(s, c, lit) == Option::Some(c + lit.len()),
{
}

/// A literal whose byte at `k` differs from the input is not recognised at
/// the start.
pub proof fn lemma_head_mismatch(s: Seq<u8>, lit: Seq<u8>, k: int)
    requires
        0 <= k < lit.len(),
        k < s.len(),
        s[k] != lit[k],
    ensures
        p_lit(s, 0, lit) is None,
{
    if lit.len() <= s.len() && s.subrange(0, lit.len() as int) == lit {
        assert(s.subrange(0, lit.len() as int)[k] == s[k]);
        assert(false);
    }
}

/// Pointwise view of a known subrange.
pub proof fn lemma_indexes(s: Seq<u8>, c: int, x: Seq<u8>)
    requires
        0 <= c,
        c + x.len() <= s.len(),
        s.subrange(c, c + x.len()) == x,
    ensures
        forall|k: int| 0 <= k < x.len() ==> s[c + k] == #[trigger] x[k],
{
    assert forall|k: int| 0 <= k < x.len() implies s[c + k] == #[trigger] x[k] by {
        assert(s.subrange(c, c + x.len())[k] == s[c + k]);
    }
}

/// The escaped form of a string followed by a closing quote parses back to
/// the string.
pub proof fn lemma_str_body_at(s: Seq<u8>, c: int, t: Seq<u8>)
    requires
        0 <= c,
        c + esc(t).len() + 1 <= s.len(),
        s.subrange(c, c + esc(t).len() + 1) == esc(t) + seq![QU],
    ensures
        p_str_body(s, c) == Option::Some((t, c + esc(t).len() + 1)),
    decreases t.len(),
{
    let x = esc(t) + seq![QU];
    lemma_indexes(s, c, x);
    if t.len() == 0 {
        assert(esc(t) == Seq::<u8>::empty());
        assert(s[c] == x[0]);
        assert(s[c] == QU);
    } else {
        let b = t.first();
        let eb = esc_byte(b);
        let tail = t.drop_first();
        assert(esc(t) == eb + esc(tail));
        assert(s[c] == x[0]);
        assert(x[0] == eb[0]);
        let y = esc(tail) + seq![QU];
        assert forall|k: int|
            0 <= k < y.len() implies s.subrange(c + eb.len(), c + esc(t).len() + 1)[k]
            == y[k] by {
            assert(s.subrange(c + eb.len(), c + esc(t).len() + 1)[k] == s[c + eb.len() + k]);
            assert(s[c + eb.len() + k] == x[eb.len() + k]);
            assert(x[eb.len() + k] == y[k]);
        }
        assert(s.subrange(c + eb.len(), c + esc(t).len() + 1) =~= y);
        lemma_str_body_at(s, c + eb.len(), tail);
        if eb.len() == 2 {
            assert(s[c] == BSL);
            assert(s[c + 1] == x[1]);
            assert(x[1] == eb[1]);
            assert(unesc_byte(s[c + 1]) == Option::Some(b));
            assert(p_str_body(s, c) == Option::Some((seq![b] + tail, c + esc(t).len() + 1)));
            assert(seq![b] + tail =~= t);
        } else if eb.len() == 6 {
            assert(b < 0x20);
            assert(s[c] == BSL);
            assert(s[c + 1] == x[1]);
            assert(x[1] == 0x75);
            assert(s[c + 2] == x[2]);
            assert(x[2] == 0x30);
            assert(s[c + 3] == x[3]);
            assert(x[3] == 0x30);
            assert(s[c + 4] == x[4]);
            assert(x[4] == crate::codec::hex_digit((b >> 4) as nat));
            assert(s[c + 5] == x[5]);
            assert(x[5] == crate::codec::hex_digit((b & 0x0f) as nat));
            assert(b >> 4 < 16 && b & 0x0f < 16 && (b >> 4) * 16 + (b & 0x0f) == b)
                by (bit_vector);
            assert(crate::parse::hex_val(s[c + 4]) == Option::Some((b >> 4) as nat));
            assert(crate::parse::hex_val(s[c + 5]) == Option::Some((b & 0x0f) as nat));
            assert((((b >> 4) as nat) * 16 + ((b & 0x0f) as nat)) as u8 == b);
            assert(p_str_body(s, c) == Option::Some((seq![b] + tail, c + esc(t).len() + 1)));
            assert(seq![b] + tail =~= t);
        } else {
            assert(eb == seq![b]);
            assert(s[c] == b);
            assert(b != QU && b != BSL);
            assert(p_str_body(s, c) == Option::Some((seq![b] + tail, c + esc(t).len() + 1)));
            assert(seq![b] + tail =~= t);
        }
    }
}

/// A quoted string token at the cursor parses back to its contents.
pub proof fn lemma_str_at(s: Seq<u8>, c: int, t: Seq<u8>)
    requires
        0 <= c,
        c + qs(t).len() <= s.len(),
        s.subrange(c, c + qs(t).len()) == qs(t),
    ensures
        p_str(s, c) == Option::Some((t, c + qs(t).len())),
{
    lemma_indexes(s, c, qs(t));
    assert(s[c] == qs(t)[0]);
    assert(s[c] == QU);
    let y = esc(t) + seq![QU];
    assert forall|k: int|
        0 <= k < y.len() implies s.subrange(c + 1, c + 1 + esc(t).len() + 1)[k] == y[k] by {
        assert(s.subrange(c + 1, c + 1 + esc(t).len() + 1)[k] == s[c + 1 + k]);
        assert(s[c + 1 + k] == qs(t)[1 + k]);
        assert(qs(t)[1 + k] == (seq![QU] + y)[1 + k]);
        assert((seq![QU] + y)[1 + k] == y[k]);
    }
    assert(s.subrange(c + 1, c + 1 + esc(t).len() + 1) =~= y);
    lemma_str_body_at(s, c + 1, t);
}

/// Left-to-right valuation of a digit run over an accumulator, exactly as
/// the number parser computes it.
pub open spec fn dval(ds: Seq<u8>, acc: nat) -> nat
    decreases ds.len(),
{
    if ds.len() == 0 {
        acc
    } else {
        dval(ds.drop_first(), acc * 10 + (ds.first() - 0x30) as nat)
    }
}

/// The valuation never falls below the accumulator.
pub proof fn lemma_dval_lower(ds: Seq<u8>, acc: nat)
    ensures
        dval(ds, acc) >= acc,
    decreases ds.len(),
{
    if ds.len() > 0 {
        lemma_dval_lower(ds.drop_first(), acc * 10 + (ds.first() - 0x30) as nat);
    }
}

/// Appending a digit multiplies the valuation by ten and adds it.
pub proof fn lemma_dval_snoc(ds: Seq<u8>, d: u8, acc: nat)
    requires
        0x30 <= d,
    ensures
        dval(ds.push(d), acc) == dval(ds, acc) * 10 + (d - 0x30),
    decreases ds.len(),
{
    if ds.len() == 0 {
        assert(ds.push(d).first() == d);
        assert(ds.push(d).drop_first() =~= Seq::<u8>::empty());
        assert(dval(ds.push(d), acc) == dval(
            Seq::<u8>::empty(),
            acc * 10 + (d - 0x30) as nat,
        ));
        assert(dval(Seq::<u8>::empty(), acc * 10 + (d - 0x30) as nat) == acc * 10 + (d
            - 0x30) as nat);
    } else {
        let a2 = acc * 10 + (ds.first() - 0x30) as nat;
        assert(ds.push(d).first() == ds.first());
        assert(ds.push(d).drop_first() =~= ds.drop_first().push(d));
        assert(dval(ds.push(d), acc) == dval(ds.drop_first().push(d), a2));
        lemma_dval_snoc(ds.drop_first(), d, a2);
        assert(dval(ds, acc) == dval(ds.drop_first(), a2));
    }
}

/// Every byte of a decimal representation is a digit.
pub proof fn lemma_dec_rep_digits(n: nat)
    ensures
        forall|k: int| 0 <= k < dec_rep(n).len() ==> is_digit(#[trigger] dec_rep(n)[k]),
        dec_rep(n).len() >= 1,
    decreases n,
{
    if n >= 10 {
        lemma_dec_rep_digits(n / 10);
        assert(forall|k: int|
            0 <= k < dec_rep(n / 10).len() ==> #[trigger] dec_rep(n)[k] == dec_rep(n / 10)[k]);
        assert(dec_rep(n).last() == digit_byte(n % 10));
    }
}

/// The decimal representation values back to the number itself.
pub proof fn lemma_dval_dec_rep(n: nat)
    ensures
        dval(dec_rep(n), 0) == n,
    decreases n,
{
    if n < 10 {
        assert(dec_rep(n) == seq![digit_byte(n)]);
        assert(dec_rep(n).drop_first() =~= Seq::<u8>::empty());
        assert(dval(dec_rep(n), 0) == dval(Seq::<u8>::empty(), (digit_byte(n) - 0x30) as nat));
        assert(digit_byte(n) == (0x30 + n) as u8);
        assert((digit_byte(n) - 0x30) as nat == n);
    } else {
        lemma_dval_dec_rep(n / 10);
        lemma_dval_snoc(dec_rep(n / 10), digit_byte(n % 10), 0);
        assert(dval(dec_rep(n), 0) == dval(dec_rep(n / 10), 0) * 10 + (digit_byte(n % 10)
            - 0x30));
        assert((digit_byte(n % 10) - 0x30) as nat == n % 10);
        assert(n == (n / 10) * 10 + n % 10);
    }
}

/// A digit run at the cursor, ended by a non-digit, accumulates to its
/// valuation.
pub proof fn lemma_u64_rec_at(s: Seq<u8>, c: int, ds: Seq<u8>, acc: nat)
    requires
        0 <= c,
        c + ds.len() <= s.len(),
        s.subrange(c, c + ds.len()) == ds,
        forall|k: int| 0 <= k < ds.len() ==> is_digit(#[trigger] ds[k]),
        c + ds.len() == s.len() || !is_digit(s[c + ds.len()]),
        dval(ds, acc) <= u64::MAX,
    ensures
        p_u64_rec(s, c, acc) == Option::Some((dval(ds, acc) as u64, c + ds.len())),
    decreases ds.len(),
{
    if ds.len() == 0 {
    } else {
        assert(forall|k: int| 0 <= k < ds.len() ==> #[trigger] s[c + k] == ds[k]);
        assert(s[c] == ds.first());
        assert(is_digit(s[c]));
        let a2 = acc * 10 + (s[c] - 0x30) as nat;
        assert(dval(ds, acc) == dval(ds.drop_first(), a2));
        lemma_dval_lower(ds.drop_first(), a2);
        assert(a2 <= u64::MAX);
        assert(s.subrange(c + 1, c + ds.len()) =~= ds.drop_first());
        lemma_u64_rec_at(s, c + 1, ds.drop_first(), a2);
    }
}

/// A decimal number at the cursor, ended by a non-digit, parses back to its
/// value.
pub proof fn lemma_u64_at(s: Seq<u8>, c: int, n: u64)
    requires
        0 <= c,
        c + dec_rep(n as nat).len() <= s.len(),
        s.subrange(c, c + dec_rep(n as nat).len()) == dec_rep(n as nat),
        c + dec_rep(n as nat).len() == s.len() || !is_digit(s[c + dec_rep(n as nat).len()]),
    ensures
        p_u64(s, c) == Option::Some((n, c + dec_rep(n as nat).len())),
{
    lemma_dec_rep_digits(n as nat);
    lemma_dval_dec_rep(n as nat);
    assert(s[c] == dec_rep(n as nat)[0]);
    assert(is_digit(s[c]));
    lemma_u64_rec_at(s, c, dec_rep(n as nat), 0);
}

/// A decimal number that fits `u32` parses back through the narrow parser.
pub proof fn lemma_u32_at(s: Seq<u8>, c: int, n: u32)
    requires
        0 <= c,
        c + dec_rep(n as nat).len() <= s.len(),
        s.subrange(c, c + dec_rep(n as nat).len()) == dec_rep(n as nat),
        c + dec_rep(n as nat).len() == s.len() || !is_digit(s[c + dec_rep(n as nat).len()]),
    ensures
        p_u32(s, c) == Option::Some((n, c + dec_rep(n as nat).len())),
{
    lemma_u64_at(s, c, n as u64);
}

/// A literal whose byte at `k` differs from the input is not recognised at
/// the cursor.
pub proof fn lemma_lit_mismatch_at(s: Seq<u8>, c: int, lit: Seq<u8>, k: int)
    requires
        0 <= c,
        0 <= k < lit.len(),
        c + k < s.len(),
        s[c + k] != lit[k],
    ensures
        p_lit(s, c, lit) is None,
{
    if c + lit.len() <= s.len() && s.subrange(c, c + lit.len()) == lit {
        assert(s.subrange(c, c + lit.len())[k] == s[c + k]);
        assert(false);
    }
}

/// Exactly six digits at the cursor parse back to their value.
pub proof fn lemma_fix6_at(s: Seq<u8>, c: int, fr: u64)
    requires
        fr < 1000000,
        0 <= c,
        c + 6 <= s.len(),
        s.subrange(c, c + 6) == fixw(fr as nat, 6),
    ensures
        p_fix6(s, c) == Option::Some((fr, c + 6)),
{
    let n = fr as nat;
    let n1 = n / 10;
    let n2 = n1 / 10;
    let n3 = n2 / 10;
    let n4 = n3 / 10;
    let n5 = n4 / 10;
    assert(fixw(n, 6) == fixw(n1, 5).push(digit_byte(n % 10)));
    assert(fixw(n1, 5) == fixw(n2, 4).push(digit_byte(n1 % 10)));
    assert(fixw(n2, 4) == fixw(n3, 3).push(digit_byte(n2 % 10)));
    assert(fixw(n3, 3) == fixw(n4, 2).push(digit_byte(n3 % 10)));
    assert(fixw(n4, 2) == fixw(n5, 1).push(digit_byte(n4 % 10)));
    assert(fixw(n5, 1) == fixw(n5 / 10, 0).push(digit_byte(n5 % 10)));
    assert(fixw(n5 / 10, 0) == Seq::<u8>::empty());
    assert(fixw(n, 6)[0] == digit_byte(n5 % 10));
    assert(fixw(n, 6)[1] == digit_byte(n4 % 10));
    assert(fixw(n, 6)[2] == digit_byte(n3 % 10));
    assert(fixw(n, 6)[3] == digit_byte(n2 % 10));
    assert(fixw(n, 6)[4] == digit_byte(n1 % 10));
    assert(fixw(n, 6)[5] == digit_byte(n % 10));
    lemma_indexes(s, c, fixw(n, 6));
    assert(s[c] == digit_byte(n5 % 10));
    assert(s[c + 1] == digit_byte(n4 % 10));
    assert(s[c + 2] == digit_byte(n3 % 10));
    assert(s[c + 3] == digit_byte(n2 % 10));
    assert(s[c + 4] == digit_byte(n1 % 10));
    assert(s[c + 5] == digit_byte(n % 10));
    assert(n5 < 10);
    assert(n == 10 * n1 + n % 10);
    assert(n1 == 10 * n2 + n1 % 10);
    assert(n2 == 10 * n3 + n2 % 10);
    assert(n3 == 10 * n4 + n3 % 10);
    assert(n4 == 10 * n5 + n4 % 10);
    assert(n5 % 10 == n5);
    assert(digit_val(digit_byte(n5 % 10)) == n5 % 10);
    assert(digit_val(digit_byte(n4 % 10)) == n4 % 10);
    assert(digit_val(digit_byte(n3 % 10)) == n3 % 10);
    assert(digit_val(digit_byte(n2 % 10)) == n2 % 10);
    assert(digit_val(digit_byte(n1 % 10)) == n1 % 10);
    assert(digit_val(digit_byte(n % 10)) == n % 10);
    assert(digit_val(s[c]) * 100000 + digit_val(s[c + 1]) * 10000 + digit_val(s[c + 2]) * 1000
        + digit_val(s[c + 3]) * 100 + digit_val(s[c + 4]) * 10 + digit_val(s[c + 5]) == n);
}

/// A six-digit-fraction price at the cursor parses back to its value in
/// millionths.
/// A six-digit field is six bytes long.
pub proof fn lemma_fix6_len(n: nat)
    ensures
        fixw(n, 6).len() == 6,
{
    assert(fixw(n, 6) == fixw(n / 10, 5).push(digit_byte(n % 10)));
    assert(fixw(n / 10, 5) == fixw(n / 10 / 10, 4).push(digit_byte(n / 10 % 10)));
    assert(fixw(n / 10 / 10, 4) == fixw(n / 10 / 10 / 10, 3).push(digit_byte(n / 10 / 10 % 10)));
    assert(fixw(n / 10 / 10 / 10, 3) == fixw(n / 10 / 10 / 10 / 10, 2).push(
        digit_byte(n / 10 / 10 / 10 % 10),
    ));
    assert(fixw(n / 10 / 10 / 10 / 10, 2) == fixw(n / 10 / 10 / 10 / 10 / 10, 1).push(
        digit_byte(n / 10 / 10 / 10 / 10 % 10),
    ));
    assert(fixw(n / 10 / 10 / 10 / 10 / 10, 1) == fixw(n / 10 / 10 / 10 / 10 / 10 / 10, 0).push(
        digit_byte(n / 10 / 10 / 10 / 10 / 10 % 10),
    ));
    assert(fixw(n / 10 / 10 / 10 / 10 / 10 / 10, 0) == Seq::<u8>::empty());
}

/// A six-digit-fraction price at the cursor parses back to its value in
/// millionths.
pub proof fn lemma_price_at(s: Seq<u8>, c: int, micro: u64)
    requires
        0 <= c,
        c + crate::encode::price_rep(micro).len() <= s.len(),
        s.subrange(c, c + crate::encode::price_rep(micro).len()) == crate::encode::price_rep(
            micro,
        ),
    ensures
        p_price(s, c) == Option::Some((micro, c + crate::encode::price_rep(micro).len())),
{
    let ip = micro / 1000000;
    let fr = micro % 1000000;
    let d = dec_rep(ip as nat);
    let f = fixw(fr as nat, 6);
    lemma_fix6_len(fr as nat);
    assert(crate::encode::price_rep(micro) =~= d + (seq![0x2eu8] + f));
    lemma_split(s, c, d, seq![0x2eu8] + f);
    let c1 = c + d.len();
    lemma_split(s, c1, seq![0x2eu8], f);
    lemma_indexes(s, c1, seq![0x2eu8]);
    assert(s[c1] == seq![0x2eu8][0]);
    assert(s[c1] == 0x2e);
    assert(!is_digit(s[c1]));
    lemma_u64_at(s, c, ip);
    lemma_fix6_at(s, c1 + 1, fr);
    assert(ip * 1000000 + fr == micro);
}

/// A quoted string or `null` at the cursor parses back.
pub proof fn lemma_opt_qs_at(s: Seq<u8>, c: int, o: Option<Seq<u8>>)
    requires
        0 <= c,
        c + crate::encode::enc_opt_qs(o).len() <= s.len(),
        s.subrange(c, c + crate::encode::enc_opt_qs(o).len()) == crate::encode::enc_opt_qs(o),
    ensures
        p_qs_or_null(s, c) == Option::Some((o, c + crate::encode::enc_opt_qs(o).len())),
{
    lemma_indexes(s, c, crate::encode::enc_opt_qs(o));
    match o {
        Option::Some(t) => {
            assert(s[c] == crate::encode::enc_opt_qs(o)[0]);
            assert(s[c] == QU);
            lemma_lit_mismatch_at(s, c, crate::encode::lit_null(), 0);
            lemma_str_at(s, c, t);
        },
        Option::None => {
            lemma_lit_at(s, c, crate::encode::lit_null());
        },
    }
}

/// A role/content object at the cursor parses back.
pub proof fn lemma_chat_msg_at(s: Seq<u8>, c: int, m: crate::msg::ChatMsgV)
    requires
        0 <= c,
        c + crate::encode::enc_chat_msg(m).len() <= s.len(),
        s.subrange(c, c + crate::encode::enc_chat_msg(m).len()) == crate::encode::enc_chat_msg(m),
    ensures
        crate::parse::p_chat_msg(s, c) == Option::Some(
            (m, c + crate::encode::enc_chat_msg(m).len()),
        ),
{
    let p1 = crate::encode::role_head();
    let p2 = qs(m.role);
    let p3 = crate::encode::k_content();
    let p4 = qs(m.content);
    let p5 = seq![RB];
    assert(crate::encode::enc_chat_msg(m) =~= p1 + (p2 + (p3 + (p4 + p5))));
    lemma_split(s, c, p1, p2 + (p3 + (p4 + p5)));
    let c1 = c + p1.len();
    lemma_split(s, c1, p2, p3 + (p4 + p5));
    let c2 = c1 + p2.len();
    lemma_split(s, c2, p3, p4 + p5);
    let c3 = c2 + p3.len();
    lemma_split(s, c3, p4, p5);
    let c4 = c3 + p4.len();
    lemma_lit_at(s, c, p1);
    lemma_str_at(s, c1, m.role);
    lemma_lit_at(s, c2, p3);
    lemma_str_at(s, c3, m.content);
    lemma_lit_at(s, c4, p5);
}

/// A token-usage object or `null` at the cursor parses back.
pub proof fn lemma_opt_usage_at(s: Seq<u8>, c: int, u: Option<crate::msg::ChatUsage>)
    requires
        0 <= c,
        c + crate::encode::enc_opt_usage(u).len() <= s.len(),
        s.subrange(c, c + crate::encode::enc_opt_usage(u).len())
            == crate::encode::enc_opt_usage(u),
    ensures
        crate::parse::p_opt_usage(s, c) == Option::Some(
            (u, c + crate::encode::enc_opt_usage(u).len()),
        ),
{
    lemma_indexes(s, c, crate::encode::enc_opt_usage(u));
    match u {
        Option::None => {
            lemma_lit_at(s, c, crate::encode::lit_null());
        },
        Option::Some(us) => {
            assert(s[c] == crate::encode::enc_opt_usage(u)[0]);
            assert(s[c] == crate::codec::LB);
            lemma_lit_mismatch_at(s, c, crate::encode::lit_null(), 0);
            let p1 = crate::encode::ptok_head();
            let p2 = dec_rep(us.prompt_tokens as nat);
            let p3 = crate::encode::k_ctok();
            let p4 = dec_rep(us.completion_tokens as nat);
            let p5 = crate::encode::k_ttok();
            let p6 = dec_rep(us.total_tokens as nat);
            let p7 = seq![RB];
            assert(crate::encode::enc_usage(us) =~= p1 + (p2 + (p3 + (p4 + (p5 + (p6 + p7))))));
            lemma_split(s, c, p1, p2 + (p3 + (p4 + (p5 + (p6 + p7)))));
            let c1 = c + p1.len();
            lemma_split(s, c1, p2, p3 + (p4 + (p5 + (p6 + p7))));
            let c2 = c1 + p2.len();
            lemma_split(s, c2, p3, p4 + (p5 + (p6 + p7)));
            let c3 = c2 + p3.len();
            lemma_split(s, c3, p4, p5 + (p6 + p7));
            let c4 = c3 + p4.len();
            lemma_split(s, c4, p5, p6 + p7);
            let c5 = c4 + p5.len();
            lemma_split(s, c5, p6, p7);
            let c6 = c5 + p6.len();
            lemma_lit_at(s, c, p1);
            lemma_indexes(s, c2, p3);
            lemma_indexes(s, c5, p6);
            lemma_indexes(s, c4, p5);
            lemma_indexes(s, c6, p7);
            assert(s[c2] == p3[0]);
            assert(s[c2] == CM);
            assert(!is_digit(s[c2]));
            lemma_u32_at(s, c1, us.prompt_tokens);
            assert(s[c4] == p5[0]);
            assert(s[c4] == CM);
            assert(!is_digit(s[c4]));
            lemma_u32_at(s, c3, us.completion_tokens);
            assert(s[c6] == p7[0]);
            assert(s[c6] == RB);
            assert(!is_digit(s[c6]));
            lemma_u32_at(s, c5, us.total_tokens);
            lemma_lit_at(s, c2, p3);
            lemma_lit_at(s, c4, p5);
            lemma_lit_at(s, c6, p7);
        },
    }
}

/// A completion-choice object at the cursor parses back.
pub proof fn lemma_choice_at(s: Seq<u8>, c: int, ch: crate::msg::ChatChoiceV)
    requires
        0 <= c,
        c + crate::encode::enc_choice(ch).len() <= s.len(),
        s.subrange(c, c + crate::encode::enc_choice(ch).len()) == crate::encode::enc_choice(ch),
    ensures
        crate::parse::p_choice(s, c) == Option::Some(
            (ch, c + crate::encode::enc_choice(ch).len()),
        ),
{
    let p1 = crate::encode::index_head();
    let p2 = dec_rep(ch.index as nat);
    let p3 = crate::encode::k_message();
    let p4 = crate::encode::enc_chat_msg(ch.message);
    let p5 = crate::encode::k_finish();
    let p6 = crate::encode::enc_opt_qs(ch.finish_reason);
    let p7 = seq![RB];
    assert(crate::encode::enc_choice(ch) =~= p1 + (p2 + (p3 + (p4 + (p5 + (p6 + p7))))));
    lemma_split(s, c, p1, p2 + (p3 + (p4 + (p5 + (p6 + p7)))));
    let c1 = c + p1.len();
    lemma_split(s, c1, p2, p3 + (p4 + (p5 + (p6 + p7))));
    let c2 = c1 + p2.len();
    lemma_split(s, c2, p3, p4 + (p5 + (p6 + p7)));
    let c3 = c2 + p3.len();
    lemma_split(s, c3, p4, p5 + (p6 + p7));
    let c4 = c3 + p4.len();
    lemma_split(s, c4, p5, p6 + p7);
    let c5 = c4 + p5.len();
    lemma_split(s, c5, p6, p7);
    let c6 = c5 + p6.len();
    lemma_lit_at(s, c, p1);
    lemma_indexes(s, c2, p3);
    assert(s[c2] == p3[0]);
    assert(s[c2] == CM);
    assert(!is_digit(s[c2]));
    lemma_u32_at(s, c1, ch.index);
    lemma_lit_at(s, c2, p3);
    lemma_chat_msg_at(s, c3, ch.message);
    lemma_lit_at(s, c4, p5);
    lemma_opt_qs_at(s, c5, ch.finish_reason);
    lemma_lit_at(s, c6, p7);
}

/// The field-by-field layout of an encoded prompt-outcome object at `c`.
pub open spec fn prompt_result_layout(s: Seq<u8>, c: int, p: crate::msg::PromptResultV) -> bool {
    let p1 = crate::encode::pr_head();
    let p2 = qs(p.prompt_id);
    let p3 = crate::encode::k_response();
    let p4 = qs(p.response);
    let p5 = crate::encode::k_ttft();
    let p6 = dec_rep(p.ttft_ms as nat);
    let p7 = crate::encode::k_total();
    let p8 = dec_rep(p.total_ms as nat);
    let p9 = crate::encode::k_tokgen();
    let p10 = dec_rep(p.tokens_generated as nat);
    let ptail = (match p.error {
        Option::Some(e) => crate::encode::k_error() + qs(e),
        Option::None => Seq::<u8>::empty(),
    }) + seq![RB];
    let c1 = c + p1.len();
    let c2 = c1 + p2.len();
    let c3 = c2 + p3.len();
    let c4 = c3 + p4.len();
    let c5 = c4 + p5.len();
    let c6 = c5 + p6.len();
    let c7 = c6 + p7.len();
    let c8 = c7 + p8.len();
    let c9 = c8 + p9.len();
    let c10 = c9 + p10.len();
    &&& 0 <= c
    &&& c10 + ptail.len() <= s.len()
    &&& s.subrange(c, c1) == p1
    &&& s.subrange(c1, c2) == p2
    &&& s.subrange(c2, c3) == p3
    &&& s.subrange(c3, c4) == p4
    &&& s.subrange(c4, c5) == p5
    &&& s.subrange(c5, c6) == p6
    &&& s.subrange(c6, c7) == p7
    &&& s.subrange(c7, c8) == p8
    &&& s.subrange(c8, c9) == p9
    &&& s.subrange(c9, c10) == p10
    &&& s.subrange(c10, c10 + ptail.len()) == ptail
}

/// An encoded prompt-outcome object has its fields laid out in order.
#[verifier::rlimit(100)]
#[verifier::spinoff_prover]
proof fn lemma_prompt_result_layout(s: Seq<u8>, c: int, p: crate::msg::PromptResultV)
    requires
        0 <= c,
        c + crate::encode::enc_prompt_result(p).len() <= s.len(),
        s.subrange(c, c + crate::encode::enc_prompt_result(p).len())
            == crate::encode::enc_prompt_result(p),
    ensures
        prompt_result_layout(s, c, p),
        crate::encode::enc_prompt_result(p).len() == crate::encode::pr_head().len() + qs(
            p.prompt_id,
        ).len() + crate::encode::k_response().len() + qs(p.response).len()
            + crate::encode::k_ttft().len() + dec_rep(p.ttft_ms as nat).len()
            + crate::encode::k_total().len() + dec_rep(p.total_ms as nat).len()
            + crate::encode::k_tokgen().len() + dec_rep(p.tokens_generated as nat).len() + (
        match p.error {
            Option::Some(e) => crate::encode::k_error() + qs(e),
            Option::None => Seq::<u8>::empty(),
        }).len() + 1,
{
    let p1 = crate::encode::pr_head();
    let p2 = qs(p.prompt_id);
    let p3 = crate::encode::k_response();
    let p4 = qs(p.response);
    let p5 = crate::encode::k_ttft();
    let p6 = dec_rep(p.ttft_ms as nat);
    let p7 = crate::encode::k_total();
    let p8 = dec_rep(p.total_ms as nat);
    let p9 = crate::encode::k_tokgen();
    let p10 = dec_rep(p.tokens_generated as nat);
    let pe = (match p.error {
        Option::Some(e) => crate::encode::k_error() + qs(e),
        Option::None => Seq::<u8>::empty(),
    });
    let ptail = pe + seq![RB];
    assert(crate::encode::enc_prompt_result(p) == p1 + p2 + p3 + p4 + p5 + p6 + p7 + p8 + p9
        + p10 + pe + seq![RB]);
    assert(p1 + p2 + p3 + p4 + p5 + p6 + p7 + p8 + p9 + p10 + pe + seq![RB] =~= p1 + p2 + p3
        + p4 + p5 + p6 + p7 + p8 + p9 + p10 + ptail);
    lemma_split(
        s,
        c,
        p1 + p2 + p3 + p4 + p5 + p6 + p7 + p8 + p9 + p10,
        ptail,
    );
    lemma_split(s, c, p1 + p2 + p3 + p4 + p5 + p6 + p7 + p8 + p9, p10);
    lemma_split(s, c, p1 + p2 + p3 + p4 + p5 + p6 + p7 + p8, p9);
    lemma_split(s, c, p1 + p2 + p3 + p4 + p5 + p6 + p7, p8);
    lemma_split(s, c, p1 + p2 + p3 + p4 + p5 + p6, p7);
    lemma_split(s, c, p1 + p2 + p3 + p4 + p5, p6);
    lemma_split(s, c, p1 + p2 + p3 + p4, p5);
    lemma_split(s, c, p1 + p2 + p3, p4);
    lemma_split(s, c, p1 + p2, p3);
    lemma_split(s, c, p1, p2);
}

/// A prompt-outcome object at the cursor parses back.
#[verifier::rlimit(100)]
#[verifier::spinoff_prover]
pub proof fn lemma_prompt_result_at(s: Seq<u8>, c: int, p: crate::msg::PromptResultV)
    requires
        0 <= c,
        c + crate::encode::enc_prompt_result(p).len() <= s.len(),
        s.subrange(c, c + crate::encode::enc_prompt_result(p).len())
            == crate::encode::enc_prompt_result(p),
    ensures
        crate::parse::p_prompt_result(s, c) == Option::Some(
            (p, c + crate::encode::enc_prompt_result(p).len()),
        ),
{
    lemma_prompt_result_layout(s, c, p);
    let p1 = crate::encode::pr_head();
    let p2 = qs(p.prompt_id);
    let p3 = crate::encode::k_response();
    let p4 = qs(p.response);
    let p5 = crate::encode::k_ttft();
    let p6 = dec_rep(p.ttft_ms as nat);
    let p7 = crate::encode::k_total();
    let p8 = dec_rep(p.total_ms as nat);
    let p9 = crate::encode::k_tokgen();
    let p10 = dec_rep(p.tokens_generated as nat);
    let ptail = (match p.error {
        Option::Some(e) => crate::encode::k_error() + qs(e),
        Option::None => Seq::<u8>::empty(),
    }) + seq![RB];
    let c1 = c + p1.len();
    let c2 = c1 + p2.len();
    let c3 = c2 + p3.len();
    let c4 = c3 + p4.len();
    let c5 = c4 + p5.len();
    let c6 = c5 + p6.len();
    let c7 = c6 + p7.len();
    let c8 = c7 + p8.len();
    let c9 = c8 + p9.len();
    let c10 = c9 + p10.len();
    lemma_lit_at(s, c, p1);
    lemma_str_at(s, c1, p.prompt_id);
    lemma_lit_at(s, c2, p3);
    lemma_str_at(s, c3, p.response);
    lemma_lit_at(s, c4, p5);
    lemma_indexes(s, c6, p7);
    assert(s[c6] == p7[0]);
    assert(!is_digit(s[c6]));
    lemma_u32_at(s, c5, p.ttft_ms);
    lemma_lit_at(s, c6, p7);
    lemma_indexes(s, c8, p9);
    assert(s[c8] == p9[0]);
    assert(!is_digit(s[c8]));
    lemma_u32_at(s, c7, p.total_ms);
    lemma_lit_at(s, c8, p9);
    lemma_indexes(s, c10, ptail);
    assert(s[c10] == ptail[0]);
    assert(!is_digit(s[c10]));
    lemma_u32_at(s, c9, p.tokens_generated);
    match p.error {
        Option::Some(e) => {
            let q1 = crate::encode::k_error();
            let q2 = qs(e);
            assert(ptail =~= q1 + (q2 + seq![RB]));
            lemma_split(s, c10, q1, q2 + seq![RB]);
            let c11 = c10 + q1.len();
            lemma_split(s, c11, q2, seq![RB]);
            let c12 = c11 + q2.len();
            lemma_lit_at(s, c10, q1);
            lemma_str_at(s, c11, e);
            lemma_lit_at(s, c12, seq![RB]);
        },
        Option::None => {
            assert(ptail =~= seq![RB]);
            assert(s[c10] == RB);
            lemma_lit_mismatch_at(s, c10, crate::encode::k_error(), 0);
            lemma_lit_at(s, c10, seq![RB]);
        },
    }
}

/// A string array's members at the cursor, closed by a bracket, parse back.
pub proof fn lemma_str_items_at(s: Seq<u8>, c: int, l: Seq<Seq<u8>>)
    requires
        0 <= c,
        c + crate::encode::enc_str_items(l).len() + 1 <= s.len(),
        s.subrange(c, c + crate::encode::enc_str_items(l).len() + 1)
            == crate::encode::enc_str_items(l) + seq![RS],
    ensures
        crate::parse::p_str_items(s, c) == Option::Some(
            (l, c + crate::encode::enc_str_items(l).len() + 1),
        ),
    decreases l.len(),
{
    lemma_indexes(s, c, crate::encode::enc_str_items(l) + seq![RS]);
    if l.len() == 0 {
        assert(s[c] == (crate::encode::enc_str_items(l) + seq![RS])[0]);
        assert(s[c] == RS);
        lemma_lit_at(s, c, seq![RS]);
        assert(l =~= Seq::<Seq<u8>>::empty());
    } else {
        let t = l.first();
        let rest = l.drop_first();
        assert(crate::encode::enc_str_items(l) == qs(t) + crate::encode::enc_str_rest(rest));
        assert(s[c] == (crate::encode::enc_str_items(l) + seq![RS])[0]);
        assert(s[c] == QU);
        lemma_lit_mismatch_at(s, c, seq![RS], 0);
        if rest.len() == 0 {
            assert(crate::encode::enc_str_rest(rest) == Seq::<u8>::empty());
            assert(crate::encode::enc_str_items(l) + seq![RS] =~= qs(t) + seq![RS]);
            lemma_split(s, c, qs(t), seq![RS]);
            let c1 = c + qs(t).len();
            lemma_str_at(s, c, t);
            lemma_indexes(s, c1, seq![RS]);
            assert(s[c1] == seq![RS][0]);
            assert(s[c1] != CM);
            lemma_lit_at(s, c1, seq![RS]);
            assert(seq![t] =~= l);
        } else {
            assert(crate::encode::enc_str_rest(rest) == seq![CM] + qs(rest.first())
                + crate::encode::enc_str_rest(rest.drop_first()));
            assert(crate::encode::enc_str_items(rest) == qs(rest.first())
                + crate::encode::enc_str_rest(rest.drop_first()));
            assert(crate::encode::enc_str_items(l) + seq![RS] =~= qs(t) + (seq![CM]
                + (crate::encode::enc_str_items(rest) + seq![RS])));
            lemma_split(s, c, qs(t), seq![CM] + (crate::encode::enc_str_items(rest) + seq![RS]));
            let c1 = c + qs(t).len();
            lemma_split(s, c1, seq![CM], crate::encode::enc_str_items(rest) + seq![RS]);
            let c2 = c1 + 1;
            lemma_str_at(s, c, t);
            lemma_indexes(s, c1, seq![CM]);
            assert(s[c1] == seq![CM][0]);
            assert(s[c1] == CM);
            lemma_str_items_at(s, c2, rest);
            assert(seq![t] + rest =~= l);
        }
    }
}

/// A choice array's members at the cursor, closed by a bracket, parse back.
#[verifier::rlimit(100)]
#[verifier::spinoff_prover]
pub proof fn lemma_choice_items_at(s: Seq<u8>, c: int, l: Seq<crate::msg::ChatChoiceV>)
    requires
        0 <= c,
        c + crate::encode::enc_choice_items(l).len() + 1 <= s.len(),
        s.subrange(c, c + crate::encode::enc_choice_items(l).len() + 1)
            == crate::encode::enc_choice_items(l) + seq![RS],
    ensures
        crate::parse::p_choice_items(s, c) == Option::Some(
            (l, c + crate::encode::enc_choice_items(l).len() + 1),
        ),
    decreases l.len(),
{
    lemma_indexes(s, c, crate::encode::enc_choice_items(l) + seq![RS]);
    if l.len() == 0 {
        assert(s[c] == (crate::encode::enc_choice_items(l) + seq![RS])[0]);
        assert(s[c] == RS);
        lemma_lit_at(s, c, seq![RS]);
        assert(l =~= Seq::<crate::msg::ChatChoiceV>::empty());
    } else {
        let t = l.first();
        let rest = l.drop_first();
        assert(crate::encode::enc_choice_items(l) == crate::encode::enc_choice(t)
            + crate::encode::enc_choice_rest(rest));
        assert(s[c] == (crate::encode::enc_choice_items(l) + seq![RS])[0]);
        assert(s[c] == (crate::encode::enc_choice(t))[0]);
        assert(s[c] == crate::codec::LB);
        lemma_lit_mismatch_at(s, c, seq![RS], 0);
        if rest.len() == 0 {
            assert(crate::encode::enc_choice_rest(rest) == Seq::<u8>::empty());
            assert(crate::encode::enc_choice_items(l) + seq![RS] =~= crate::encode::enc_choice(t)
                + seq![RS]);
            lemma_split(s, c, crate::encode::enc_choice(t), seq![RS]);
            let c1 = c + crate::encode::enc_choice(t).len();
            lemma_choice_at(s, c, t);
            lemma_indexes(s, c1, seq![RS]);
            assert(s[c1] == seq![RS][0]);
            assert(s[c1] != CM);
            lemma_lit_at(s, c1, seq![RS]);
            assert(seq![t] =~= l);
        } else {
            assert(crate::encode::enc_choice_rest(rest) == seq![CM] + crate::encode::enc_choice(
                rest.first(),
            ) + crate::encode::enc_choice_rest(rest.drop_first()));
            assert(crate::encode::enc_choice_items(rest) == crate::encode::enc_choice(
                rest.first(),
            ) + crate::encode::enc_choice_rest(rest.drop_first()));
            assert(crate::encode::enc_choice_items(l) + seq![RS]
                =~= crate::encode::enc_choice(t) + (seq![CM]
                + (crate::encode::enc_choice_items(rest) + seq![RS])));
            lemma_split(
                s,
                c,
                crate::encode::enc_choice(t),
                seq![CM] + (crate::encode::enc_choice_items(rest) + seq![RS]),
            );
            let c1 = c + crate::encode::enc_choice(t).len();
            lemma_split(s, c1, seq![CM], crate::encode::enc_choice_items(rest) + seq![RS]);
            let c2 = c1 + 1;
            lemma_choice_at(s, c, t);
            lemma_indexes(s, c1, seq![CM]);
            assert(s[c1] == seq![CM][0]);
            assert(s[c1] == CM);
            lemma_choice_items_at(s, c2, rest);
            assert(seq![t] + rest =~= l);
        }
    }
}

/// A prompt-outcome array's members at the cursor, closed by a bracket,
/// parse back.
#[verifier::rlimit(100)]
#[verifier::spinoff_prover]
pub proof fn lemma_result_items_at(s: Seq<u8>, c: int, l: Seq<crate::msg::PromptResultV>)
    requires
        0 <= c,
        c + crate::encode::enc_result_items(l).len() + 1 <= s.len(),
        s.subrange(c, c + crate::encode::enc_result_items(l).len() + 1)
            == crate::encode::enc_result_items(l) + seq![RS],
    ensures
        crate::parse::p_result_items(s, c) == Option::Some(
            (l, c + crate::encode::enc_result_items(l).len() + 1),
        ),
    decreases l.len(),
{
    lemma_indexes(s, c, crate::encode::enc_result_items(l) + seq![RS]);
    if l.len() == 0 {
        assert(s[c] == (crate::encode::enc_result_items(l) + seq![RS])[0]);
        assert(s[c] == RS);
        lemma_lit_at(s, c, seq![RS]);
        assert(l =~= Seq::<crate::msg::PromptResultV>::empty());
    } else {
        let t = l.first();
        let rest = l.drop_first();
        assert(crate::encode::enc_result_items(l) == crate::encode::enc_prompt_result(t)
            + crate::encode::enc_result_rest(rest));
        assert(s[c] == (crate::encode::enc_result_items(l) + seq![RS])[0]);
        assert(s[c] == (crate::encode::enc_prompt_result(t))[0]);
        assert(s[c] == crate::codec::LB);
        lemma_lit_mismatch_at(s, c, seq![RS], 0);
        if rest.len() == 0 {
            assert(crate::encode::enc_result_rest(rest) == Seq::<u8>::empty());
            assert(crate::encode::enc_result_items(l) + seq![RS]
                =~= crate::encode::enc_prompt_result(t) + seq![RS]);
            lemma_split(s, c, crate::encode::enc_prompt_result(t), seq![RS]);
            let c1 = c + crate::encode::enc_prompt_result(t).len();
            lemma_prompt_result_at(s, c, t);
            lemma_indexes(s, c1, seq![RS]);
            assert(s[c1] == seq![RS][0]);
            assert(s[c1] != CM);
            lemma_lit_at(s, c1, seq![RS]);
            assert(seq![t] =~= l);
        } else {
            assert(crate::encode::enc_result_rest(rest) == seq![CM]
                + crate::encode::enc_prompt_result(rest.first())
                + crate::encode::enc_result_rest(rest.drop_first()));
            assert(crate::encode::enc_result_items(rest) == crate::encode::enc_prompt_result(
                rest.first(),
            ) + crate::encode::enc_result_rest(rest.drop_first()));
            assert(crate::encode::enc_result_items(l) + seq![RS]
                =~= crate::encode::enc_prompt_result(t) + (seq![CM]
                + (crate::encode::enc_result_items(rest) + seq![RS])));
            lemma_split(
                s,
                c,
                crate::encode::enc_prompt_result(t),
                seq![CM] + (crate::encode::enc_result_items(rest) + seq![RS]),
            );
            let c1 = c + crate::encode::enc_prompt_result(t).len();
            lemma_split(s, c1, seq![CM], crate::encode::enc_result_items(rest) + seq![RS]);
            let c2 = c1 + 1;
            lemma_prompt_result_at(s, c, t);
            lemma_indexes(s, c1, seq![CM]);
            assert(s[c1] == seq![CM][0]);
            assert(s[c1] == CM);
            lemma_result_items_at(s, c2, rest);
            assert(seq![t] + rest =~= l);
        }
    }
}

/// A completion-reply object at the cursor parses back.
#[verifier::rlimit(100)]
#[verifier::spinoff_prover]
pub proof fn lemma_chat_resp_at(s: Seq<u8>, c: int, r: crate::msg::ChatRespV)
    requires
        0 <= c,
        c + crate::encode::enc_chat_resp(r).len() <= s.len(),
        s.subrange(c, c + crate::encode::enc_chat_resp(r).len())
            == crate::encode::enc_chat_resp(r),
    ensures
        crate::parse::p_chat_resp(s, c) == Option::Some(
            (r, c + crate::encode::enc_chat_resp(r).len()),
        ),
{
    let p1 = crate::encode::choices_head();
    let p2 = seq![crate::codec::LS];
    let p3 = crate::encode::enc_choice_items(r.choices) + seq![RS];
    let p4 = crate::encode::k_usage();
    let p5 = crate::encode::enc_opt_usage(r.usage);
    let p6 = crate::encode::k_model();
    let p7 = qs(r.model);
    let p8 = seq![RB];
    assert(crate::encode::enc_chat_resp(r) =~= p1 + (p2 + (p3 + (p4 + (p5 + (p6 + (p7
        + p8)))))));
    lemma_split(s, c, p1, p2 + (p3 + (p4 + (p5 + (p6 + (p7 + p8))))));
    let c1 = c + p1.len();
    lemma_split(s, c1, p2, p3 + (p4 + (p5 + (p6 + (p7 + p8)))));
    let c2 = c1 + p2.len();
    lemma_split(s, c2, p3, p4 + (p5 + (p6 + (p7 + p8))));
    let c3 = c2 + p3.len();
    lemma_split(s, c3, p4, p5 + (p6 + (p7 + p8)));
    let c4 = c3 + p4.len();
    lemma_split(s, c4, p5, p6 + (p7 + p8));
    let c5 = c4 + p5.len();
    lemma_split(s, c5, p6, p7 + p8);
    let c6 = c5 + p6.len();
    lemma_split(s, c6, p7, p8);
    let c7 = c6 + p7.len();
    lemma_lit_at(s, c, p1);
    lemma_lit_at(s, c1, p2);
    lemma_choice_items_at(s, c2, r.choices);
    lemma_lit_at(s, c3, p4);
    lemma_opt_usage_at(s, c4, r.usage);
    lemma_lit_at(s, c5, p6);
    lemma_str_at(s, c6, r.model);
    lemma_lit_at(s, c7, p8);
}

/// An encoded AUTH frame parses back whole.
#[verifier::rlimit(100)]
#[verifier::spinoff_prover]
proof fn lemma_auth_whole(s: Seq<u8>, cid: Seq<u8>, ts: Seq<u8>, sg: Seq<u8>)
    requires
        s == crate::encode::enc_client(
            crate::msg::ClientMessageV::Auth { client_id: cid, timestamp: ts, signature: sg },
        ),
    ensures
        crate::parse::pc_auth(s) == Option::Some(
            crate::msg::ClientMessageV::Auth { client_id: cid, timestamp: ts, signature: sg },
        ),
{
    reveal(crate::parse::pc_auth);
    let p1 = crate::encode::auth_head();
    let p2 = qs(cid);
    let p3 = crate::encode::k_timestamp();
    let p4 = qs(ts);
    let p5 = crate::encode::k_signature();
    let p6 = qs(sg);
    let p7 = seq![RB];
    assert(s =~= p1 + (p2 + (p3 + (p4 + (p5 + (p6 + p7))))));
    assert(s.subrange(0, s.len() as int) =~= s);
    lemma_split(s, 0, p1, p2 + (p3 + (p4 + (p5 + (p6 + p7)))));
    let c1 = p1.len() as int;
    lemma_split(s, c1, p2, p3 + (p4 + (p5 + (p6 + p7))));
    let c2 = c1 + p2.len();
    lemma_split(s, c2, p3, p4 + (p5 + (p6 + p7)));
    let c3 = c2 + p3.len();
    lemma_split(s, c3, p4, p5 + (p6 + p7));
    let c4 = c3 + p4.len();
    lemma_split(s, c4, p5, p6 + p7);
    let c5 = c4 + p5.len();
    lemma_split(s, c5, p6, p7);
    let c6 = c5 + p6.len();
    lemma_lit_at(s, 0, p1);
    lemma_str_at(s, c1, cid);
    lemma_lit_at(s, c2, p3);
    lemma_str_at(s, c3, ts);
    lemma_lit_at(s, c4, p5);
    lemma_str_at(s, c5, sg);
    lemma_lit_at(s, c6, p7);
}

/// An encoded UPDATE_WALLET frame parses back whole.
#[verifier::rlimit(100)]
#[verifier::spinoff_prover]
proof fn lemma_wallet_whole(s: Seq<u8>, addr: Seq<u8>)
    requires
        s == crate::encode::enc_client(
            crate::msg::ClientMessageV::UpdateWallet { payout_address: addr },
        ),
    ensures
        crate::parse::pc_wallet(s) == Option::Some(
            crate::msg::ClientMessageV::UpdateWallet { payout_address: addr },
        ),
{
    reveal(crate::parse::pc_wallet);
    let p1 = crate::encode::wallet_head();
    let p2 = qs(addr);
    let p3 = seq![RB];
    assert(s =~= p1 + (p2 + p3));
    assert(s.subrange(0, s.len() as int) =~= s);
    lemma_split(s, 0, p1, p2 + p3);
    let c1 = p1.len() as int;
    lemma_split(s, c1, p2, p3);
    let c2 = c1 + p2.len();
    lemma_lit_at(s, 0, p1);
    lemma_str_at(s, c1, addr);
    lemma_lit_at(s, c2, p3);
}

/// The field-by-field layout of an encoded REGISTER_NODE frame.
pub open spec fn register_layout(
    s: Seq<u8>,
    alias: Seq<u8>,
    models: Seq<Seq<u8>>,
    capacity: u32,
    region: Seq<u8>,
    price_micro: u64,
) -> bool {
    let p1 = crate::encode::register_head();
    let p2 = qs(alias);
    let p3 = crate::encode::k_models();
    let pv = crate::encode::enc_str_items(models);
    let p6 = crate::encode::k_capacity();
    let p7 = dec_rep(capacity as nat);
    let p8 = crate::encode::k_region();
    let p9 = qs(region);
    let p10 = crate::encode::k_price();
    let p11 = crate::encode::price_rep(price_micro);
    let c1 = p1.len() as int;
    let c2 = c1 + p2.len();
    let c3 = c2 + p3.len();
    let c4 = c3 + 1;
    let c5 = c4 + pv.len() + 1;
    let c6 = c5 + p6.len();
    let c7 = c6 + p7.len();
    let c8 = c7 + p8.len();
    let c9 = c8 + p9.len();
    let c10 = c9 + p10.len();
    let c11 = c10 + p11.len();
    &&& s.len() == c11 + 1
    &&& s.subrange(0, c1) == p1
    &&& s.subrange(c1, c2) == p2
    &&& s.subrange(c2, c3) == p3
    &&& s.subrange(c3, c4) == seq![crate::codec::LS]
    &&& s.subrange(c4, c5) == pv + seq![RS]
    &&& s.subrange(c5, c6) == p6
    &&& s.subrange(c6, c7) == p7
    &&& s.subrange(c7, c8) == p8
    &&& s.subrange(c8, c9) == p9
    &&& s.subrange(c9, c10) == p10
    &&& s.subrange(c10, c11) == p11
    &&& s.subrange(c11, c11 + 1) == seq![RB]
}

/// An encoded REGISTER_NODE frame has its fields laid out in order.
#[verifier::rlimit(100)]
#[verifier::spinoff_prover]
proof fn lemma_register_layout(
    s: Seq<u8>,
    alias: Seq<u8>,
    models: Seq<Seq<u8>>,
    capacity: u32,
    region: Seq<u8>,
    price_micro: u64,
)
    requires
        s == crate::encode::enc_client(
            crate::msg::ClientMessageV::RegisterNode {
                alias,
                models,
                capacity,
                region,
                price_micro,
            },
        ),
    ensures
        register_layout(s, alias, models, capacity, region, price_micro),
{
    let p1 = crate::encode::register_head();
    let p2 = qs(alias);
    let p3 = crate::encode::k_models();
    let p4 = seq![crate::codec::LS];
    let pi = crate::encode::enc_str_items(models);
    let pr = seq![RS];
    let p6 = crate::encode::k_capacity();
    let p7 = dec_rep(capacity as nat);
    let p8 = crate::encode::k_region();
    let p9 = qs(region);
    let p10 = crate::encode::k_price();
    let p11 = crate::encode::price_rep(price_micro);
    let p12 = seq![RB];
    assert(s == p1 + p2 + p3 + p4 + pi + pr + p6 + p7 + p8 + p9 + p10 + p11 + p12);
    assert(s.subrange(0, s.len() as int) =~= s);
    lemma_split(s, 0, p1 + p2 + p3 + p4 + pi + pr + p6 + p7 + p8 + p9 + p10 + p11, p12);
    lemma_split(s, 0, p1 + p2 + p3 + p4 + pi + pr + p6 + p7 + p8 + p9 + p10, p11);
    lemma_split(s, 0, p1 + p2 + p3 + p4 + pi + pr + p6 + p7 + p8 + p9, p10);
    lemma_split(s, 0, p1 + p2 + p3 + p4 + pi + pr + p6 + p7 + p8, p9);
    lemma_split(s, 0, p1 + p2 + p3 + p4 + pi + pr + p6 + p7, p8);
    lemma_split(s, 0, p1 + p2 + p3 + p4 + pi + pr + p6, p7);
    lemma_split(s, 0, p1 + p2 + p3 + p4 + pi + pr, p6);
    lemma_split(s, 0, p1 + p2 + p3 + p4 + pi, pr);
    lemma_split(s, 0, p1 + p2 + p3 + p4, pi);
    lemma_split(s, 0, p1 + p2 + p3, p4);
    lemma_split(s, 0, p1 + p2, p3);
    lemma_split(s, 0, p1, p2);
    lemma_join(s, p1.len() as int + p2.len() + p3.len() + 1, pi, pr);
}

/// An encoded REGISTER_NODE frame parses back whole.
#[verifier::rlimit(100)]
#[verifier::spinoff_prover]
proof fn lemma_register_whole(
    s: Seq<u8>,
    alias: Seq<u8>,
    models: Seq<Seq<u8>>,
    capacity: u32,
    region: Seq<u8>,
    price_micro: u64,
)
    requires
        register_layout(s, alias, models, capacity, region, price_micro),
    ensures
        crate::parse::pc_register(s) == Option::Some(
            crate::msg::ClientMessageV::RegisterNode {
                alias,
                models,
                capacity,
                region,
                price_micro,
            },
        ),
{
    reveal(crate::parse::pc_register);
    let p1 = crate::encode::register_head();
    let p2 = qs(alias);
    let p3 = crate::encode::k_models();
    let pv = crate::encode::enc_str_items(models);
    let p6 = crate::encode::k_capacity();
    let p7 = dec_rep(capacity as nat);
    let p8 = crate::encode::k_region();
    let p9 = qs(region);
    let p10 = crate::encode::k_price();
    let p11 = crate::encode::price_rep(price_micro);
    let c1 = p1.len() as int;
    let c2 = c1 + p2.len();
    let c3 = c2 + p3.len();
    let c4 = c3 + 1;
    let c5 = c4 + pv.len() + 1;
    let c6 = c5 + p6.len();
    let c7 = c6 + p7.len();
    let c8 = c7 + p8.len();
    let c9 = c8 + p9.len();
    let c10 = c9 + p10.len();
    let c11 = c10 + p11.len();
    lemma_lit_at(s, 0, p1);
    lemma_str_at(s, c1, alias);
    lemma_lit_at(s, c2, p3);
    lemma_lit_at(s, c3, seq![crate::codec::LS]);
    lemma_str_items_at(s, c4, models);
    lemma_lit_at(s, c5, p6);
    lemma_indexes(s, c7, p8);
    assert(s[c7] == p8[0]);
    assert(!is_digit(s[c7]));
    lemma_u32_at(s, c6, capacity);
    lemma_lit_at(s, c7, p8);
    lemma_str_at(s, c8, region);
    lemma_lit_at(s, c9, p10);
    lemma_price_at(s, c10, price_micro);
    lemma_lit_at(s, c11, seq![RB]);
}

/// An encoded INFERENCE_RESPONSE frame parses back whole.
#[verifier::rlimit(100)]
#[verifier::spinoff_prover]
proof fn lemma_response_whole(s: Seq<u8>, rid: Seq<u8>, result: crate::msg::ChatRespV)
    requires
        s == crate::encode::enc_client(
            crate::msg::ClientMessageV::InferenceResponse { request_id: rid, result },
        ),
    ensures
        crate::parse::pc_response(s) == Option::Some(
            crate::msg::ClientMessageV::InferenceResponse { request_id: rid, result },
        ),
{
    reveal(crate::parse::pc_response);
    let p1 = crate::encode::resp_head();
    let p2 = qs(rid);
    let p3 = crate::encode::k_result();
    let p4 = crate::encode::enc_chat_resp(result);
    let p5 = seq![RB];
    assert(s =~= p1 + (p2 + (p3 + (p4 + p5))));
    assert(s.subrange(0, s.len() as int) =~= s);
    lemma_split(s, 0, p1, p2 + (p3 + (p4 + p5)));
    let c1 = p1.len() as int;
    lemma_split(s, c1, p2, p3 + (p4 + p5));
    let c2 = c1 + p2.len();
    lemma_split(s, c2, p3, p4 + p5);
    let c3 = c2 + p3.len();
    lemma_split(s, c3, p4, p5);
    let c4 = c3 + p4.len();
    lemma_lit_at(s, 0, p1);
    lemma_str_at(s, c1, rid);
    lemma_lit_at(s, c2, p3);
    lemma_chat_resp_at(s, c3, result);
    lemma_lit_at(s, c4, p5);
}

/// An encoded INFERENCE_ERROR frame parses back whole.
#[verifier::rlimit(100)]
#[verifier::spinoff_prover]
proof fn lemma_infer_err_whole(s: Seq<u8>, rid: Seq<u8>, e: Seq<u8>)
    requires
        s == crate::encode::enc_client(
            crate::msg::ClientMessageV::InferenceError { request_id: rid, error: e },
        ),
    ensures
        crate::parse::pc_infer_err(s) == Option::Some(
            crate::msg::ClientMessageV::InferenceError { request_id: rid, error: e },
        ),
{
    reveal(crate::parse::pc_infer_err);
    let p1 = crate::encode::err_head();
    let p2 = qs(rid);
    let p3 = crate::encode::k_error();
    let p4 = qs(e);
    let p5 = seq![RB];
    assert(s =~= p1 + (p2 + (p3 + (p4 + p5))));
    assert(s.subrange(0, s.len() as int) =~= s);
    lemma_split(s, 0, p1, p2 + (p3 + (p4 + p5)));
    let c1 = p1.len() as int;
    lemma_split(s, c1, p2, p3 + (p4 + p5));
    let c2 = c1 + p2.len();
    lemma_split(s, c2, p3, p4 + p5);
    let c3 = c2 + p3.len();
    lemma_split(s, c3, p4, p5);
    let c4 = c3 + p4.len();
    lemma_lit_at(s, 0, p1);
    lemma_str_at(s, c1, rid);
    lemma_lit_at(s, c2, p3);
    lemma_str_at(s, c3, e);
    lemma_lit_at(s, c4, p5);
}

/// The field-by-field layout of an encoded INTERVIEW_RESULT frame.
pub open spec fn iv_result_layout(
    s: Seq<u8>,
    iid: Seq<u8>,
    model: Seq<u8>,
    results: Seq<crate::msg::PromptResultV>,
) -> bool {
    let p1 = crate::encode::ivr_head();
    let p2 = qs(iid);
    let p3 = crate::encode::k_model();
    let p4 = qs(model);
    let p5 = crate::encode::k_results();
    let pv = crate::encode::enc_result_items(results);
    let c1 = p1.len() as int;
    let c2 = c1 + p2.len();
    let c3 = c2 + p3.len();
    let c4 = c3 + p4.len();
    let c5 = c4 + p5.len();
    let c6 = c5 + 1;
    let c7 = c6 + pv.len() + 1;
    &&& s.len() == c7 + 1
    &&& s.subrange(0, c1) == p1
    &&& s.subrange(c1, c2) == p2
    &&& s.subrange(c2, c3) == p3
    &&& s.subrange(c3, c4) == p4
    &&& s.subrange(c4, c5) == p5
    &&& s.subrange(c5, c6) == seq![crate::codec::LS]
    &&& s.subrange(c6, c7) == pv + seq![RS]
    &&& s.subrange(c7, c7 + 1) == seq![RB]
}

/// An encoded INTERVIEW_RESULT frame has its fields laid out in order.
#[verifier::rlimit(100)]
#[verifier::spinoff_prover]
proof fn lemma_iv_result_layout(
    s: Seq<u8>,
    iid: Seq<u8>,
    model: Seq<u8>,
    results: Seq<crate::msg::PromptResultV>,
)
    requires
        s == crate::encode::enc_client(
            crate::msg::ClientMessageV::InterviewResult { interview_id: iid, model, results },
        ),
    ensures
        iv_result_layout(s, iid, model, results),
{
    let p1 = crate::encode::ivr_head();
    let p2 = qs(iid);
    let p3 = crate::encode::k_model();
    let p4 = qs(model);
    let p5 = crate::encode::k_results();
    let p6 = seq![crate::codec::LS];
    let pi = crate::encode::enc_result_items(results);
    let pr = seq![RS];
    let p8 = seq![RB];
    assert(s == p1 + p2 + p3 + p4 + p5 + p6 + pi + pr + p8);
    assert(s.subrange(0, s.len() as int) =~= s);
    lemma_split(s, 0, p1 + p2 + p3 + p4 + p5 + p6 + pi + pr, p8);
    lemma_split(s, 0, p1 + p2 + p3 + p4 + p5 + p6 + pi, pr);
    lemma_split(s, 0, p1 + p2 + p3 + p4 + p5 + p6, pi);
    lemma_split(s, 0, p1 + p2 + p3 + p4 + p5, p6);
    lemma_split(s, 0, p1 + p2 + p3 + p4, p5);
    lemma_split(s, 0, p1 + p2 + p3, p4);
    lemma_split(s, 0, p1 + p2, p3);
    lemma_split(s, 0, p1, p2);
    lemma_join(s, p1.len() as int + p2.len() + p3.len() + p4.len() + p5.len() + 1, pi, pr);
}

/// An encoded INTERVIEW_RESULT frame parses back whole.
#[verifier::rlimit(100)]
#[verifier::spinoff_prover]
proof fn lemma_iv_result_whole(
    s: Seq<u8>,
    iid: Seq<u8>,
    model: Seq<u8>,
    results: Seq<crate::msg::PromptResultV>,
)
    requires
        iv_result_layout(s, iid, model, results),
    ensures
        crate::parse::pc_iv_result(s) == Option::Some(
            crate::msg::ClientMessageV::InterviewResult { interview_id: iid, model, results },
        ),
{
    reveal(crate::parse::pc_iv_result);
    let p1 = crate::encode::ivr_head();
    let p2 = qs(iid);
    let p3 = crate::encode::k_model();
    let p4 = qs(model);
    let p5 = crate::encode::k_results();
    let pv = crate::encode::enc_result_items(results);
    let c1 = p1.len() as int;
    let c2 = c1 + p2.len();
    let c3 = c2 + p3.len();
    let c4 = c3 + p4.len();
    let c5 = c4 + p5.len();
    let c6 = c5 + 1;
    let c7 = c6 + pv.len() + 1;
    lemma_lit_at(s, 0, p1);
    lemma_str_at(s, c1, iid);
    lemma_lit_at(s, c2, p3);
    lemma_str_at(s, c3, model);
    lemma_lit_at(s, c4, p5);
    lemma_lit_at(s, c5, seq![crate::codec::LS]);
    lemma_result_items_at(s, c6, results);
    lemma_lit_at(s, c7, seq![RB]);
}

/// An encoded frame never begins like a frame of another kind: the heads
/// differ at a fixed byte.
#[verifier::rlimit(100)]
#[verifier::spinoff_prover]
proof fn lemma_chain_mismatches(s: Seq<u8>, tag9: u8)
    requires
        9 < s.len(),
        s[9] == tag9,
    ensures
        tag9 != 0x50 ==> crate::parse::ps_bare(s, crate::encode::pong_msg()) == false,
        tag9 != 0x48 ==> crate::parse::ps_bare(s, crate::encode::heartbeat_msg()) == false,
        tag9 != 0x41 ==> crate::parse::pc_auth(s) is None,
        tag9 != 0x55 ==> crate::parse::pc_wallet(s) is None,
        tag9 != 0x52 ==> crate::parse::pc_register(s) is None,
{
    reveal(crate::parse::pc_auth);
    reveal(crate::parse::pc_wallet);
    reveal(crate::parse::pc_register);
    if tag9 != 0x50 {
        lemma_head_mismatch(s, crate::encode::pong_msg(), 9);
    }
    if tag9 != 0x48 {
        lemma_head_mismatch(s, crate::encode::heartbeat_msg(), 9);
    }
    if tag9 != 0x41 {
        lemma_head_mismatch(s, crate::encode::auth_head(), 9);
    }
    if tag9 != 0x55 {
        lemma_head_mismatch(s, crate::encode::wallet_head(), 9);
    }
    if tag9 != 0x52 {
        lemma_head_mismatch(s, crate::encode::register_head(), 9);
    }
}

/// Law, PONG case: an encoded PONG parses back.
#[verifier::rlimit(100)]
#[verifier::spinoff_prover]
pub proof fn lemma_round_trip_pong()
    ensures
        crate::parse::p_client(crate::encode::enc_client(crate::msg::ClientMessageV::Pong))
            == Option::Some(crate::msg::ClientMessageV::Pong),
{
    let s = crate::encode::enc_client(crate::msg::ClientMessageV::Pong);
    assert(s == crate::encode::pong_msg());
    assert(s.subrange(0, s.len() as int) =~= s);
    lemma_lit_at(s, 0, crate::encode::pong_msg());
}

/// Law, HEARTBEAT case: an encoded HEARTBEAT parses back.
#[verifier::rlimit(100)]
#[verifier::spinoff_prover]
pub proof fn lemma_round_trip_heartbeat()
    ensures
        crate::parse::p_client(crate::encode::enc_client(crate::msg::ClientMessageV::Heartbeat))
            == Option::Some(crate::msg::ClientMessageV::Heartbeat),
{
    let s = crate::encode::enc_client(crate::msg::ClientMessageV::Heartbeat);
    assert(s == crate::encode::heartbeat_msg());
    assert(s[9] == 0x48);
    lemma_chain_mismatches(s, 0x48);
    assert(s.subrange(0, s.len() as int) =~= s);
    lemma_lit_at(s, 0, crate::encode::heartbeat_msg());
}

/// Law, AUTH case: an encoded AUTH parses back.
#[verifier::rlimit(100)]
#[verifier::spinoff_prover]
pub proof fn lemma_round_trip_auth(client_id: Seq<u8>, timestamp: Seq<u8>, signature: Seq<u8>)
    ensures
        crate::parse::p_client(
            crate::encode::enc_client(
                crate::msg::ClientMessageV::Auth { client_id, timestamp, signature },
            ),
        ) == Option::Some(crate::msg::ClientMessageV::Auth { client_id, timestamp, signature }),
{
    let s = crate::encode::enc_client(
        crate::msg::ClientMessageV::Auth { client_id, timestamp, signature },
    );
    assert(s[9] == 0x41);
    lemma_chain_mismatches(s, 0x41);
    lemma_auth_whole(s, client_id, timestamp, signature);
}

/// Law, UPDATE_WALLET case: an encoded UPDATE_WALLET parses back.
#[verifier::rlimit(100)]
#[verifier::spinoff_prover]
pub proof fn lemma_round_trip_wallet(payout_address: Seq<u8>)
    ensures
        crate::parse::p_client(
            crate::encode::enc_client(
                crate::msg::ClientMessageV::UpdateWallet { payout_address },
            ),
        ) == Option::Some(crate::msg::ClientMessageV::UpdateWallet { payout_address }),
{
    let s = crate::encode::enc_client(
        crate::msg::ClientMessageV::UpdateWallet { payout_address },
    );
    assert(s[9] == 0x55);
    lemma_chain_mismatches(s, 0x55);
    lemma_wallet_whole(s, payout_address);
}

/// Law, REGISTER_NODE case: an encoded REGISTER_NODE parses back.
#[verifier::rlimit(100)]
#[verifier::spinoff_prover]
pub proof fn lemma_round_trip_register(
    alias: Seq<u8>,
    models: Seq<Seq<u8>>,
    capacity: u32,
    region: Seq<u8>,
    price_micro: u64,
)
    ensures
        crate::parse::p_client(
            crate::encode::enc_client(
                crate::msg::ClientMessageV::RegisterNode {
                    alias,
                    models,
                    capacity,
                    region,
                    price_micro,
                },
            ),
        ) == Option::Some(
            crate::msg::ClientMessageV::RegisterNode {
                alias,
                models,
                capacity,
                region,
                price_micro,
            },
        ),
{
    let s = crate::encode::enc_client(
        crate::msg::ClientMessageV::RegisterNode {
            alias,
            models,
            capacity,
            region,
            price_micro,
        },
    );
    assert(s[9] == 0x52);
    lemma_chain_mismatches(s, 0x52);
    lemma_register_layout(s, alias, models, capacity, region, price_micro);
    lemma_register_whole(s, alias, models, capacity, region, price_micro);
}

/// Law, INFERENCE_RESPONSE case: an encoded INFERENCE_RESPONSE parses back.
#[verifier::rlimit(100)]
#[verifier::spinoff_prover]
pub proof fn lemma_round_trip_response(request_id: Seq<u8>, result: crate::msg::ChatRespV)
    ensures
        crate::parse::p_client(
            crate::encode::enc_client(
                crate::msg::ClientMessageV::InferenceResponse { request_id, result },
            ),
        ) == Option::Some(crate::msg::ClientMessageV::InferenceResponse { request_id, result }),
{
    let s = crate::encode::enc_client(
        crate::msg::ClientMessageV::InferenceResponse { request_id, result },
    );
    assert(s[9] == 0x49);
    lemma_chain_mismatches(s, 0x49);
    lemma_response_whole(s, request_id, result);
}

/// Law, INFERENCE_ERROR case: an encoded INFERENCE_ERROR parses back.
#[verifier::rlimit(100)]
#[verifier::spinoff_prover]
pub proof fn lemma_round_trip_infer_err(request_id: Seq<u8>, error: Seq<u8>)
    ensures
        crate::parse::p_client(
            crate::encode::enc_client(
                crate::msg::ClientMessageV::InferenceError { request_id, error },
            ),
        ) == Option::Some(crate::msg::ClientMessageV::InferenceError { request_id, error }),
{
    let s = crate::encode::enc_client(
        crate::msg::ClientMessageV::InferenceError { request_id, error },
    );
    assert(s[9] == 0x49);
    assert(s[19] == 0x45);
    lemma_chain_mismatches(s, 0x49);
    lemma_head_mismatch(s, crate::encode::resp_head(), 19);
    assert(crate::parse::pc_response(s) is None) by {
        reveal(crate::parse::pc_response);
    }
    lemma_infer_err_whole(s, request_id, error);
}

/// Law, INTERVIEW_RESULT case: an encoded INTERVIEW_RESULT parses back.
#[verifier::rlimit(100)]
#[verifier::spinoff_prover]
pub proof fn lemma_round_trip_iv_result(
    interview_id: Seq<u8>,
    model: Seq<u8>,
    results: Seq<crate::msg::PromptResultV>,
)
    ensures
        crate::parse::p_client(
            crate::encode::enc_client(
                crate::msg::ClientMessageV::InterviewResult { interview_id, model, results },
            ),
        ) == Option::Some(
            crate::msg::ClientMessageV::InterviewResult { interview_id, model, results },
        ),
{
    let s = crate::encode::enc_client(
        crate::msg::ClientMessageV::InterviewResult { interview_id, model, results },
    );
    assert(s[9] == 0x49);
    assert(s[11] == 0x54);
    lemma_chain_mismatches(s, 0x49);
    lemma_head_mismatch(s, crate::encode::resp_head(), 11);
    lemma_head_mismatch(s, crate::encode::err_head(), 11);
    assert(crate::parse::pc_response(s) is None) by {
        reveal(crate::parse::pc_response);
    }
    assert(crate::parse::pc_infer_err(s) is None) by {
        reveal(crate::parse::pc_infer_err);
    }
    lemma_iv_result_layout(s, interview_id, model, results);
    lemma_iv_result_whole(s, interview_id, model, results);
}

/// Law: encoding any outbound message and then parsing the bytes back
/// recovers the message, field for field.
#[verifier::rlimit(100)]
#[verifier::spinoff_prover]
pub proof fn lemma_client_round_trip(m: crate::msg::ClientMessageV)
    ensures
        crate::parse::p_client(crate::encode::enc_client(m)) == Option::Some(m),
{
    match m {
        crate::msg::ClientMessageV::Pong => {
            lemma_round_trip_pong();
        },
        crate::msg::ClientMessageV::Heartbeat => {
            lemma_round_trip_heartbeat();
        },
        crate::msg::ClientMessageV::Auth { client_id, timestamp, signature } => {
            lemma_round_trip_auth(client_id, timestamp, signature);
        },
        crate::msg::ClientMessageV::UpdateWallet { payout_address } => {
            lemma_round_trip_wallet(payout_address);
        },
        crate::msg::ClientMessageV::RegisterNode { alias, models, capacity, region, price_micro }
            => {
            lemma_round_trip_register(alias, models, capacity, region, price_micro);
        },
        crate::msg::ClientMessageV::InferenceResponse { request_id, result } => {
            lemma_round_trip_response(request_id, result);
        },
        crate::msg::ClientMessageV::InferenceError { request_id, error } => {
            lemma_round_trip_infer_err(request_id, error);
        },
        crate::msg::ClientMessageV::InterviewResult { interview_id, model, results } => {
            lemma_round_trip_iv_result(interview_id, model, results);
        },
    }
}

} // verus!
