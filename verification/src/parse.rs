//! Decoders for protocol frames.
//!
//! The specification side (`p_...` functions) defines, as total spec
//! functions, what each byte string parses to; the executable decoders
//! return exactly what the specification parser returns.  Outbound frames
//! are parsed in the canonical form the encoders produce; inbound frames go
//! through the tolerant JSON reader, which takes whitespace, any key order
//! and unknown fields in stride.

use vstd::prelude::*;

use crate::codec::{BSL, CM, QU, RB, RS};
use crate::msg::{ChatMsg, ChatMsgV, ServerMessage, ServerMessageV};

verus! {

/// A decimal digit byte.
pub open spec fn is_digit(b: u8) -> bool {
    0x30 <= b && b <= 0x39
}

/// Recognises `lit` at position `i`: the position after it, or nothing.
pub open spec fn p_lit(s: Seq<u8>, i: int, lit: Seq<u8>) -> Option<int> {
    if 0 <= i && i + lit.len() <= s.len() && s.subrange(i, i + lit.len() as int) == lit {
        Option::Some(i + lit.len())
    } else {
        Option::None
    }
}

/// The matcher result agrees with the specification parser.
pub open spec fn lit_step(r: Option<usize>, sr: Option<int>, len: int) -> bool {
    match (r, sr) {
        (Option::Some(j), Option::Some(sj)) => j as int == sj && j as int <= len,
        (Option::None, Option::None) => true,
        _ => false,
    }
}

/// Recognises `lit` at position `i`.
pub fn e_lit(s: &[u8], i: usize, lit: &[u8]) -> (r: Option<usize>)
    requires
        i <= s@.len(),
    ensures
        lit_step(r, p_lit(s@, i as int, lit@), s@.len() as int),
{
    let n = lit.len();
    let slen = s.len();
    if n > slen - i {
        proof {
            assert(p_lit(s@, i as int, lit@) is None);
        }
        return Option::None;
    }
    let mut k: usize = 0;
    while k < n
        invariant
            n == lit@.len(),
            i + n <= s@.len(),
            s@.len() <= usize::MAX as int,
            k <= n,
            forall|q: int| 0 <= q < k ==> s@[i + q] == lit@[q],
        decreases n - k,
    {
        if s[i + k] != lit[k] {
            proof {
                assert(s@.subrange(i as int, i + n) != lit@) by {
                    assert(s@.subrange(i as int, i + n)[k as int] == s@[i + k]);
                }
            }
            return Option::None;
        }
        k = k + 1;
    }
    proof {
        assert(s@.subrange(i as int, i + n) =~= lit@);
    }
    Option::Some(i + n)
}

/// Translates an escape code to the byte it stands for.
pub open spec fn unesc_byte(b: u8) -> Option<u8> {
    if b == 0x22 {
        Option::Some(0x22)
    } else if b == 0x5c {
        Option::Some(0x5c)
    } else if b == 0x6e {
        Option::Some(0x0a)
    } else if b == 0x72 {
        Option::Some(0x0d)
    } else if b == 0x74 {
        Option::Some(0x09)
    } else {
        Option::None
    }
}

/// The value of a hex digit byte, either case.
pub open spec fn hex_val(b: u8) -> Option<nat> {
    if 0x30 <= b && b <= 0x39 {
        Option::Some((b - 0x30) as nat)
    } else if 0x61 <= b && b <= 0x66 {
        Option::Some((b - 0x61 + 10) as nat)
    } else if 0x41 <= b && b <= 0x46 {
        Option::Some((b - 0x41 + 10) as nat)
    } else {
        Option::None
    }
}

/// Reads a string body up to and over its closing quote, undoing escapes.
pub open spec fn p_str_body(s: Seq<u8>, i: int) -> Option<(Seq<u8>, int)>
    decreases s.len() - i,
{
    if i < 0 || i >= s.len() {
        Option::None
    } else if s[i] == QU {
        Option::Some((Seq::empty(), i + 1))
    } else if s[i] == BSL {
        if i + 1 >= s.len() {
            Option::None
        } else if s[i + 1] == 0x75 {
            if i + 6 <= s.len() && s[i + 2] == 0x30 && s[i + 3] == 0x30 {
                match (hex_val(s[i + 4]), hex_val(s[i + 5])) {
                    (Option::Some(hi), Option::Some(lo)) => match p_str_body(s, i + 6) {
                        Option::None => Option::None,
                        Option::Some((t, j)) => Option::Some(
                            (seq![(hi * 16 + lo) as u8] + t, j),
                        ),
                    },
                    _ => Option::None,
                }
            } else {
                Option::None
            }
        } else {
            match unesc_byte(s[i + 1]) {
                Option::None => Option::None,
                Option::Some(b) => match p_str_body(s, i + 2) {
                    Option::None => Option::None,
                    Option::Some((t, j)) => Option::Some((seq![b] + t, j)),
                },
            }
        }
    } else {
        match p_str_body(s, i + 1) {
            Option::None => Option::None,
            Option::Some((t, j)) => Option::Some((seq![s[i]] + t, j)),
        }
    }
}

/// Reads a quoted string token at `i`.
pub open spec fn p_str(s: Seq<u8>, i: int) -> Option<(Seq<u8>, int)> {
    if 0 <= i && i < s.len() && s[i] == QU {
        p_str_body(s, i + 1)
    } else {
        Option::None
    }
}

/// A string result agrees with the specification parser.
pub open spec fn str_step(r: Option<(Vec<u8>, usize)>, sr: Option<(Seq<u8>, int)>, len: int)
    -> bool {
    match (r, sr) {
        (Option::Some((t, j)), Option::Some((tv, sj))) => t@ == tv && j as int == sj && j as int
            <= len,
        (Option::None, Option::None) => true,
        _ => false,
    }
}

/// Reads a hex digit's value, mirroring [`hex_val`].
fn e_hex_val(b: u8) -> (r: Option<u8>)
    ensures
        match r {
            Option::Some(d) => hex_val(b) == Option::Some(d as nat) && d < 16,
            Option::None => hex_val(b) is None,
        },
{
    if 0x30 <= b && b <= 0x39 {
        Option::Some(b - 0x30)
    } else if 0x61 <= b && b <= 0x66 {
        Option::Some(b - 0x61 + 10)
    } else if 0x41 <= b && b <= 0x46 {
        Option::Some(b - 0x41 + 10)
    } else {
        Option::None
    }
}

/// Reads a string body, mirroring [`p_str_body`].
pub fn e_str_body(s: &[u8], i: usize) -> (r: Option<(Vec<u8>, usize)>)
    requires
        i <= s@.len(),
    ensures
        str_step(r, p_str_body(s@, i as int), s@.len() as int),
    decreases s@.len() - i,
{
    if i >= s.len() {
        return Option::None;
    }
    let b = s[i];
    if b == QU {
        return Option::Some((Vec::new(), i + 1));
    }
    if b == BSL {
        if i + 1 >= s.len() {
            return Option::None;
        }
        let c = s[i + 1];
        if c == 0x75 {
            if !(s.len() - i >= 6 && s[i + 2] == 0x30 && s[i + 3] == 0x30) {
                return Option::None;
            }
            let hi: u8 = match e_hex_val(s[i + 4]) {
                Option::Some(d) => d,
                Option::None => {
                    return Option::None;
                },
            };
            let lo: u8 = match e_hex_val(s[i + 5]) {
                Option::Some(d) => d,
                Option::None => {
                    return Option::None;
                },
            };
            return match e_str_body(s, i + 6) {
                Option::None => Option::None,
                Option::Some((mut t, j)) => {
                    let ghost tv0 = t@;
                    let decoded: u8 = hi * 16 + lo;
                    t.insert(0, decoded);
                    proof {
                        assert(t@ =~= seq![decoded] + tv0);
                    }
                    Option::Some((t, j))
                },
            };
        }
        let u: Option<u8> = if c == 0x22 {
            Option::Some(0x22)
        } else if c == 0x5c {
            Option::Some(0x5c)
        } else if c == 0x6e {
            Option::Some(0x0a)
        } else if c == 0x72 {
            Option::Some(0x0d)
        } else if c == 0x74 {
            Option::Some(0x09)
        } else {
            Option::None
        };
        match u {
            Option::None => Option::None,
            Option::Some(u) => match e_str_body(s, i + 2) {
                Option::None => Option::None,
                Option::Some((mut t, j)) => {
                    let ghost tv0 = t@;
                    t.insert(0, u);
                    proof {
                        assert(t@ =~= seq![u] + tv0);
                    }
                    Option::Some((t, j))
                },
            },
        }
    } else {
        match e_str_body(s, i + 1) {
            Option::None => Option::None,
            Option::Some((mut t, j)) => {
                let ghost tv0 = t@;
                t.insert(0, b);
                proof {
                    assert(t@ =~= seq![b] + tv0);
                }
                Option::Some((t, j))
            },
        }
    }
}

/// Reads a quoted string token, mirroring [`p_str`].
pub fn e_str(s: &[u8], i: usize) -> (r: Option<(Vec<u8>, usize)>)
    requires
        i <= s@.len(),
    ensures
        str_step(r, p_str(s@, i as int), s@.len() as int),
{
    if i < s.len() && s[i] == QU {
        e_str_body(s, i + 1)
    } else {
        Option::None
    }
}

/// Reads a run of decimal digits left to right into an accumulator,
/// refusing values beyond `u64`.
pub open spec fn p_u64_rec(s: Seq<u8>, i: int, acc: nat) -> Option<(u64, int)>
    decreases s.len() - i,
{
    if i < 0 {
        Option::None
    } else if i < s.len() && is_digit(s[i]) {
        let a2 = acc * 10 + (s[i] - 0x30);
        if a2 <= u64::MAX {
            p_u64_rec(s, i + 1, a2 as nat)
        } else {
            Option::None
        }
    } else {
        if acc <= u64::MAX {
            Option::Some((acc as u64, i))
        } else {
            Option::None
        }
    }
}

/// Reads an unsigned decimal number at `i`.
pub open spec fn p_u64(s: Seq<u8>, i: int) -> Option<(u64, int)> {
    if 0 <= i && i < s.len() && is_digit(s[i]) {
        p_u64_rec(s, i, 0)
    } else {
        Option::None
    }
}

/// A number result agrees with the specification parser.
pub open spec fn u64_step(r: Option<(u64, usize)>, sr: Option<(u64, int)>, len: int) -> bool {
    match (r, sr) {
        (Option::Some((v, j)), Option::Some((sv, sj))) => v == sv && j as int == sj && j as int
            <= len,
        (Option::None, Option::None) => true,
        _ => false,
    }
}

/// Reads a digit run, mirroring [`p_u64_rec`].
pub fn e_u64_rec(s: &[u8], i: usize, acc: u64) -> (r: Option<(u64, usize)>)
    requires
        i <= s@.len(),
    ensures
        u64_step(r, p_u64_rec(s@, i as int, acc as nat), s@.len() as int),
    decreases s@.len() - i,
{
    if i < s.len() && 0x30 <= s[i] && s[i] <= 0x39 {
        let d = (s[i] - 0x30) as u64;
        match acc.checked_mul(10) {
            Option::Some(x) => match x.checked_add(d) {
                Option::Some(a2) => e_u64_rec(s, i + 1, a2),
                Option::None => Option::None,
            },
            Option::None => Option::None,
        }
    } else {
        Option::Some((acc, i))
    }
}

/// Reads an unsigned decimal number, mirroring [`p_u64`].
pub fn e_u64(s: &[u8], i: usize) -> (r: Option<(u64, usize)>)
    requires
        i <= s@.len(),
    ensures
        u64_step(r, p_u64(s@, i as int), s@.len() as int),
{
    if i < s.len() && 0x30 <= s[i] && s[i] <= 0x39 {
        e_u64_rec(s, i, 0)
    } else {
        Option::None
    }
}

/// Reads a decimal number that must fit in `u32`.
pub open spec fn p_u32(s: Seq<u8>, i: int) -> Option<(u32, int)> {
    match p_u64(s, i) {
        Option::None => Option::None,
        Option::Some((v, j)) => if v <= u32::MAX as u64 {
            Option::Some((v as u32, j))
        } else {
            Option::None
        },
    }
}

/// A `u32` result agrees with the specification parser.
pub open spec fn u32_step(r: Option<(u32, usize)>, sr: Option<(u32, int)>, len: int) -> bool {
    match (r, sr) {
        (Option::Some((v, j)), Option::Some((sv, sj))) => v == sv && j as int == sj && j as int
            <= len,
        (Option::None, Option::None) => true,
        _ => false,
    }
}

/// Reads a decimal number that must fit in `u32`, mirroring [`p_u32`].
pub fn e_u32(s: &[u8], i: usize) -> (r: Option<(u32, usize)>)
    requires
        i <= s@.len(),
    ensures
        u32_step(r, p_u32(s@, i as int), s@.len() as int),
{
    match e_u64(s, i) {
        Option::None => Option::None,
        Option::Some((v, j)) => if v <= 0xffff_ffff {
            Option::Some((v as u32, j))
        } else {
            Option::None
        },
    }
}

/// Reads a quoted string or the JSON `null`.
pub open spec fn p_qs_or_null(s: Seq<u8>, i: int) -> Option<(Option<Seq<u8>>, int)> {
    match p_lit(s, i, crate::encode::lit_null()) {
        Option::Some(j) => Option::Some((Option::None, j)),
        Option::None => match p_str(s, i) {
            Option::Some((t, j)) => Option::Some((Option::Some(t), j)),
            Option::None => Option::None,
        },
    }
}

/// An optional-string result agrees with the specification parser.
pub open spec fn opt_str_step(
    r: Option<(Option<Vec<u8>>, usize)>,
    sr: Option<(Option<Seq<u8>>, int)>,
    len: int,
) -> bool {
    match (r, sr) {
        (Option::Some((t, j)), Option::Some((tv, sj))) => crate::msg::ov(t) == tv && j as int
            == sj && j as int <= len,
        (Option::None, Option::None) => true,
        _ => false,
    }
}

/// Reads a quoted string or `null`, mirroring [`p_qs_or_null`].
pub fn e_qs_or_null(s: &[u8], i: usize) -> (r: Option<(Option<Vec<u8>>, usize)>)
    requires
        i <= s@.len(),
    ensures
        opt_str_step(r, p_qs_or_null(s@, i as int), s@.len() as int),
{
    match m_lit_null(s, i) {
        Option::Some(j) => Option::Some((Option::None, j)),
        Option::None => match e_str(s, i) {
            Option::Some((t, j)) => Option::Some((Option::Some(t), j)),
            Option::None => Option::None,
        },
    }
}

/// End of the digit run starting at `i`.
pub open spec fn digit_run_end(s: Seq<u8>, i: int) -> int
    decreases s.len() - i,
{
    if 0 <= i && i < s.len() && is_digit(s[i]) {
        digit_run_end(s, i + 1)
    } else {
        i
    }
}

/// Reads the raw text of a decimal numeral, with optional sign and optional
/// fraction, without interpreting it.
pub open spec fn p_numtext(s: Seq<u8>, i: int) -> Option<(Seq<u8>, int)> {
    if i < 0 || i >= s.len() {
        Option::None
    } else {
        let st: int = if s[i] == 0x2d {
            i + 1
        } else {
            i
        };
        if st < s.len() && is_digit(s[st]) {
            let e1 = digit_run_end(s, st);
            if e1 + 1 < s.len() && s[e1] == 0x2e && is_digit(s[e1 + 1]) {
                let e2 = digit_run_end(s, e1 + 1);
                Option::Some((s.subrange(i, e2), e2))
            } else {
                Option::Some((s.subrange(i, e1), e1))
            }
        } else {
            Option::None
        }
    }
}

/// End of the digit run, mirroring [`digit_run_end`].
pub fn e_digit_run_end(s: &[u8], i: usize) -> (r: usize)
    requires
        i <= s@.len(),
    ensures
        r as int == digit_run_end(s@, i as int),
        i <= r <= s@.len(),
    decreases s@.len() - i,
{
    if i < s.len() && 0x30 <= s[i] && s[i] <= 0x39 {
        e_digit_run_end(s, i + 1)
    } else {
        i
    }
}

/// Reads a raw numeral, mirroring [`p_numtext`].
pub fn e_numtext(s: &[u8], i: usize) -> (r: Option<(Vec<u8>, usize)>)
    requires
        i <= s@.len(),
    ensures
        str_step(r, p_numtext(s@, i as int), s@.len() as int),
{
    if i >= s.len() {
        return Option::None;
    }
    let st: usize = if s[i] == 0x2d {
        i + 1
    } else {
        i
    };
    if st < s.len() && 0x30 <= s[st] && s[st] <= 0x39 {
        let e1 = e_digit_run_end(s, st);
        let stop: usize = if e1 < s.len() && s[e1] == 0x2e && e1 + 1 < s.len() && 0x30 <= s[e1
            + 1] && s[e1 + 1] <= 0x39 {
            e_digit_run_end(s, e1 + 1)
        } else {
            e1
        };
        let mut t: Vec<u8> = Vec::new();
        let mut k: usize = i;
        while k < stop
            invariant
                i <= k <= stop <= s@.len(),
                t@ == s@.subrange(i as int, k as int),
            decreases stop - k,
        {
            t.push(s[k]);
            proof {
                assert(s@.subrange(i as int, k + 1) =~= s@.subrange(i as int, k as int)
                    + seq![s@[k as int]]);
            }
            k = k + 1;
        }
        Option::Some((t, stop))
    } else {
        Option::None
    }
}

/// Matches `{"type":"AUTH","clientId":` at `i`.
pub fn m_auth_head(s: &[u8], i: usize) -> (r: Option<usize>)
    requires
        i <= s@.len(),
    ensures
        lit_step(r, p_lit(s@, i as int, crate::encode::auth_head()), s@.len() as int),
{
    e_lit(s, i, &[0x7bu8, 0x22, 0x74, 0x79, 0x70, 0x65, 0x22, 0x3a, 0x22, 0x41, 0x55, 0x54, 0x48, 0x22, 0x2c, 0x22, 0x63, 0x6c, 0x69, 0x65, 0x6e, 0x74, 0x49, 0x64, 0x22, 0x3a])
}

/// Matches `,"timestamp":` at `i`.
pub fn m_k_timestamp(s: &[u8], i: usize) -> (r: Option<usize>)
    requires
        i <= s@.len(),
    ensures
        lit_step(r, p_lit(s@, i as int, crate::encode::k_timestamp()), s@.len() as int),
{
    e_lit(s, i, &[0x2cu8, 0x22, 0x74, 0x69, 0x6d, 0x65, 0x73, 0x74, 0x61, 0x6d, 0x70, 0x22, 0x3a])
}

/// Matches `,"signature":` at `i`.
pub fn m_k_signature(s: &[u8], i: usize) -> (r: Option<usize>)
    requires
        i <= s@.len(),
    ensures
        lit_step(r, p_lit(s@, i as int, crate::encode::k_signature()), s@.len() as int),
{
    e_lit(s, i, &[0x2cu8, 0x22, 0x73, 0x69, 0x67, 0x6e, 0x61, 0x74, 0x75, 0x72, 0x65, 0x22, 0x3a])
}

/// Matches `{"type":"PONG"}` at `i`.
pub fn m_pong_msg(s: &[u8], i: usize) -> (r: Option<usize>)
    requires
        i <= s@.len(),
    ensures
        lit_step(r, p_lit(s@, i as int, crate::encode::pong_msg()), s@.len() as int),
{
    e_lit(s, i, &[0x7bu8, 0x22, 0x74, 0x79, 0x70, 0x65, 0x22, 0x3a, 0x22, 0x50, 0x4f, 0x4e, 0x47, 0x22, 0x7d])
}

/// Matches `{"type":"HEARTBEAT"}` at `i`.
pub fn m_heartbeat_msg(s: &[u8], i: usize) -> (r: Option<usize>)
    requires
        i <= s@.len(),
    ensures
        lit_step(r, p_lit(s@, i as int, crate::encode::heartbeat_msg()), s@.len() as int),
{
    e_lit(s, i, &[0x7bu8, 0x22, 0x74, 0x79, 0x70, 0x65, 0x22, 0x3a, 0x22, 0x48, 0x45, 0x41, 0x52, 0x54, 0x42, 0x45, 0x41, 0x54, 0x22, 0x7d])
}

/// Matches `{"type":"UPDATE_WALLET","payoutAddress":` at `i`.
pub fn m_wallet_head(s: &[u8], i: usize) -> (r: Option<usize>)
    requires
        i <= s@.len(),
    ensures
        lit_step(r, p_lit(s@, i as int, crate::encode::wallet_head()), s@.len() as int),
{
    e_lit(s, i, &[0x7bu8, 0x22, 0x74, 0x79, 0x70, 0x65, 0x22, 0x3a, 0x22, 0x55, 0x50, 0x44, 0x41, 0x54, 0x45, 0x5f, 0x57, 0x41, 0x4c, 0x4c, 0x45, 0x54, 0x22, 0x2c, 0x22, 0x70, 0x61, 0x79, 0x6f, 0x75, 0x74, 0x41, 0x64, 0x64, 0x72, 0x65, 0x73, 0x73, 0x22, 0x3a])
}

/// Matches `{"type":"REGISTER_NODE","alias":` at `i`.
pub fn m_register_head(s: &[u8], i: usize) -> (r: Option<usize>)
    requires
        i <= s@.len(),
    ensures
        lit_step(r, p_lit(s@, i as int, crate::encode::register_head()), s@.len() as int),
{
    e_lit(s, i, &[0x7bu8, 0x22, 0x74, 0x79, 0x70, 0x65, 0x22, 0x3a, 0x22, 0x52, 0x45, 0x47, 0x49, 0x53, 0x54, 0x45, 0x52, 0x5f, 0x4e, 0x4f, 0x44, 0x45, 0x22, 0x2c, 0x22, 0x61, 0x6c, 0x69, 0x61, 0x73, 0x22, 0x3a])
}

/// Matches `,"models":` at `i`.
pub fn m_k_models(s: &[u8], i: usize) -> (r: Option<usize>)
    requires
        i <= s@.len(),
    ensures
        lit_step(r, p_lit(s@, i as int, crate::encode::k_models()), s@.len() as int),
{
    e_lit(s, i, &[0x2cu8, 0x22, 0x6d, 0x6f, 0x64, 0x65, 0x6c, 0x73, 0x22, 0x3a])
}

/// Matches `,"capacity":` at `i`.
pub fn m_k_capacity(s: &[u8], i: usize) -> (r: Option<usize>)
    requires
        i <= s@.len(),
    ensures
        lit_step(r, p_lit(s@, i as int, crate::encode::k_capacity()), s@.len() as int),
{
    e_lit(s, i, &[0x2cu8, 0x22, 0x63, 0x61, 0x70, 0x61, 0x63, 0x69, 0x74, 0x79, 0x22, 0x3a])
}

/// Matches `,"region":` at `i`.
pub fn m_k_region(s: &[u8], i: usize) -> (r: Option<usize>)
    requires
        i <= s@.len(),
    ensures
        lit_step(r, p_lit(s@, i as int, crate::encode::k_region()), s@.len() as int),
{
    e_lit(s, i, &[0x2cu8, 0x22, 0x72, 0x65, 0x67, 0x69, 0x6f, 0x6e, 0x22, 0x3a])
}

/// Matches `,"pricePerThousandTokens":` at `i`.
pub fn m_k_price(s: &[u8], i: usize) -> (r: Option<usize>)
    requires
        i <= s@.len(),
    ensures
        lit_step(r, p_lit(s@, i as int, crate::encode::k_price()), s@.len() as int),
{
    e_lit(s, i, &[0x2cu8, 0x22, 0x70, 0x72, 0x69, 0x63, 0x65, 0x50, 0x65, 0x72, 0x54, 0x68, 0x6f, 0x75, 0x73, 0x61, 0x6e, 0x64, 0x54, 0x6f, 0x6b, 0x65, 0x6e, 0x73, 0x22, 0x3a])
}

/// Matches `{"type":"INFERENCE_RESPONSE","requestId":` at `i`.
pub fn m_resp_head(s: &[u8], i: usize) -> (r: Option<usize>)
    requires
        i <= s@.len(),
    ensures
        lit_step(r, p_lit(s@, i as int, crate::encode::resp_head()), s@.len() as int),
{
    e_lit(s, i, &[0x7bu8, 0x22, 0x74, 0x79, 0x70, 0x65, 0x22, 0x3a, 0x22, 0x49, 0x4e, 0x46, 0x45, 0x52, 0x45, 0x4e, 0x43, 0x45, 0x5f, 0x52, 0x45, 0x53, 0x50, 0x4f, 0x4e, 0x53, 0x45, 0x22, 0x2c, 0x22, 0x72, 0x65, 0x71, 0x75, 0x65, 0x73, 0x74, 0x49, 0x64, 0x22, 0x3a])
}

/// Matches `,"result":` at `i`.
pub fn m_k_result(s: &[u8], i: usize) -> (r: Option<usize>)
    requires
        i <= s@.len(),
    ensures
        lit_step(r, p_lit(s@, i as int, crate::encode::k_result()), s@.len() as int),
{
    e_lit(s, i, &[0x2cu8, 0x22, 0x72, 0x65, 0x73, 0x75, 0x6c, 0x74, 0x22, 0x3a])
}

/// Matches `{"type":"INFERENCE_ERROR","requestId":` at `i`.
pub fn m_err_head(s: &[u8], i: usize) -> (r: Option<usize>)
    requires
        i <= s@.len(),
    ensures
        lit_step(r, p_lit(s@, i as int, crate::encode::err_head()), s@.len() as int),
{
    e_lit(s, i, &[0x7bu8, 0x22, 0x74, 0x79, 0x70, 0x65, 0x22, 0x3a, 0x22, 0x49, 0x4e, 0x46, 0x45, 0x52, 0x45, 0x4e, 0x43, 0x45, 0x5f, 0x45, 0x52, 0x52, 0x4f, 0x52, 0x22, 0x2c, 0x22, 0x72, 0x65, 0x71, 0x75, 0x65, 0x73, 0x74, 0x49, 0x64, 0x22, 0x3a])
}

/// Matches `,"error":` at `i`.
pub fn m_k_error(s: &[u8], i: usize) -> (r: Option<usize>)
    requires
        i <= s@.len(),
    ensures
        lit_step(r, p_lit(s@, i as int, crate::encode::k_error()), s@.len() as int),
{
    e_lit(s, i, &[0x2cu8, 0x22, 0x65, 0x72, 0x72, 0x6f, 0x72, 0x22, 0x3a])
}

/// Matches `{"type":"INTERVIEW_RESULT","interviewId":` at `i`.
pub fn m_ivr_head(s: &[u8], i: usize) -> (r: Option<usize>)
    requires
        i <= s@.len(),
    ensures
        lit_step(r, p_lit(s@, i as int, crate::encode::ivr_head()), s@.len() as int),
{
    e_lit(s, i, &[0x7bu8, 0x22, 0x74, 0x79, 0x70, 0x65, 0x22, 0x3a, 0x22, 0x49, 0x4e, 0x54, 0x45, 0x52, 0x56, 0x49, 0x45, 0x57, 0x5f, 0x52, 0x45, 0x53, 0x55, 0x4c, 0x54, 0x22, 0x2c, 0x22, 0x69, 0x6e, 0x74, 0x65, 0x72, 0x76, 0x69, 0x65, 0x77, 0x49, 0x64, 0x22, 0x3a])
}

/// Matches `,"model":` at `i`.
pub fn m_k_model(s: &[u8], i: usize) -> (r: Option<usize>)
    requires
        i <= s@.len(),
    ensures
        lit_step(r, p_lit(s@, i as int, crate::encode::k_model()), s@.len() as int),
{
    e_lit(s, i, &[0x2cu8, 0x22, 0x6d, 0x6f, 0x64, 0x65, 0x6c, 0x22, 0x3a])
}

/// Matches `,"results":` at `i`.
pub fn m_k_results(s: &[u8], i: usize) -> (r: Option<usize>)
    requires
        i <= s@.len(),
    ensures
        lit_step(r, p_lit(s@, i as int, crate::encode::k_results()), s@.len() as int),
{
    e_lit(s, i, &[0x2cu8, 0x22, 0x72, 0x65, 0x73, 0x75, 0x6c, 0x74, 0x73, 0x22, 0x3a])
}

/// Matches `{"choices":` at `i`.
pub fn m_choices_head(s: &[u8], i: usize) -> (r: Option<usize>)
    requires
        i <= s@.len(),
    ensures
        lit_step(r, p_lit(s@, i as int, crate::encode::choices_head()), s@.len() as int),
{
    e_lit(s, i, &[0x7bu8, 0x22, 0x63, 0x68, 0x6f, 0x69, 0x63, 0x65, 0x73, 0x22, 0x3a])
}

/// Matches `,"usage":` at `i`.
pub fn m_k_usage(s: &[u8], i: usize) -> (r: Option<usize>)
    requires
        i <= s@.len(),
    ensures
        lit_step(r, p_lit(s@, i as int, crate::encode::k_usage()), s@.len() as int),
{
    e_lit(s, i, &[0x2cu8, 0x22, 0x75, 0x73, 0x61, 0x67, 0x65, 0x22, 0x3a])
}

/// Matches `{"index":` at `i`.
pub fn m_index_head(s: &[u8], i: usize) -> (r: Option<usize>)
    requires
        i <= s@.len(),
    ensures
        lit_step(r, p_lit(s@, i as int, crate::encode::index_head()), s@.len() as int),
{
    e_lit(s, i, &[0x7bu8, 0x22, 0x69, 0x6e, 0x64, 0x65, 0x78, 0x22, 0x3a])
}

/// Matches `,"message":` at `i`.
pub fn m_k_message_c(s: &[u8], i: usize) -> (r: Option<usize>)
    requires
        i <= s@.len(),
    ensures
        lit_step(r, p_lit(s@, i as int, crate::encode::k_message()), s@.len() as int),
{
    e_lit(s, i, &[0x2cu8, 0x22, 0x6d, 0x65, 0x73, 0x73, 0x61, 0x67, 0x65, 0x22, 0x3a])
}

/// Matches `,"finishReason":` at `i`.
pub fn m_k_finish(s: &[u8], i: usize) -> (r: Option<usize>)
    requires
        i <= s@.len(),
    ensures
        lit_step(r, p_lit(s@, i as int, crate::encode::k_finish()), s@.len() as int),
{
    e_lit(s, i, &[0x2cu8, 0x22, 0x66, 0x69, 0x6e, 0x69, 0x73, 0x68, 0x52, 0x65, 0x61, 0x73, 0x6f, 0x6e, 0x22, 0x3a])
}

/// Matches `{"role":` at `i`.
pub fn m_role_head(s: &[u8], i: usize) -> (r: Option<usize>)
    requires
        i <= s@.len(),
    ensures
        lit_step(r, p_lit(s@, i as int, crate::encode::role_head()), s@.len() as int),
{
    e_lit(s, i, &[0x7bu8, 0x22, 0x72, 0x6f, 0x6c, 0x65, 0x22, 0x3a])
}

/// Matches `,"content":` at `i`.
pub fn m_k_content(s: &[u8], i: usize) -> (r: Option<usize>)
    requires
        i <= s@.len(),
    ensures
        lit_step(r, p_lit(s@, i as int, crate::encode::k_content()), s@.len() as int),
{
    e_lit(s, i, &[0x2cu8, 0x22, 0x63, 0x6f, 0x6e, 0x74, 0x65, 0x6e, 0x74, 0x22, 0x3a])
}

/// Matches `{"promptTokens":` at `i`.
pub fn m_ptok_head(s: &[u8], i: usize) -> (r: Option<usize>)
    requires
        i <= s@.len(),
    ensures
        lit_step(r, p_lit(s@, i as int, crate::encode::ptok_head()), s@.len() as int),
{
    e_lit(s, i, &[0x7bu8, 0x22, 0x70, 0x72, 0x6f, 0x6d, 0x70, 0x74, 0x54, 0x6f, 0x6b, 0x65, 0x6e, 0x73, 0x22, 0x3a])
}

/// Matches `,"completionTokens":` at `i`.
pub fn m_k_ctok(s: &[u8], i: usize) -> (r: Option<usize>)
    requires
        i <= s@.len(),
    ensures
        lit_step(r, p_lit(s@, i as int, crate::encode::k_ctok()), s@.len() as int),
{
    e_lit(s, i, &[0x2cu8, 0x22, 0x63, 0x6f, 0x6d, 0x70, 0x6c, 0x65, 0x74, 0x69, 0x6f, 0x6e, 0x54, 0x6f, 0x6b, 0x65, 0x6e, 0x73, 0x22, 0x3a])
}

/// Matches `,"totalTokens":` at `i`.
pub fn m_k_ttok(s: &[u8], i: usize) -> (r: Option<usize>)
    requires
        i <= s@.len(),
    ensures
        lit_step(r, p_lit(s@, i as int, crate::encode::k_ttok()), s@.len() as int),
{
    e_lit(s, i, &[0x2cu8, 0x22, 0x74, 0x6f, 0x74, 0x61, 0x6c, 0x54, 0x6f, 0x6b, 0x65, 0x6e, 0x73, 0x22, 0x3a])
}

/// Matches `{"promptId":` at `i`.
pub fn m_pr_head(s: &[u8], i: usize) -> (r: Option<usize>)
    requires
        i <= s@.len(),
    ensures
        lit_step(r, p_lit(s@, i as int, crate::encode::pr_head()), s@.len() as int),
{
    e_lit(s, i, &[0x7bu8, 0x22, 0x70, 0x72, 0x6f, 0x6d, 0x70, 0x74, 0x49, 0x64, 0x22, 0x3a])
}

/// Matches `,"response":` at `i`.
pub fn m_k_response(s: &[u8], i: usize) -> (r: Option<usize>)
    requires
        i <= s@.len(),
    ensures
        lit_step(r, p_lit(s@, i as int, crate::encode::k_response()), s@.len() as int),
{
    e_lit(s, i, &[0x2cu8, 0x22, 0x72, 0x65, 0x73, 0x70, 0x6f, 0x6e, 0x73, 0x65, 0x22, 0x3a])
}

/// Matches `,"ttftMs":` at `i`.
pub fn m_k_ttft(s: &[u8], i: usize) -> (r: Option<usize>)
    requires
        i <= s@.len(),
    ensures
        lit_step(r, p_lit(s@, i as int, crate::encode::k_ttft()), s@.len() as int),
{
    e_lit(s, i, &[0x2cu8, 0x22, 0x74, 0x74, 0x66, 0x74, 0x4d, 0x73, 0x22, 0x3a])
}

/// Matches `,"totalMs":` at `i`.
pub fn m_k_total(s: &[u8], i: usize) -> (r: Option<usize>)
    requires
        i <= s@.len(),
    ensures
        lit_step(r, p_lit(s@, i as int, crate::encode::k_total()), s@.len() as int),
{
    e_lit(s, i, &[0x2cu8, 0x22, 0x74, 0x6f, 0x74, 0x61, 0x6c, 0x4d, 0x73, 0x22, 0x3a])
}

/// Matches `,"tokensGenerated":` at `i`.
pub fn m_k_tokgen(s: &[u8], i: usize) -> (r: Option<usize>)
    requires
        i <= s@.len(),
    ensures
        lit_step(r, p_lit(s@, i as int, crate::encode::k_tokgen()), s@.len() as int),
{
    e_lit(s, i, &[0x2cu8, 0x22, 0x74, 0x6f, 0x6b, 0x65, 0x6e, 0x73, 0x47, 0x65, 0x6e, 0x65, 0x72, 0x61, 0x74, 0x65, 0x64, 0x22, 0x3a])
}

/// Matches `null` at `i`.
pub fn m_lit_null(s: &[u8], i: usize) -> (r: Option<usize>)
    requires
        i <= s@.len(),
    ensures
        lit_step(r, p_lit(s@, i as int, crate::encode::lit_null()), s@.len() as int),
{
    e_lit(s, i, &[0x6eu8, 0x75, 0x6c, 0x6c])
}

/// Matches `true` at `i`.
pub fn m_lit_true(s: &[u8], i: usize) -> (r: Option<usize>)
    requires
        i <= s@.len(),
    ensures
        lit_step(r, p_lit(s@, i as int, crate::encode::lit_true()), s@.len() as int),
{
    e_lit(s, i, &[0x74u8, 0x72, 0x75, 0x65])
}

/// Matches `false` at `i`.
pub fn m_lit_false(s: &[u8], i: usize) -> (r: Option<usize>)
    requires
        i <= s@.len(),
    ensures
        lit_step(r, p_lit(s@, i as int, crate::encode::lit_false()), s@.len() as int),
{
    e_lit(s, i, &[0x66u8, 0x61, 0x6c, 0x73, 0x65])
}


/// A successful string parse moves forward and stays in bounds.
pub proof fn lemma_p_str_body_bounds(s: Seq<u8>, i: int)
    ensures
        p_str_body(s, i) matches Option::Some((t, j)) ==> i + 1 <= j <= s.len(),
    decreases s.len() - i,
{
    if 0 <= i && i < s.len() {
        if s[i] == QU {
        } else if s[i] == BSL {
            if i + 1 < s.len() && s[i + 1] == 0x75 {
                if i + 6 <= s.len() {
                    lemma_p_str_body_bounds(s, i + 6);
                }
            } else if i + 1 < s.len() {
                lemma_p_str_body_bounds(s, i + 2);
            }
        } else {
            lemma_p_str_body_bounds(s, i + 1);
        }
    }
}

/// A successful string-token parse moves forward and stays in bounds.
pub proof fn lemma_p_str_bounds(s: Seq<u8>, i: int)
    ensures
        p_str(s, i) matches Option::Some((t, j)) ==> i + 2 <= j <= s.len(),
{
    lemma_p_str_body_bounds(s, i + 1);
}

/// A successful digit-run parse stays in bounds.
pub proof fn lemma_p_u64_rec_bounds(s: Seq<u8>, i: int, acc: nat)
    requires
        i <= s.len(),
    ensures
        p_u64_rec(s, i, acc) matches Option::Some((v, j)) ==> i <= j <= s.len(),
    decreases s.len() - i,
{
    if 0 <= i && i < s.len() && is_digit(s[i]) {
        let a2 = acc * 10 + (s[i] - 0x30);
        if a2 <= u64::MAX {
            lemma_p_u64_rec_bounds(s, i + 1, a2 as nat);
        }
    }
}

/// A successful number parse moves forward and stays in bounds.
pub proof fn lemma_p_u64_bounds(s: Seq<u8>, i: int)
    ensures
        p_u64(s, i) matches Option::Some((v, j)) ==> i + 1 <= j <= s.len(),
{
    if 0 <= i && i < s.len() && is_digit(s[i]) {
        lemma_p_u64_rec_bounds(s, i + 1, (s[i] - 0x30) as nat);
    }
}

/// A successful `u32` parse moves forward and stays in bounds.
pub proof fn lemma_p_u32_bounds(s: Seq<u8>, i: int)
    ensures
        p_u32(s, i) matches Option::Some((v, j)) ==> i + 1 <= j <= s.len(),
{
    lemma_p_u64_bounds(s, i);
}

/// One role/content object.
pub open spec fn p_chat_msg(s: Seq<u8>, i: int) -> Option<(ChatMsgV, int)> {
    match p_lit(s, i, crate::encode::role_head()) {
        Option::None => Option::None,
        Option::Some(j) => match p_str(s, j) {
            Option::None => Option::None,
            Option::Some((role, j)) => match p_lit(s, j, crate::encode::k_content()) {
                Option::None => Option::None,
                Option::Some(j) => match p_str(s, j) {
                    Option::None => Option::None,
                    Option::Some((content, j)) => match p_lit(s, j, seq![RB]) {
                        Option::None => Option::None,
                        Option::Some(j) => Option::Some((ChatMsgV { role, content }, j)),
                    },
                },
            },
        },
    }
}

/// A successful chat-message parse moves forward and stays in bounds.
pub proof fn lemma_p_chat_msg_bounds(s: Seq<u8>, i: int)
    ensures
        p_chat_msg(s, i) matches Option::Some((m, j)) ==> i + 1 <= j <= s.len(),
{
    let r1 = p_lit(s, i, crate::encode::role_head());
    if r1 is Some {
        let j1 = r1->Some_0;
        lemma_p_str_bounds(s, j1);
        let r2 = p_str(s, j1);
        if r2 is Some {
            let j2 = r2->Some_0.1;
            let r3 = p_lit(s, j2, crate::encode::k_content());
            if r3 is Some {
                lemma_p_str_bounds(s, r3->Some_0);
            }
        }
    }
}

/// A chat-message result agrees with the specification parser.
pub open spec fn cm_step(r: Option<(ChatMsg, usize)>, sr: Option<(ChatMsgV, int)>, len: int)
    -> bool {
    match (r, sr) {
        (Option::Some((m, j)), Option::Some((mv, sj))) => m@ == mv && j as int == sj && j as int
            <= len,
        (Option::None, Option::None) => true,
        _ => false,
    }
}

/// Reads one role/content object, mirroring [`p_chat_msg`].
pub fn d_chat_msg(s: &[u8], i: usize) -> (r: Option<(ChatMsg, usize)>)
    requires
        i <= s@.len(),
    ensures
        cm_step(r, p_chat_msg(s@, i as int), s@.len() as int),
{
    let j = match m_role_head(s, i) {
        Option::Some(j) => j,
        Option::None => {
            return Option::None;
        },
    };
    let (role, j) = match e_str(s, j) {
        Option::Some(p) => p,
        Option::None => {
            return Option::None;
        },
    };
    let j = match m_k_content(s, j) {
        Option::Some(j) => j,
        Option::None => {
            return Option::None;
        },
    };
    let (content, j) = match e_str(s, j) {
        Option::Some(p) => p,
        Option::None => {
            return Option::None;
        },
    };
    let j = match m_obj_end(s, j) {
        Option::Some(j) => j,
        Option::None => {
            return Option::None;
        },
    };
    Option::Some((ChatMsg { role, content }, j))
}

/// The members of a string array after `[`, up to and over `]`.
pub open spec fn p_str_items(s: Seq<u8>, i: int) -> Option<(Seq<Seq<u8>>, int)>
    decreases s.len() - i,
    when true
    via p_str_items_dec
{
    match p_lit(s, i, seq![RS]) {
        Option::Some(j) => Option::Some((Seq::empty(), j)),
        Option::None => match p_str(s, i) {
            Option::None => Option::None,
            Option::Some((t, j)) => {
                if 0 <= j && j < s.len() && s[j] == CM {
                    match p_str_items(s, j + 1) {
                        Option::None => Option::None,
                        Option::Some((rest, j2)) => Option::Some((seq![t] + rest, j2)),
                    }
                } else {
                    match p_lit(s, j, seq![RS]) {
                        Option::Some(j2) => Option::Some((seq![t], j2)),
                        Option::None => Option::None,
                    }
                }
            },
        },
    }
}

#[via_fn]
proof fn p_str_items_dec(s: Seq<u8>, i: int) {
    lemma_p_str_bounds(s, i);
}

/// A string-array result agrees with the specification parser.
pub open spec fn strs_step(
    r: Option<(Vec<Vec<u8>>, usize)>,
    sr: Option<(Seq<Seq<u8>>, int)>,
    len: int,
) -> bool {
    match (r, sr) {
        (Option::Some((l, j)), Option::Some((lv, sj))) => l@.map_values(|v: Vec<u8>| v@) == lv
            && j as int == sj && j as int <= len,
        (Option::None, Option::None) => true,
        _ => false,
    }
}

/// Reads the members of a string array, mirroring [`p_str_items`].
pub fn d_str_items(s: &[u8], i: usize) -> (r: Option<(Vec<Vec<u8>>, usize)>)
    requires
        i <= s@.len(),
    ensures
        strs_step(r, p_str_items(s@, i as int), s@.len() as int),
    decreases s@.len() - i,
{
    match m_arr_end(s, i) {
        Option::Some(j) => {
            let empty: Vec<Vec<u8>> = Vec::new();
            proof {
                assert(empty@.map_values(|v: Vec<u8>| v@) =~= Seq::<Seq<u8>>::empty());
            }
            Option::Some((empty, j))
        },
        Option::None => {
            let (t, j) = match e_str(s, i) {
                Option::Some(p) => p,
                Option::None => {
                    return Option::None;
                },
            };
            proof {
                lemma_p_str_bounds(s@, i as int);
            }
            if j < s.len() && s[j] == CM {
                match d_str_items(s, j + 1) {
                    Option::None => Option::None,
                    Option::Some((mut rest, j2)) => {
                        let ghost rv = rest@.map_values(|v: Vec<u8>| v@);
                        let ghost tv = t@;
                        rest.insert(0, t);
                        proof {
                            assert(rest@.map_values(|v: Vec<u8>| v@) =~= seq![tv] + rv);
                        }
                        Option::Some((rest, j2))
                    },
                }
            } else {
                match m_arr_end(s, j) {
                    Option::Some(j2) => {
                        let ghost tv = t@;
                        let mut one: Vec<Vec<u8>> = Vec::new();
                        one.push(t);
                        proof {
                            assert(one@.map_values(|v: Vec<u8>| v@) =~= seq![tv]);
                        }
                        Option::Some((one, j2))
                    },
                    Option::None => Option::None,
                }
            }
        },
    }
}

/// Matches a closing brace at `i`.
pub fn m_obj_end(s: &[u8], i: usize) -> (r: Option<usize>)
    requires
        i <= s@.len(),
    ensures
        lit_step(r, p_lit(s@, i as int, seq![RB]), s@.len() as int),
{
    let lit: &[u8] = &[RB];
    proof {
        assert(lit@ =~= seq![RB]);
    }
    e_lit(s, i, lit)
}

/// Matches a closing bracket at `i`.
pub fn m_arr_end(s: &[u8], i: usize) -> (r: Option<usize>)
    requires
        i <= s@.len(),
    ensures
        lit_step(r, p_lit(s@, i as int, seq![RS]), s@.len() as int),
{
    let lit: &[u8] = &[RS];
    proof {
        assert(lit@ =~= seq![RS]);
    }
    e_lit(s, i, lit)
}

/// Matches an opening bracket at `i`.
pub fn m_arr_open(s: &[u8], i: usize) -> (r: Option<usize>)
    requires
        i <= s@.len(),
    ensures
        lit_step(r, p_lit(s@, i as int, seq![crate::codec::LS]), s@.len() as int),
{
    let lit: &[u8] = &[crate::codec::LS];
    proof {
        assert(lit@ =~= seq![crate::codec::LS]);
    }
    e_lit(s, i, lit)
}

/// The numeric value of a digit byte.
pub open spec fn digit_val(b: u8) -> nat {
    (b - 0x30) as nat
}

/// Exactly six decimal digits, valued as one number.
pub open spec fn p_fix6(s: Seq<u8>, i: int) -> Option<(u64, int)> {
    if 0 <= i && i + 6 <= s.len() && is_digit(s[i]) && is_digit(s[i + 1]) && is_digit(s[i + 2])
        && is_digit(s[i + 3]) && is_digit(s[i + 4]) && is_digit(s[i + 5]) {
        Option::Some(
            (
                (digit_val(s[i]) * 100000 + digit_val(s[i + 1]) * 10000 + digit_val(s[i + 2])
                    * 1000 + digit_val(s[i + 3]) * 100 + digit_val(s[i + 4]) * 10 + digit_val(
                    s[i + 5],
                )) as u64,
                i + 6,
            ),
        )
    } else {
        Option::None
    }
}

/// Reads exactly six decimal digits, mirroring [`p_fix6`].
pub fn e_fix6(s: &[u8], i: usize) -> (r: Option<(u64, usize)>)
    requires
        i <= s@.len(),
    ensures
        u64_step(r, p_fix6(s@, i as int), s@.len() as int),
{
    if s.len() - i < 6 {
        return Option::None;
    }
    let d0 = s[i];
    let d1 = s[i + 1];
    let d2 = s[i + 2];
    let d3 = s[i + 3];
    let d4 = s[i + 4];
    let d5 = s[i + 5];
    if 0x30 <= d0 && d0 <= 0x39 && 0x30 <= d1 && d1 <= 0x39 && 0x30 <= d2 && d2 <= 0x39 && 0x30
        <= d3 && d3 <= 0x39 && 0x30 <= d4 && d4 <= 0x39 && 0x30 <= d5 && d5 <= 0x39 {
        let v: u64 = ((d0 - 0x30) as u64) * 100000 + ((d1 - 0x30) as u64) * 10000 + ((d2 - 0x30)
            as u64) * 1000 + ((d3 - 0x30) as u64) * 100 + ((d4 - 0x30) as u64) * 10 + ((d5 - 0x30)
            as u64);
        Option::Some((v, i + 6))
    } else {
        Option::None
    }
}

/// Reads a price written as a decimal fraction with six digits after the
/// point, valued in millionths.
pub open spec fn p_price(s: Seq<u8>, i: int) -> Option<(u64, int)> {
    match p_u64(s, i) {
        Option::None => Option::None,
        Option::Some((ip, j)) => {
            if 0 <= j && j < s.len() && s[j] == 0x2e {
                match p_fix6(s, j + 1) {
                    Option::None => Option::None,
                    Option::Some((fr, j2)) => {
                        if ip * 1000000 + fr <= u64::MAX {
                            Option::Some(((ip * 1000000 + fr) as u64, j2))
                        } else {
                            Option::None
                        }
                    },
                }
            } else {
                Option::None
            }
        },
    }
}

/// Reads a six-digit-fraction price, mirroring [`p_price`].
pub fn e_price(s: &[u8], i: usize) -> (r: Option<(u64, usize)>)
    requires
        i <= s@.len(),
    ensures
        u64_step(r, p_price(s@, i as int), s@.len() as int),
{
    let (ip, j) = match e_u64(s, i) {
        Option::Some(p) => p,
        Option::None => {
            return Option::None;
        },
    };
    if j < s.len() && s[j] == 0x2e {
        let (fr, j2) = match e_fix6(s, j + 1) {
            Option::Some(p) => p,
            Option::None => {
                return Option::None;
            },
        };
        match ip.checked_mul(1000000) {
            Option::Some(x) => match x.checked_add(fr) {
                Option::Some(v) => Option::Some((v, j2)),
                Option::None => Option::None,
            },
            Option::None => Option::None,
        }
    } else {
        Option::None
    }
}

/// A token-usage object.
pub open spec fn p_usage(s: Seq<u8>, i: int) -> Option<(crate::msg::ChatUsage, int)> {
    match p_lit(s, i, crate::encode::ptok_head()) {
        Option::None => Option::None,
        Option::Some(j) => match p_u32(s, j) {
            Option::None => Option::None,
            Option::Some((pt, j)) => match p_lit(s, j, crate::encode::k_ctok()) {
                Option::None => Option::None,
                Option::Some(j) => match p_u32(s, j) {
                    Option::None => Option::None,
                    Option::Some((ct, j)) => match p_lit(s, j, crate::encode::k_ttok()) {
                        Option::None => Option::None,
                        Option::Some(j) => match p_u32(s, j) {
                            Option::None => Option::None,
                            Option::Some((tt, j)) => match p_lit(s, j, seq![RB]) {
                                Option::None => Option::None,
                                Option::Some(j) => Option::Some(
                                    (
                                        crate::msg::ChatUsage {
                                            prompt_tokens: pt,
                                            completion_tokens: ct,
                                            total_tokens: tt,
                                        },
                                        j,
                                    ),
                                ),
                            },
                        },
                    },
                },
            },
        },
    }
}

/// A token-usage object or the JSON `null`.
pub open spec fn p_opt_usage(s: Seq<u8>, i: int) -> Option<(Option<crate::msg::ChatUsage>, int)> {
    match p_lit(s, i, crate::encode::lit_null()) {
        Option::Some(j) => Option::Some((Option::None, j)),
        Option::None => match p_usage(s, i) {
            Option::None => Option::None,
            Option::Some((u, j)) => Option::Some((Option::Some(u), j)),
        },
    }
}

/// An optional-usage result agrees with the specification parser.
pub open spec fn opt_usage_step(
    r: Option<(Option<crate::msg::ChatUsage>, usize)>,
    sr: Option<(Option<crate::msg::ChatUsage>, int)>,
    len: int,
) -> bool {
    match (r, sr) {
        (Option::Some((u, j)), Option::Some((uv, sj))) => u == uv && j as int == sj && j as int
            <= len,
        (Option::None, Option::None) => true,
        _ => false,
    }
}

/// Reads a token-usage object or `null`, mirroring [`p_opt_usage`].
pub fn d_opt_usage(s: &[u8], i: usize) -> (r: Option<(Option<crate::msg::ChatUsage>, usize)>)
    requires
        i <= s@.len(),
    ensures
        opt_usage_step(r, p_opt_usage(s@, i as int), s@.len() as int),
{
    match m_lit_null(s, i) {
        Option::Some(j) => {
            return Option::Some((Option::None, j));
        },
        Option::None => {},
    }
    let j = match m_ptok_head(s, i) {
        Option::Some(j) => j,
        Option::None => {
            return Option::None;
        },
    };
    let (pt, j) = match e_u32(s, j) {
        Option::Some(p) => p,
        Option::None => {
            return Option::None;
        },
    };
    let j = match m_k_ctok(s, j) {
        Option::Some(j) => j,
        Option::None => {
            return Option::None;
        },
    };
    let (ct, j) = match e_u32(s, j) {
        Option::Some(p) => p,
        Option::None => {
            return Option::None;
        },
    };
    let j = match m_k_ttok(s, j) {
        Option::Some(j) => j,
        Option::None => {
            return Option::None;
        },
    };
    let (tt, j) = match e_u32(s, j) {
        Option::Some(p) => p,
        Option::None => {
            return Option::None;
        },
    };
    let j = match m_obj_end(s, j) {
        Option::Some(j) => j,
        Option::None => {
            return Option::None;
        },
    };
    Option::Some(
        (
            Option::Some(
                crate::msg::ChatUsage {
                    prompt_tokens: pt,
                    completion_tokens: ct,
                    total_tokens: tt,
                },
            ),
            j,
        ),
    )
}

/// One completion-choice object.
pub open spec fn p_choice(s: Seq<u8>, i: int) -> Option<(crate::msg::ChatChoiceV, int)> {
    match p_lit(s, i, crate::encode::index_head()) {
        Option::None => Option::None,
        Option::Some(j) => match p_u32(s, j) {
            Option::None => Option::None,
            Option::Some((ix, j)) => match p_lit(s, j, crate::encode::k_message()) {
                Option::None => Option::None,
                Option::Some(j) => match p_chat_msg(s, j) {
                    Option::None => Option::None,
                    Option::Some((m, j)) => match p_lit(s, j, crate::encode::k_finish()) {
                        Option::None => Option::None,
                        Option::Some(j) => match p_qs_or_null(s, j) {
                            Option::None => Option::None,
                            Option::Some((fr, j)) => match p_lit(s, j, seq![RB]) {
                                Option::None => Option::None,
                                Option::Some(j) => Option::Some(
                                    (
                                        crate::msg::ChatChoiceV {
                                            index: ix,
                                            message: m,
                                            finish_reason: fr,
                                        },
                                        j,
                                    ),
                                ),
                            },
                        },
                    },
                },
            },
        },
    }
}

/// A successful choice parse moves forward and stays in bounds.
pub proof fn lemma_p_choice_bounds(s: Seq<u8>, i: int)
    ensures
        p_choice(s, i) matches Option::Some((m, j)) ==> i + 1 <= j <= s.len(),
{
    let r1 = p_lit(s, i, crate::encode::index_head());
    if r1 is Some {
        let j1 = r1->Some_0;
        lemma_p_u32_bounds(s, j1);
        let r2 = p_u32(s, j1);
        if r2 is Some {
            let j2 = r2->Some_0.1;
            let r3 = p_lit(s, j2, crate::encode::k_message());
            if r3 is Some {
                let j3 = r3->Some_0;
                lemma_p_chat_msg_bounds(s, j3);
                let r4 = p_chat_msg(s, j3);
                if r4 is Some {
                    let j4 = r4->Some_0.1;
                    let r5 = p_lit(s, j4, crate::encode::k_finish());
                    if r5 is Some {
                        let j5 = r5->Some_0;
                        lemma_p_str_bounds(s, j5);
                    }
                }
            }
        }
    }
}

/// A choice result agrees with the specification parser.
pub open spec fn choice_step(
    r: Option<(crate::msg::ChatChoice, usize)>,
    sr: Option<(crate::msg::ChatChoiceV, int)>,
    len: int,
) -> bool {
    match (r, sr) {
        (Option::Some((c, j)), Option::Some((cv, sj))) => c@ == cv && j as int == sj && j as int
            <= len,
        (Option::None, Option::None) => true,
        _ => false,
    }
}

/// Reads one completion-choice object, mirroring [`p_choice`].
pub fn d_choice(s: &[u8], i: usize) -> (r: Option<(crate::msg::ChatChoice, usize)>)
    requires
        i <= s@.len(),
    ensures
        choice_step(r, p_choice(s@, i as int), s@.len() as int),
{
    let j = match m_index_head(s, i) {
        Option::Some(j) => j,
        Option::None => {
            return Option::None;
        },
    };
    let (ix, j) = match e_u32(s, j) {
        Option::Some(p) => p,
        Option::None => {
            return Option::None;
        },
    };
    let j = match m_k_message_c(s, j) {
        Option::Some(j) => j,
        Option::None => {
            return Option::None;
        },
    };
    let (m, j) = match d_chat_msg(s, j) {
        Option::Some(p) => p,
        Option::None => {
            return Option::None;
        },
    };
    let j = match m_k_finish(s, j) {
        Option::Some(j) => j,
        Option::None => {
            return Option::None;
        },
    };
    let (fr, j) = match e_qs_or_null(s, j) {
        Option::Some(p) => p,
        Option::None => {
            return Option::None;
        },
    };
    let j = match m_obj_end(s, j) {
        Option::Some(j) => j,
        Option::None => {
            return Option::None;
        },
    };
    Option::Some((crate::msg::ChatChoice { index: ix, message: m, finish_reason: fr }, j))
}

/// The members of a choice array after `[`, up to and over `]`.
pub open spec fn p_choice_items(s: Seq<u8>, i: int) -> Option<(Seq<crate::msg::ChatChoiceV>, int)>
    decreases s.len() - i,
    when true
    via p_choice_items_dec
{
    match p_lit(s, i, seq![RS]) {
        Option::Some(j) => Option::Some((Seq::empty(), j)),
        Option::None => match p_choice(s, i) {
            Option::None => Option::None,
            Option::Some((m, j)) => {
                if 0 <= j && j < s.len() && s[j] == CM {
                    match p_choice_items(s, j + 1) {
                        Option::None => Option::None,
                        Option::Some((rest, j2)) => Option::Some((seq![m] + rest, j2)),
                    }
                } else {
                    match p_lit(s, j, seq![RS]) {
                        Option::Some(j2) => Option::Some((seq![m], j2)),
                        Option::None => Option::None,
                    }
                }
            },
        },
    }
}

#[via_fn]
proof fn p_choice_items_dec(s: Seq<u8>, i: int) {
    lemma_p_choice_bounds(s, i);
}

/// A choice-array result agrees with the specification parser.
pub open spec fn choices_step(
    r: Option<(Vec<crate::msg::ChatChoice>, usize)>,
    sr: Option<(Seq<crate::msg::ChatChoiceV>, int)>,
    len: int,
) -> bool {
    match (r, sr) {
        (Option::Some((l, j)), Option::Some((lv, sj))) => l@.map_values(
            |c: crate::msg::ChatChoice| c@,
        ) == lv && j as int == sj && j as int <= len,
        (Option::None, Option::None) => true,
        _ => false,
    }
}

/// Reads the members of a choice array, mirroring [`p_choice_items`].
pub fn d_choice_items(s: &[u8], i: usize) -> (r: Option<(Vec<crate::msg::ChatChoice>, usize)>)
    requires
        i <= s@.len(),
    ensures
        choices_step(r, p_choice_items(s@, i as int), s@.len() as int),
    decreases s@.len() - i,
{
    match m_arr_end(s, i) {
        Option::Some(j) => {
            let empty: Vec<crate::msg::ChatChoice> = Vec::new();
            proof {
                assert(empty@.map_values(|c: crate::msg::ChatChoice| c@) =~= Seq::<
                    crate::msg::ChatChoiceV,
                >::empty());
            }
            Option::Some((empty, j))
        },
        Option::None => {
            let (m, j) = match d_choice(s, i) {
                Option::Some(p) => p,
                Option::None => {
                    return Option::None;
                },
            };
            proof {
                lemma_p_choice_bounds(s@, i as int);
            }
            if j < s.len() && s[j] == CM {
                match d_choice_items(s, j + 1) {
                    Option::None => Option::None,
                    Option::Some((mut rest, j2)) => {
                        let ghost rv = rest@.map_values(|x: crate::msg::ChatChoice| x@);
                        let ghost mv = m@;
                        rest.insert(0, m);
                        proof {
                            assert(rest@.map_values(|x: crate::msg::ChatChoice| x@) =~= seq![mv]
                                + rv);
                        }
                        Option::Some((rest, j2))
                    },
                }
            } else {
                match m_arr_end(s, j) {
                    Option::Some(j2) => {
                        let ghost mv = m@;
                        let mut one: Vec<crate::msg::ChatChoice> = Vec::new();
                        one.push(m);
                        proof {
                            assert(one@.map_values(|x: crate::msg::ChatChoice| x@) =~= seq![mv]);
                        }
                        Option::Some((one, j2))
                    },
                    Option::None => Option::None,
                }
            }
        },
    }
}

/// A normalised completion-reply object.
pub open spec fn p_chat_resp(s: Seq<u8>, i: int) -> Option<(crate::msg::ChatRespV, int)> {
    match p_lit(s, i, crate::encode::choices_head()) {
        Option::None => Option::None,
        Option::Some(j) => match p_lit(s, j, seq![crate::codec::LS]) {
            Option::None => Option::None,
            Option::Some(j) => match p_choice_items(s, j) {
                Option::None => Option::None,
                Option::Some((cs, j)) => match p_lit(s, j, crate::encode::k_usage()) {
                    Option::None => Option::None,
                    Option::Some(j) => match p_opt_usage(s, j) {
                        Option::None => Option::None,
                        Option::Some((u, j)) => match p_lit(s, j, crate::encode::k_model()) {
                            Option::None => Option::None,
                            Option::Some(j) => match p_str(s, j) {
                                Option::None => Option::None,
                                Option::Some((mo, j)) => match p_lit(s, j, seq![RB]) {
                                    Option::None => Option::None,
                                    Option::Some(j) => Option::Some(
                                        (
                                            crate::msg::ChatRespV {
                                                choices: cs,
                                                usage: u,
                                                model: mo,
                                            },
                                            j,
                                        ),
                                    ),
                                },
                            },
                        },
                    },
                },
            },
        },
    }
}

/// A completion-reply result agrees with the specification parser.
pub open spec fn resp_step(
    r: Option<(crate::msg::ChatResp, usize)>,
    sr: Option<(crate::msg::ChatRespV, int)>,
    len: int,
) -> bool {
    match (r, sr) {
        (Option::Some((c, j)), Option::Some((cv, sj))) => c@ == cv && j as int == sj && j as int
            <= len,
        (Option::None, Option::None) => true,
        _ => false,
    }
}

/// Reads a completion-reply object, mirroring [`p_chat_resp`].
pub fn d_chat_resp(s: &[u8], i: usize) -> (r: Option<(crate::msg::ChatResp, usize)>)
    requires
        i <= s@.len(),
    ensures
        resp_step(r, p_chat_resp(s@, i as int), s@.len() as int),
{
    let j = match m_choices_head(s, i) {
        Option::Some(j) => j,
        Option::None => {
            return Option::None;
        },
    };
    let j = match m_arr_open(s, j) {
        Option::Some(j) => j,
        Option::None => {
            return Option::None;
        },
    };
    let (cs, j) = match d_choice_items(s, j) {
        Option::Some(p) => p,
        Option::None => {
            return Option::None;
        },
    };
    let j = match m_k_usage(s, j) {
        Option::Some(j) => j,
        Option::None => {
            return Option::None;
        },
    };
    let (u, j) = match d_opt_usage(s, j) {
        Option::Some(p) => p,
        Option::None => {
            return Option::None;
        },
    };
    let j = match m_k_model(s, j) {
        Option::Some(j) => j,
        Option::None => {
            return Option::None;
        },
    };
    let (mo, j) = match e_str(s, j) {
        Option::Some(p) => p,
        Option::None => {
            return Option::None;
        },
    };
    let j = match m_obj_end(s, j) {
        Option::Some(j) => j,
        Option::None => {
            return Option::None;
        },
    };
    Option::Some((crate::msg::ChatResp { choices: cs, usage: u, model: mo }, j))
}

/// One interview prompt-outcome object; the error field may be absent.
pub open spec fn p_prompt_result(s: Seq<u8>, i: int) -> Option<(crate::msg::PromptResultV, int)> {
    match p_lit(s, i, crate::encode::pr_head()) {
        Option::None => Option::None,
        Option::Some(j) => match p_str(s, j) {
            Option::None => Option::None,
            Option::Some((pid, j)) => match p_lit(s, j, crate::encode::k_response()) {
                Option::None => Option::None,
                Option::Some(j) => match p_str(s, j) {
                    Option::None => Option::None,
                    Option::Some((resp, j)) => match p_lit(s, j, crate::encode::k_ttft()) {
                        Option::None => Option::None,
                        Option::Some(j) => match p_u32(s, j) {
                            Option::None => Option::None,
                            Option::Some((tt, j)) => match p_lit(s, j, crate::encode::k_total()) {
                                Option::None => Option::None,
                                Option::Some(j) => match p_u32(s, j) {
                                    Option::None => Option::None,
                                    Option::Some((tm, j)) => match p_lit(
                                        s,
                                        j,
                                        crate::encode::k_tokgen(),
                                    ) {
                                        Option::None => Option::None,
                                        Option::Some(j) => match p_u32(s, j) {
                                            Option::None => Option::None,
                                            Option::Some((tg, j)) => p_prompt_result_tail(
                                                s,
                                                j,
                                                pid,
                                                resp,
                                                tt,
                                                tm,
                                                tg,
                                            ),
                                        },
                                    },
                                },
                            },
                        },
                    },
                },
            },
        },
    }
}

/// The optional error field and closing brace of a prompt-outcome object.
pub open spec fn p_prompt_result_tail(
    s: Seq<u8>,
    j: int,
    pid: Seq<u8>,
    resp: Seq<u8>,
    tt: u32,
    tm: u32,
    tg: u32,
) -> Option<(crate::msg::PromptResultV, int)> {
    match p_lit(s, j, crate::encode::k_error()) {
        Option::Some(j2) => match p_str(s, j2) {
            Option::None => Option::None,
            Option::Some((e, j3)) => match p_lit(s, j3, seq![RB]) {
                Option::None => Option::None,
                Option::Some(j4) => Option::Some(
                    (
                        crate::msg::PromptResultV {
                            prompt_id: pid,
                            response: resp,
                            ttft_ms: tt,
                            total_ms: tm,
                            tokens_generated: tg,
                            error: Option::Some(e),
                        },
                        j4,
                    ),
                ),
            },
        },
        Option::None => match p_lit(s, j, seq![RB]) {
            Option::None => Option::None,
            Option::Some(j2) => Option::Some(
                (
                    crate::msg::PromptResultV {
                        prompt_id: pid,
                        response: resp,
                        ttft_ms: tt,
                        total_ms: tm,
                        tokens_generated: tg,
                        error: Option::None,
                    },
                    j2,
                ),
            ),
        },
    }
}

/// A successful prompt-outcome parse moves forward and stays in bounds.
pub proof fn lemma_p_prompt_result_bounds(s: Seq<u8>, i: int)
    ensures
        p_prompt_result(s, i) matches Option::Some((m, j)) ==> i + 1 <= j <= s.len(),
{
    let r1 = p_lit(s, i, crate::encode::pr_head());
    if r1 is Some {
        let j1 = r1->Some_0;
        lemma_p_str_bounds(s, j1);
        let r2 = p_str(s, j1);
        if r2 is Some {
            let j2 = r2->Some_0.1;
            let r3 = p_lit(s, j2, crate::encode::k_response());
            if r3 is Some {
                let j3 = r3->Some_0;
                lemma_p_str_bounds(s, j3);
                let r4 = p_str(s, j3);
                if r4 is Some {
                    let j4 = r4->Some_0.1;
                    let r5 = p_lit(s, j4, crate::encode::k_ttft());
                    if r5 is Some {
                        let j5 = r5->Some_0;
                        lemma_p_u32_bounds(s, j5);
                        let r6 = p_u32(s, j5);
                        if r6 is Some {
                            let j6 = r6->Some_0.1;
                            let r7 = p_lit(s, j6, crate::encode::k_total());
                            if r7 is Some {
                                let j7 = r7->Some_0;
                                lemma_p_u32_bounds(s, j7);
                                let r8 = p_u32(s, j7);
                                if r8 is Some {
                                    let j8 = r8->Some_0.1;
                                    let r9 = p_lit(s, j8, crate::encode::k_tokgen());
                                    if r9 is Some {
                                        let j9 = r9->Some_0;
                                        lemma_p_u32_bounds(s, j9);
                                        let r10 = p_u32(s, j9);
                                        if r10 is Some {
                                            let j10 = r10->Some_0.1;
                                            let re = p_lit(s, j10, crate::encode::k_error());
                                            if re is Some {
                                                lemma_p_str_bounds(s, re->Some_0);
                                            }
                                        }
                                    }
                                }
                            }
                        }
                    }
                }
            }
        }
    }
}

/// A prompt-outcome result agrees with the specification parser.
pub open spec fn presult_step(
    r: Option<(crate::msg::PromptResult, usize)>,
    sr: Option<(crate::msg::PromptResultV, int)>,
    len: int,
) -> bool {
    match (r, sr) {
        (Option::Some((c, j)), Option::Some((cv, sj))) => c@ == cv && j as int == sj && j as int
            <= len,
        (Option::None, Option::None) => true,
        _ => false,
    }
}

/// Reads one prompt-outcome object, mirroring [`p_prompt_result`].
pub fn d_prompt_result(s: &[u8], i: usize) -> (r: Option<(crate::msg::PromptResult, usize)>)
    requires
        i <= s@.len(),
    ensures
        presult_step(r, p_prompt_result(s@, i as int), s@.len() as int),
{
    let j = match m_pr_head(s, i) {
        Option::Some(j) => j,
        Option::None => {
            return Option::None;
        },
    };
    let (pid, j) = match e_str(s, j) {
        Option::Some(p) => p,
        Option::None => {
            return Option::None;
        },
    };
    let j = match m_k_response(s, j) {
        Option::Some(j) => j,
        Option::None => {
            return Option::None;
        },
    };
    let (resp, j) = match e_str(s, j) {
        Option::Some(p) => p,
        Option::None => {
            return Option::None;
        },
    };
    let j = match m_k_ttft(s, j) {
        Option::Some(j) => j,
        Option::None => {
            return Option::None;
        },
    };
    let (tt, j) = match e_u32(s, j) {
        Option::Some(p) => p,
        Option::None => {
            return Option::None;
        },
    };
    let j = match m_k_total(s, j) {
        Option::Some(j) => j,
        Option::None => {
            return Option::None;
        },
    };
    let (tm, j) = match e_u32(s, j) {
        Option::Some(p) => p,
        Option::None => {
            return Option::None;
        },
    };
    let j = match m_k_tokgen(s, j) {
        Option::Some(j) => j,
        Option::None => {
            return Option::None;
        },
    };
    let (tg, j) = match e_u32(s, j) {
        Option::Some(p) => p,
        Option::None => {
            return Option::None;
        },
    };
    match m_k_error(s, j) {
        Option::Some(j2) => {
            let (e, j3) = match e_str(s, j2) {
                Option::Some(p) => p,
                Option::None => {
                    return Option::None;
                },
            };
            let j4 = match m_obj_end(s, j3) {
                Option::Some(j) => j,
                Option::None => {
                    return Option::None;
                },
            };
            Option::Some(
                (
                    crate::msg::PromptResult {
                        prompt_id: pid,
                        response: resp,
                        ttft_ms: tt,
                        total_ms: tm,
                        tokens_generated: tg,
                        error: Option::Some(e),
                    },
                    j4,
                ),
            )
        },
        Option::None => {
            let j2 = match m_obj_end(s, j) {
                Option::Some(j) => j,
                Option::None => {
                    return Option::None;
                },
            };
            Option::Some(
                (
                    crate::msg::PromptResult {
                        prompt_id: pid,
                        response: resp,
                        ttft_ms: tt,
                        total_ms: tm,
                        tokens_generated: tg,
                        error: Option::None,
                    },
                    j2,
                ),
            )
        },
    }
}

/// The members of a prompt-outcome array after `[`, up to and over `]`.
pub open spec fn p_result_items(s: Seq<u8>, i: int) -> Option<
    (Seq<crate::msg::PromptResultV>, int),
>
    decreases s.len() - i,
    when true
    via p_result_items_dec
{
    match p_lit(s, i, seq![RS]) {
        Option::Some(j) => Option::Some((Seq::empty(), j)),
        Option::None => match p_prompt_result(s, i) {
            Option::None => Option::None,
            Option::Some((m, j)) => {
                if 0 <= j && j < s.len() && s[j] == CM {
                    match p_result_items(s, j + 1) {
                        Option::None => Option::None,
                        Option::Some((rest, j2)) => Option::Some((seq![m] + rest, j2)),
                    }
                } else {
                    match p_lit(s, j, seq![RS]) {
                        Option::Some(j2) => Option::Some((seq![m], j2)),
                        Option::None => Option::None,
                    }
                }
            },
        },
    }
}

#[via_fn]
proof fn p_result_items_dec(s: Seq<u8>, i: int) {
    lemma_p_prompt_result_bounds(s, i);
}

/// A prompt-outcome-array result agrees with the specification parser.
pub open spec fn presults_step(
    r: Option<(Vec<crate::msg::PromptResult>, usize)>,
    sr: Option<(Seq<crate::msg::PromptResultV>, int)>,
    len: int,
) -> bool {
    match (r, sr) {
        (Option::Some((l, j)), Option::Some((lv, sj))) => l@.map_values(
            |c: crate::msg::PromptResult| c@,
        ) == lv && j as int == sj && j as int <= len,
        (Option::None, Option::None) => true,
        _ => false,
    }
}

/// Reads the members of a prompt-outcome array, mirroring
/// [`p_result_items`].
pub fn d_result_items(s: &[u8], i: usize) -> (r: Option<(Vec<crate::msg::PromptResult>, usize)>)
    requires
        i <= s@.len(),
    ensures
        presults_step(r, p_result_items(s@, i as int), s@.len() as int),
    decreases s@.len() - i,
{
    match m_arr_end(s, i) {
        Option::Some(j) => {
            let empty: Vec<crate::msg::PromptResult> = Vec::new();
            proof {
                assert(empty@.map_values(|c: crate::msg::PromptResult| c@) =~= Seq::<
                    crate::msg::PromptResultV,
                >::empty());
            }
            Option::Some((empty, j))
        },
        Option::None => {
            let (m, j) = match d_prompt_result(s, i) {
                Option::Some(p) => p,
                Option::None => {
                    return Option::None;
                },
            };
            proof {
                lemma_p_prompt_result_bounds(s@, i as int);
            }
            if j < s.len() && s[j] == CM {
                match d_result_items(s, j + 1) {
                    Option::None => Option::None,
                    Option::Some((mut rest, j2)) => {
                        let ghost rv = rest@.map_values(|x: crate::msg::PromptResult| x@);
                        let ghost mv = m@;
                        rest.insert(0, m);
                        proof {
                            assert(rest@.map_values(|x: crate::msg::PromptResult| x@) =~= seq![mv]
                                + rv);
                        }
                        Option::Some((rest, j2))
                    },
                }
            } else {
                match m_arr_end(s, j) {
                    Option::Some(j2) => {
                        let ghost mv = m@;
                        let mut one: Vec<crate::msg::PromptResult> = Vec::new();
                        one.push(m);
                        proof {
                            assert(one@.map_values(|x: crate::msg::PromptResult| x@)
                                =~= seq![mv]);
                        }
                        Option::Some((one, j2))
                    },
                    Option::None => Option::None,
                }
            }
        },
    }
}

/// A decoded inbound message agrees with the specification parser.
pub open spec fn srv_step(r: Option<ServerMessage>, sr: Option<ServerMessageV>) -> bool {
    match (r, sr) {
        (Option::Some(m), Option::Some(mv)) => m@ == mv,
        (Option::None, Option::None) => true,
        _ => false,
    }
}

/// A bare frame: a head literal that is the whole message.
pub open spec fn ps_bare(s: Seq<u8>, head: Seq<u8>) -> bool {
    p_lit(s, 0, head) == Option::Some(s.len() as int)
}

/// What any inbound frame parses to: one JSON object read tolerantly —
/// whitespace anywhere, keys in any order, unknown fields ignored — then
/// interpreted by the handler table's shapes.
#[verifier::opaque]
pub open spec fn p_server(s: Seq<u8>) -> Option<ServerMessageV> {
    match crate::json::p_frame(s) {
        Option::None => Option::None,
        Option::Some(v) => crate::json::msg_of_json(v),
    }
}

/// Decodes one inbound frame, mirroring [`p_server`]; a frame that does not
/// read as a known message is refused and the caller drops it.
pub fn decode_server_message(s: &[u8]) -> (r: Option<ServerMessage>)
    ensures
        srv_step(r, p_server(s@)),
{
    proof {
        reveal(p_server);
    }
    match crate::json::d_frame(s) {
        Option::None => Option::None,
        Option::Some(v) => crate::json::message_of(&v),
    }
}


/// A decoded outbound message agrees with the specification parser.
pub open spec fn cli_step(
    r: Option<crate::msg::ClientMessage>,
    sr: Option<crate::msg::ClientMessageV>,
) -> bool {
    match (r, sr) {
        (Option::Some(m), Option::Some(mv)) => m@ == mv,
        (Option::None, Option::None) => true,
        _ => false,
    }
}

/// A whole AUTH frame.
#[verifier::opaque]
pub open spec fn pc_auth(s: Seq<u8>) -> Option<crate::msg::ClientMessageV> {
    match p_lit(s, 0, crate::encode::auth_head()) {
        Option::None => Option::None,
        Option::Some(j) => match p_str(s, j) {
            Option::None => Option::None,
            Option::Some((cid, j)) => match p_lit(s, j, crate::encode::k_timestamp()) {
                Option::None => Option::None,
                Option::Some(j) => match p_str(s, j) {
                    Option::None => Option::None,
                    Option::Some((ts, j)) => match p_lit(s, j, crate::encode::k_signature()) {
                        Option::None => Option::None,
                        Option::Some(j) => match p_str(s, j) {
                            Option::None => Option::None,
                            Option::Some((sg, j)) => match p_lit(s, j, seq![RB]) {
                                Option::None => Option::None,
                                Option::Some(j) => if j == s.len() {
                                    Option::Some(
                                        crate::msg::ClientMessageV::Auth {
                                            client_id: cid,
                                            timestamp: ts,
                                            signature: sg,
                                        },
                                    )
                                } else {
                                    Option::None
                                },
                            },
                        },
                    },
                },
            },
        },
    }
}

/// A whole UPDATE_WALLET frame.
#[verifier::opaque]
pub open spec fn pc_wallet(s: Seq<u8>) -> Option<crate::msg::ClientMessageV> {
    match p_lit(s, 0, crate::encode::wallet_head()) {
        Option::None => Option::None,
        Option::Some(j) => match p_str(s, j) {
            Option::None => Option::None,
            Option::Some((addr, j)) => match p_lit(s, j, seq![RB]) {
                Option::None => Option::None,
                Option::Some(j) => if j == s.len() {
                    Option::Some(crate::msg::ClientMessageV::UpdateWallet { payout_address: addr })
                } else {
                    Option::None
                },
            },
        },
    }
}

/// A whole REGISTER_NODE frame.
#[verifier::opaque]
pub open spec fn pc_register(s: Seq<u8>) -> Option<crate::msg::ClientMessageV> {
    match p_lit(s, 0, crate::encode::register_head()) {
        Option::None => Option::None,
        Option::Some(j) => match p_str(s, j) {
            Option::None => Option::None,
            Option::Some((alias, j)) => match p_lit(s, j, crate::encode::k_models()) {
                Option::None => Option::None,
                Option::Some(j) => match p_lit(s, j, seq![crate::codec::LS]) {
                    Option::None => Option::None,
                    Option::Some(j) => match p_str_items(s, j) {
                        Option::None => Option::None,
                        Option::Some((models, j)) => match p_lit(s, j, crate::encode::k_capacity())
                             {
                            Option::None => Option::None,
                            Option::Some(j) => match p_u32(s, j) {
                                Option::None => Option::None,
                                Option::Some((cap, j)) => match p_lit(
                                    s,
                                    j,
                                    crate::encode::k_region(),
                                ) {
                                    Option::None => Option::None,
                                    Option::Some(j) => match p_str(s, j) {
                                        Option::None => Option::None,
                                        Option::Some((region, j)) => match p_lit(
                                            s,
                                            j,
                                            crate::encode::k_price(),
                                        ) {
                                            Option::None => Option::None,
                                            Option::Some(j) => match p_price(s, j) {
                                                Option::None => Option::None,
                                                Option::Some((price, j)) => match p_lit(
                                                    s,
                                                    j,
                                                    seq![RB],
                                                ) {
                                                    Option::None => Option::None,
                                                    Option::Some(j) => if j == s.len() {
                                                        Option::Some(
                                                            crate::msg::ClientMessageV::RegisterNode {
                                                                alias: alias,
                                                                models: models,
                                                                capacity: cap,
                                                                region: region,
                                                                price_micro: price,
                                                            },
                                                        )
                                                    } else {
                                                        Option::None
                                                    },
                                                },
                                            },
                                        },
                                    },
                                },
                            },
                        },
                    },
                },
            },
        },
    }
}

/// A whole INFERENCE_RESPONSE frame.
#[verifier::opaque]
pub open spec fn pc_response(s: Seq<u8>) -> Option<crate::msg::ClientMessageV> {
    match p_lit(s, 0, crate::encode::resp_head()) {
        Option::None => Option::None,
        Option::Some(j) => match p_str(s, j) {
            Option::None => Option::None,
            Option::Some((rid, j)) => match p_lit(s, j, crate::encode::k_result()) {
                Option::None => Option::None,
                Option::Some(j) => match p_chat_resp(s, j) {
                    Option::None => Option::None,
                    Option::Some((resp, j)) => match p_lit(s, j, seq![RB]) {
                        Option::None => Option::None,
                        Option::Some(j) => if j == s.len() {
                            Option::Some(
                                crate::msg::ClientMessageV::InferenceResponse {
                                    request_id: rid,
                                    result: resp,
                                },
                            )
                        } else {
                            Option::None
                        },
                    },
                },
            },
        },
    }
}

/// A whole INFERENCE_ERROR frame.
#[verifier::opaque]
pub open spec fn pc_infer_err(s: Seq<u8>) -> Option<crate::msg::ClientMessageV> {
    match p_lit(s, 0, crate::encode::err_head()) {
        Option::None => Option::None,
        Option::Some(j) => match p_str(s, j) {
            Option::None => Option::None,
            Option::Some((rid, j)) => match p_lit(s, j, crate::encode::k_error()) {
                Option::None => Option::None,
                Option::Some(j) => match p_str(s, j) {
                    Option::None => Option::None,
                    Option::Some((e, j)) => match p_lit(s, j, seq![RB]) {
                        Option::None => Option::None,
                        Option::Some(j) => if j == s.len() {
                            Option::Some(
                                crate::msg::ClientMessageV::InferenceError {
                                    request_id: rid,
                                    error: e,
                                },
                            )
                        } else {
                            Option::None
                        },
                    },
                },
            },
        },
    }
}

/// A whole INTERVIEW_RESULT frame.
#[verifier::opaque]
pub open spec fn pc_iv_result(s: Seq<u8>) -> Option<crate::msg::ClientMessageV> {
    match p_lit(s, 0, crate::encode::ivr_head()) {
        Option::None => Option::None,
        Option::Some(j) => match p_str(s, j) {
            Option::None => Option::None,
            Option::Some((iid, j)) => match p_lit(s, j, crate::encode::k_model()) {
                Option::None => Option::None,
                Option::Some(j) => match p_str(s, j) {
                    Option::None => Option::None,
                    Option::Some((model, j)) => match p_lit(s, j, crate::encode::k_results()) {
                        Option::None => Option::None,
                        Option::Some(j) => match p_lit(s, j, seq![crate::codec::LS]) {
                            Option::None => Option::None,
                            Option::Some(j) => match p_result_items(s, j) {
                                Option::None => Option::None,
                                Option::Some((results, j)) => match p_lit(s, j, seq![RB]) {
                                    Option::None => Option::None,
                                    Option::Some(j) => if j == s.len() {
                                        Option::Some(
                                            crate::msg::ClientMessageV::InterviewResult {
                                                interview_id: iid,
                                                model: model,
                                                results: results,
                                            },
                                        )
                                    } else {
                                        Option::None
                                    },
                                },
                            },
                        },
                    },
                },
            },
        },
    }
}

/// What any outbound frame parses to.
pub open spec fn p_client(s: Seq<u8>) -> Option<crate::msg::ClientMessageV> {
    if ps_bare(s, crate::encode::pong_msg()) {
        Option::Some(crate::msg::ClientMessageV::Pong)
    } else if ps_bare(s, crate::encode::heartbeat_msg()) {
        Option::Some(crate::msg::ClientMessageV::Heartbeat)
    } else if pc_auth(s) is Some {
        pc_auth(s)
    } else if pc_wallet(s) is Some {
        pc_wallet(s)
    } else if pc_register(s) is Some {
        pc_register(s)
    } else if pc_response(s) is Some {
        pc_response(s)
    } else if pc_infer_err(s) is Some {
        pc_infer_err(s)
    } else {
        pc_iv_result(s)
    }
}

/// Reads an AUTH frame, mirroring [`pc_auth`].
fn dc_auth(s: &[u8]) -> (r: Option<crate::msg::ClientMessage>)
    ensures
        cli_step(r, pc_auth(s@)),
{
    proof {
        reveal(pc_auth);
    }
    let j = match m_auth_head(s, 0) {
        Option::Some(j) => j,
        Option::None => {
            return Option::None;
        },
    };
    let (cid, j) = match e_str(s, j) {
        Option::Some(p) => p,
        Option::None => {
            return Option::None;
        },
    };
    let j = match m_k_timestamp(s, j) {
        Option::Some(j) => j,
        Option::None => {
            return Option::None;
        },
    };
    let (ts, j) = match e_str(s, j) {
        Option::Some(p) => p,
        Option::None => {
            return Option::None;
        },
    };
    let j = match m_k_signature(s, j) {
        Option::Some(j) => j,
        Option::None => {
            return Option::None;
        },
    };
    let (sg, j) = match e_str(s, j) {
        Option::Some(p) => p,
        Option::None => {
            return Option::None;
        },
    };
    let j = match m_obj_end(s, j) {
        Option::Some(j) => j,
        Option::None => {
            return Option::None;
        },
    };
    if j == s.len() {
        Option::Some(
            crate::msg::ClientMessage::Auth { client_id: cid, timestamp: ts, signature: sg },
        )
    } else {
        Option::None
    }
}

/// Reads an UPDATE_WALLET frame, mirroring [`pc_wallet`].
fn dc_wallet(s: &[u8]) -> (r: Option<crate::msg::ClientMessage>)
    ensures
        cli_step(r, pc_wallet(s@)),
{
    proof {
        reveal(pc_wallet);
    }
    let j = match m_wallet_head(s, 0) {
        Option::Some(j) => j,
        Option::None => {
            return Option::None;
        },
    };
    let (addr, j) = match e_str(s, j) {
        Option::Some(p) => p,
        Option::None => {
            return Option::None;
        },
    };
    let j = match m_obj_end(s, j) {
        Option::Some(j) => j,
        Option::None => {
            return Option::None;
        },
    };
    if j == s.len() {
        Option::Some(crate::msg::ClientMessage::UpdateWallet { payout_address: addr })
    } else {
        Option::None
    }
}

/// Reads a REGISTER_NODE frame, mirroring [`pc_register`].
fn dc_register(s: &[u8]) -> (r: Option<crate::msg::ClientMessage>)
    ensures
        cli_step(r, pc_register(s@)),
{
    proof {
        reveal(pc_register);
    }
    let j = match m_register_head(s, 0) {
        Option::Some(j) => j,
        Option::None => {
            return Option::None;
        },
    };
    let (alias, j) = match e_str(s, j) {
        Option::Some(p) => p,
        Option::None => {
            return Option::None;
        },
    };
    let j = match m_k_models(s, j) {
        Option::Some(j) => j,
        Option::None => {
            return Option::None;
        },
    };
    let j = match m_arr_open(s, j) {
        Option::Some(j) => j,
        Option::None => {
            return Option::None;
        },
    };
    let (models, j) = match d_str_items(s, j) {
        Option::Some(p) => p,
        Option::None => {
            return Option::None;
        },
    };
    let j = match m_k_capacity(s, j) {
        Option::Some(j) => j,
        Option::None => {
            return Option::None;
        },
    };
    let (cap, j) = match e_u32(s, j) {
        Option::Some(p) => p,
        Option::None => {
            return Option::None;
        },
    };
    let j = match m_k_region(s, j) {
        Option::Some(j) => j,
        Option::None => {
            return Option::None;
        },
    };
    let (region, j) = match e_str(s, j) {
        Option::Some(p) => p,
        Option::None => {
            return Option::None;
        },
    };
    let j = match m_k_price(s, j) {
        Option::Some(j) => j,
        Option::None => {
            return Option::None;
        },
    };
    let (price, j) = match e_price(s, j) {
        Option::Some(p) => p,
        Option::None => {
            return Option::None;
        },
    };
    let j = match m_obj_end(s, j) {
        Option::Some(j) => j,
        Option::None => {
            return Option::None;
        },
    };
    if j == s.len() {
        Option::Some(
            crate::msg::ClientMessage::RegisterNode {
                alias,
                models,
                capacity: cap,
                region,
                price_micro: price,
            },
        )
    } else {
        Option::None
    }
}

/// Reads an INFERENCE_RESPONSE frame, mirroring [`pc_response`].
fn dc_response(s: &[u8]) -> (r: Option<crate::msg::ClientMessage>)
    ensures
        cli_step(r, pc_response(s@)),
{
    proof {
        reveal(pc_response);
    }
    let j = match m_resp_head(s, 0) {
        Option::Some(j) => j,
        Option::None => {
            return Option::None;
        },
    };
    let (rid, j) = match e_str(s, j) {
        Option::Some(p) => p,
        Option::None => {
            return Option::None;
        },
    };
    let j = match m_k_result(s, j) {
        Option::Some(j) => j,
        Option::None => {
            return Option::None;
        },
    };
    let (resp, j) = match d_chat_resp(s, j) {
        Option::Some(p) => p,
        Option::None => {
            return Option::None;
        },
    };
    let j = match m_obj_end(s, j) {
        Option::Some(j) => j,
        Option::None => {
            return Option::None;
        },
    };
    if j == s.len() {
        Option::Some(
            crate::msg::ClientMessage::InferenceResponse { request_id: rid, result: resp },
        )
    } else {
        Option::None
    }
}

/// Reads an INFERENCE_ERROR frame, mirroring [`pc_infer_err`].
fn dc_infer_err(s: &[u8]) -> (r: Option<crate::msg::ClientMessage>)
    ensures
        cli_step(r, pc_infer_err(s@)),
{
    proof {
        reveal(pc_infer_err);
    }
    let j = match m_err_head(s, 0) {
        Option::Some(j) => j,
        Option::None => {
            return Option::None;
        },
    };
    let (rid, j) = match e_str(s, j) {
        Option::Some(p) => p,
        Option::None => {
            return Option::None;
        },
    };
    let j = match m_k_error(s, j) {
        Option::Some(j) => j,
        Option::None => {
            return Option::None;
        },
    };
    let (e, j) = match e_str(s, j) {
        Option::Some(p) => p,
        Option::None => {
            return Option::None;
        },
    };
    let j = match m_obj_end(s, j) {
        Option::Some(j) => j,
        Option::None => {
            return Option::None;
        },
    };
    if j == s.len() {
        Option::Some(crate::msg::ClientMessage::InferenceError { request_id: rid, error: e })
    } else {
        Option::None
    }
}

/// Reads an INTERVIEW_RESULT frame, mirroring [`pc_iv_result`].
fn dc_iv_result(s: &[u8]) -> (r: Option<crate::msg::ClientMessage>)
    ensures
        cli_step(r, pc_iv_result(s@)),
{
    proof {
        reveal(pc_iv_result);
    }
    let j = match m_ivr_head(s, 0) {
        Option::Some(j) => j,
        Option::None => {
            return Option::None;
        },
    };
    let (iid, j) = match e_str(s, j) {
        Option::Some(p) => p,
        Option::None => {
            return Option::None;
        },
    };
    let j = match m_k_model(s, j) {
        Option::Some(j) => j,
        Option::None => {
            return Option::None;
        },
    };
    let (model, j) = match e_str(s, j) {
        Option::Some(p) => p,
        Option::None => {
            return Option::None;
        },
    };
    let j = match m_k_results(s, j) {
        Option::Some(j) => j,
        Option::None => {
            return Option::None;
        },
    };
    let j = match m_arr_open(s, j) {
        Option::Some(j) => j,
        Option::None => {
            return Option::None;
        },
    };
    let (results, j) = match d_result_items(s, j) {
        Option::Some(p) => p,
        Option::None => {
            return Option::None;
        },
    };
    let j = match m_obj_end(s, j) {
        Option::Some(j) => j,
        Option::None => {
            return Option::None;
        },
    };
    if j == s.len() {
        Option::Some(
            crate::msg::ClientMessage::InterviewResult { interview_id: iid, model, results },
        )
    } else {
        Option::None
    }
}

/// Decodes one outbound frame, mirroring [`p_client`].
pub fn decode_client_message(s: &[u8]) -> (r: Option<crate::msg::ClientMessage>)
    ensures
        cli_step(r, p_client(s@)),
{
    let n = s.len();
    match m_pong_msg(s, 0) {
        Option::Some(j) => {
            if j == n {
                return Option::Some(crate::msg::ClientMessage::Pong);
            }
        },
        Option::None => {},
    }
    match m_heartbeat_msg(s, 0) {
        Option::Some(j) => {
            if j == n {
                return Option::Some(crate::msg::ClientMessage::Heartbeat);
            }
        },
        Option::None => {},
    }
    match dc_auth(s) {
        Option::Some(m) => {
            return Option::Some(m);
        },
        Option::None => {},
    }
    match dc_wallet(s) {
        Option::Some(m) => {
            return Option::Some(m);
        },
        Option::None => {},
    }
    match dc_register(s) {
        Option::Some(m) => {
            return Option::Some(m);
        },
        Option::None => {},
    }
    match dc_response(s) {
        Option::Some(m) => {
            return Option::Some(m);
        },
        Option::None => {},
    }
    match dc_infer_err(s) {
        Option::Some(m) => {
            return Option::Some(m);
        },
        Option::None => {},
    }
    dc_iv_result(s)
}

} // verus!






