//! A tolerant JSON reader for inbound frames.
//!
//! Outbound frames are written in one canonical form, but the peer may
//! serialize however it likes: keys in any order, whitespace anywhere
//! between tokens, fields this client does not know.  This module reads any
//! such object into a generic value tree; the router's decoder then picks
//! the fields it needs out of the tree, wherever they stood.

use vstd::prelude::*;

use crate::codec::{CM, LB, LS, QU, RB, RS};
use crate::parse::{p_lit, p_numtext, p_str, e_numtext, e_str};

verus! {

broadcast use vstd::std_specs::vec::axiom_vec_decreases_to_view, vstd::seq::axiom_seq_index_decreases;

/// One JSON value: strings decoded, numbers kept as raw text.
pub enum Json {
    Null,
    Bool(bool),
    Num(Vec<u8>),
    Text(Vec<u8>),
    Arr(Vec<Json>),
    Obj(Vec<(Vec<u8>, Json)>),
}

/// Ghost mirror of [`Json`].
pub enum JsonV {
    Null,
    Bool(bool),
    Num(Seq<u8>),
    Text(Seq<u8>),
    Arr(Seq<JsonV>),
    Obj(Seq<(Seq<u8>, JsonV)>),
}

/// The ghost value of a JSON tree.
pub open spec fn jv(j: Json) -> JsonV
    decreases j,
    when true
    via jv_dec
{
    match j {
        Json::Null => JsonV::Null,
        Json::Bool(b) => JsonV::Bool(b),
        Json::Num(t) => JsonV::Num(t@),
        Json::Text(t) => JsonV::Text(t@),
        Json::Arr(items) => JsonV::Arr(jvl(items@)),
        Json::Obj(fields) => JsonV::Obj(jvf(fields@)),
    }
}

#[via_fn]
proof fn jv_dec(j: Json) {
    broadcast use vstd::std_specs::vec::axiom_vec_decreases_to_view;

}

/// The ghost values of a list of JSON trees.
pub open spec fn jvl(items: Seq<Json>) -> Seq<JsonV>
    decreases items,
    when true
    via jvl_dec
{
    if items.len() == 0 {
        Seq::empty()
    } else {
        seq![jv(items.first())] + jvl(items.drop_first())
    }
}

#[via_fn]
proof fn jvl_dec(items: Seq<Json>) {
    broadcast use vstd::seq::axiom_seq_index_decreases;

    if items.len() > 0 {
        vstd::seq::axiom_seq_subrange_decreases(items, 1, items.len() as int);
        assert(items.drop_first() == items.subrange(1, items.len() as int));
    }
}

/// The ghost values of an object's keyed members.
pub open spec fn jvf(fields: Seq<(Vec<u8>, Json)>) -> Seq<(Seq<u8>, JsonV)>
    decreases fields,
    when true
    via jvf_dec
{
    if fields.len() == 0 {
        Seq::empty()
    } else {
        seq![(fields.first().0@, jv(fields.first().1))] + jvf(fields.drop_first())
    }
}

#[via_fn]
proof fn jvf_dec(fields: Seq<(Vec<u8>, Json)>) {
    broadcast use vstd::seq::axiom_seq_index_decreases;

    if fields.len() > 0 {
        vstd::seq::axiom_seq_subrange_decreases(fields, 1, fields.len() as int);
        assert(fields.drop_first() == fields.subrange(1, fields.len() as int));
    }
}

impl View for Json {
    type V = JsonV;

    open spec fn view(&self) -> JsonV {
        jv(*self)
    }
}

/// A JSON whitespace byte.
pub open spec fn is_ws(b: u8) -> bool {
    b == 0x20 || b == 0x09 || b == 0x0a || b == 0x0d
}

/// End of the whitespace run starting at `i`.
pub open spec fn ws_end(s: Seq<u8>, i: int) -> int
    decreases s.len() - i,
{
    if 0 <= i && i < s.len() && is_ws(s[i]) {
        ws_end(s, i + 1)
    } else {
        i
    }
}

/// End of the whitespace run, mirroring [`ws_end`].
pub fn e_ws_end(s: &[u8], i: usize) -> (r: usize)
    requires
        i <= s@.len(),
    ensures
        r as int == ws_end(s@, i as int),
        i <= r <= s@.len(),
    decreases s@.len() - i,
{
    if i < s.len() && (s[i] == 0x20 || s[i] == 0x09 || s[i] == 0x0a || s[i] == 0x0d) {
        e_ws_end(s, i + 1)
    } else {
        i
    }
}

/// Reads one JSON value at a non-whitespace position.  The fuel bounds the
/// nesting; the callers pass the input length, which every possible parse
/// stays within, since each descent first consumes a byte.
pub open spec fn p_value(s: Seq<u8>, i: int, fuel: nat) -> Option<(JsonV, int)>
    decreases fuel,
{
    if fuel == 0 || i < 0 || i >= s.len() {
        Option::None
    } else if s[i] == QU {
        match p_str(s, i) {
            Option::Some((t, j)) => Option::Some((JsonV::Text(t), j)),
            Option::None => Option::None,
        }
    } else if s[i] == LB {
        match p_fields(s, ws_end(s, i + 1), (fuel - 1) as nat) {
            Option::Some((fs, j)) => Option::Some((JsonV::Obj(fs), j)),
            Option::None => Option::None,
        }
    } else if s[i] == LS {
        match p_elems(s, ws_end(s, i + 1), (fuel - 1) as nat) {
            Option::Some((vs, j)) => Option::Some((JsonV::Arr(vs), j)),
            Option::None => Option::None,
        }
    } else if s[i] == 0x74 {
        match p_lit(s, i, crate::encode::lit_true()) {
            Option::Some(j) => Option::Some((JsonV::Bool(true), j)),
            Option::None => Option::None,
        }
    } else if s[i] == 0x66 {
        match p_lit(s, i, crate::encode::lit_false()) {
            Option::Some(j) => Option::Some((JsonV::Bool(false), j)),
            Option::None => Option::None,
        }
    } else if s[i] == 0x6e {
        match p_lit(s, i, crate::encode::lit_null()) {
            Option::Some(j) => Option::Some((JsonV::Null, j)),
            Option::None => Option::None,
        }
    } else {
        match p_numtext(s, i) {
            Option::Some((t, j)) => Option::Some((JsonV::Num(t), j)),
            Option::None => Option::None,
        }
    }
}

/// Reads an object's members after `{` and any whitespace, up to and over
/// the closing brace.
pub open spec fn p_fields(s: Seq<u8>, i: int, fuel: nat) -> Option<
    (Seq<(Seq<u8>, JsonV)>, int),
>
    decreases fuel,
{
    if fuel == 0 || i < 0 || i >= s.len() {
        Option::None
    } else if s[i] == RB {
        Option::Some((Seq::empty(), i + 1))
    } else {
        match p_str(s, i) {
            Option::None => Option::None,
            Option::Some((k, j)) => {
                let j = ws_end(s, j);
                if j < s.len() && s[j] == 0x3a {
                    match p_value(s, ws_end(s, j + 1), (fuel - 1) as nat) {
                        Option::None => Option::None,
                        Option::Some((v, j2)) => {
                            let j3 = ws_end(s, j2);
                            if j3 < s.len() && s[j3] == CM {
                                match p_fields(s, ws_end(s, j3 + 1), (fuel - 1) as nat) {
                                    Option::None => Option::None,
                                    Option::Some((rest, j4)) => Option::Some(
                                        (seq![(k, v)] + rest, j4),
                                    ),
                                }
                            } else if j3 < s.len() && s[j3] == RB {
                                Option::Some((seq![(k, v)], j3 + 1))
                            } else {
                                Option::None
                            }
                        },
                    }
                } else {
                    Option::None
                }
            },
        }
    }
}

/// Reads an array's elements after `[` and any whitespace, up to and over
/// the closing bracket.
pub open spec fn p_elems(s: Seq<u8>, i: int, fuel: nat) -> Option<(Seq<JsonV>, int)>
    decreases fuel,
{
    if fuel == 0 || i < 0 || i >= s.len() {
        Option::None
    } else if s[i] == RS {
        Option::Some((Seq::empty(), i + 1))
    } else {
        match p_value(s, i, (fuel - 1) as nat) {
            Option::None => Option::None,
            Option::Some((v, j)) => {
                let j2 = ws_end(s, j);
                if j2 < s.len() && s[j2] == CM {
                    match p_elems(s, ws_end(s, j2 + 1), (fuel - 1) as nat) {
                        Option::None => Option::None,
                        Option::Some((rest, j3)) => Option::Some((seq![v] + rest, j3)),
                    }
                } else if j2 < s.len() && s[j2] == RS {
                    Option::Some((seq![v], j2 + 1))
                } else {
                    Option::None
                }
            },
        }
    }
}

/// A value result agrees with the specification parser.
pub open spec fn val_step(r: Option<(Json, usize)>, sr: Option<(JsonV, int)>, len: int) -> bool {
    match (r, sr) {
        (Option::Some((v, j)), Option::Some((sv, sj))) => v@ == sv && j as int == sj && j as int
            <= len,
        (Option::None, Option::None) => true,
        _ => false,
    }
}

/// A members result agrees with the specification parser.
pub open spec fn fields_step(
    r: Option<(Vec<(Vec<u8>, Json)>, usize)>,
    sr: Option<(Seq<(Seq<u8>, JsonV)>, int)>,
    len: int,
) -> bool {
    match (r, sr) {
        (Option::Some((fs, j)), Option::Some((sv, sj))) => jvf(fs@) == sv && j as int == sj
            && j as int <= len,
        (Option::None, Option::None) => true,
        _ => false,
    }
}

/// An elements result agrees with the specification parser.
pub open spec fn elems_step(
    r: Option<(Vec<Json>, usize)>,
    sr: Option<(Seq<JsonV>, int)>,
    len: int,
) -> bool {
    match (r, sr) {
        (Option::Some((vs, j)), Option::Some((sv, sj))) => jvl(vs@) == sv && j as int == sj
            && j as int <= len,
        (Option::None, Option::None) => true,
        _ => false,
    }
}

/// Reads one JSON value, mirroring [`p_value`].
pub fn d_value(s: &[u8], i: usize, fuel: usize) -> (r: Option<(Json, usize)>)
    requires
        i <= s@.len(),
    ensures
        val_step(r, p_value(s@, i as int, fuel as nat), s@.len() as int),
    decreases fuel,
{
    if fuel == 0 || i >= s.len() {
        return Option::None;
    }
    let b = s[i];
    if b == QU {
        match e_str(s, i) {
            Option::Some((t, j)) => Option::Some((Json::Text(t), j)),
            Option::None => Option::None,
        }
    } else if b == LB {
        let j = e_ws_end(s, i + 1);
        match d_fields(s, j, fuel - 1) {
            Option::Some((fs, j2)) => Option::Some((Json::Obj(fs), j2)),
            Option::None => Option::None,
        }
    } else if b == LS {
        let j = e_ws_end(s, i + 1);
        match d_elems(s, j, fuel - 1) {
            Option::Some((vs, j2)) => Option::Some((Json::Arr(vs), j2)),
            Option::None => Option::None,
        }
    } else if b == 0x74 {
        match crate::parse::m_lit_true(s, i) {
            Option::Some(j) => Option::Some((Json::Bool(true), j)),
            Option::None => Option::None,
        }
    } else if b == 0x66 {
        match crate::parse::m_lit_false(s, i) {
            Option::Some(j) => Option::Some((Json::Bool(false), j)),
            Option::None => Option::None,
        }
    } else if b == 0x6e {
        match crate::parse::m_lit_null(s, i) {
            Option::Some(j) => Option::Some((Json::Null, j)),
            Option::None => Option::None,
        }
    } else {
        match e_numtext(s, i) {
            Option::Some((t, j)) => Option::Some((Json::Num(t), j)),
            Option::None => Option::None,
        }
    }
}

/// Reads an object's members, mirroring [`p_fields`].
pub fn d_fields(s: &[u8], i: usize, fuel: usize) -> (r: Option<(Vec<(Vec<u8>, Json)>, usize)>)
    requires
        i <= s@.len(),
    ensures
        fields_step(r, p_fields(s@, i as int, fuel as nat), s@.len() as int),
    decreases fuel,
{
    if fuel == 0 || i >= s.len() {
        return Option::None;
    }
    if s[i] == RB {
        let empty: Vec<(Vec<u8>, Json)> = Vec::new();
        proof {
            assert(jvf(empty@) =~= Seq::<(Seq<u8>, JsonV)>::empty());
        }
        return Option::Some((empty, i + 1));
    }
    let (k, j) = match e_str(s, i) {
        Option::Some(p) => p,
        Option::None => {
            return Option::None;
        },
    };
    let j = e_ws_end(s, j);
    if !(j < s.len() && s[j] == 0x3a) {
        return Option::None;
    }
    let j1 = e_ws_end(s, j + 1);
    let (v, j2) = match d_value(s, j1, fuel - 1) {
        Option::Some(p) => p,
        Option::None => {
            return Option::None;
        },
    };
    let j3 = e_ws_end(s, j2);
    if j3 < s.len() && s[j3] == CM {
        let j4 = e_ws_end(s, j3 + 1);
        match d_fields(s, j4, fuel - 1) {
            Option::None => Option::None,
            Option::Some((mut rest, j5)) => {
                let ghost r0 = rest@;
                let ghost rv = jvf(rest@);
                let ghost kv = (k@, v@);
                rest.insert(0, (k, v));
                proof {
                    assert(rest@.first() == (k, v));
                    assert(rest@.drop_first() =~= r0);
                    assert(jvf(rest@) =~= seq![kv] + rv);
                }
                Option::Some((rest, j5))
            },
        }
    } else if j3 < s.len() && s[j3] == RB {
        let ghost kv = (k@, v@);
        let mut one: Vec<(Vec<u8>, Json)> = Vec::new();
        one.push((k, v));
        proof {
            reveal_with_fuel(jvf, 2);
            assert(one@.drop_first() =~= Seq::<(Vec<u8>, Json)>::empty());
            assert(jvf(one@) =~= seq![kv]);
        }
        Option::Some((one, j3 + 1))
    } else {
        Option::None
    }
}

/// Reads an array's elements, mirroring [`p_elems`].
pub fn d_elems(s: &[u8], i: usize, fuel: usize) -> (r: Option<(Vec<Json>, usize)>)
    requires
        i <= s@.len(),
    ensures
        elems_step(r, p_elems(s@, i as int, fuel as nat), s@.len() as int),
    decreases fuel,
{
    if fuel == 0 || i >= s.len() {
        return Option::None;
    }
    if s[i] == RS {
        let empty: Vec<Json> = Vec::new();
        proof {
            assert(jvl(empty@) =~= Seq::<JsonV>::empty());
        }
        return Option::Some((empty, i + 1));
    }
    let (v, j) = match d_value(s, i, fuel - 1) {
        Option::Some(p) => p,
        Option::None => {
            return Option::None;
        },
    };
    let j2 = e_ws_end(s, j);
    if j2 < s.len() && s[j2] == CM {
        let j3 = e_ws_end(s, j2 + 1);
        match d_elems(s, j3, fuel - 1) {
            Option::None => Option::None,
            Option::Some((mut rest, j4)) => {
                let ghost r0 = rest@;
                let ghost rv = jvl(rest@);
                let ghost vv = v@;
                rest.insert(0, v);
                proof {
                    assert(rest@.first() == v);
                    assert(rest@.drop_first() =~= r0);
                    assert(jvl(rest@) =~= seq![vv] + rv);
                }
                Option::Some((rest, j4))
            },
        }
    } else if j2 < s.len() && s[j2] == RS {
        let ghost vv = v@;
        let mut one: Vec<Json> = Vec::new();
        one.push(v);
        proof {
            reveal_with_fuel(jvl, 2);
            assert(one@.drop_first() =~= Seq::<Json>::empty());
            assert(jvl(one@) =~= seq![vv]);
        }
        Option::Some((one, j2 + 1))
    } else {
        Option::None
    }
}

/// What a whole frame reads as: one value surrounded by whitespace and
/// nothing else.
pub open spec fn p_frame(s: Seq<u8>) -> Option<JsonV> {
    match p_value(s, ws_end(s, 0), s.len()) {
        Option::None => Option::None,
        Option::Some((v, j)) => if ws_end(s, j) == s.len() {
            Option::Some(v)
        } else {
            Option::None
        },
    }
}

/// A frame result agrees with the specification reader.
pub open spec fn frame_step(r: Option<Json>, sr: Option<JsonV>) -> bool {
    match (r, sr) {
        (Option::Some(v), Option::Some(sv)) => v@ == sv,
        (Option::None, Option::None) => true,
        _ => false,
    }
}

/// Reads a whole frame, mirroring [`p_frame`].
pub fn d_frame(s: &[u8]) -> (r: Option<Json>)
    ensures
        frame_step(r, p_frame(s@)),
{
    let st = e_ws_end(s, 0);
    match d_value(s, st, s.len()) {
        Option::None => Option::None,
        Option::Some((v, j)) => {
            if e_ws_end(s, j) == s.len() {
                Option::Some(v)
            } else {
                Option::None
            }
        },
    }
}

/// The byte string `type`.
pub open spec fn jk_type() -> Seq<u8> {
    seq![0x74u8, 0x79, 0x70, 0x65]
}

/// The byte string `operatorId`.
pub open spec fn jk_operator_id() -> Seq<u8> {
    seq![0x6fu8, 0x70, 0x65, 0x72, 0x61, 0x74, 0x6f, 0x72, 0x49, 0x64]
}

/// The byte string `nodeId`.
pub open spec fn jk_node_id() -> Seq<u8> {
    seq![0x6eu8, 0x6f, 0x64, 0x65, 0x49, 0x64]
}

/// The byte string `message`.
pub open spec fn jk_message() -> Seq<u8> {
    seq![0x6du8, 0x65, 0x73, 0x73, 0x61, 0x67, 0x65]
}

/// The byte string `alias`.
pub open spec fn jk_alias() -> Seq<u8> {
    seq![0x61u8, 0x6c, 0x69, 0x61, 0x73]
}

/// The byte string `models`.
pub open spec fn jk_models() -> Seq<u8> {
    seq![0x6du8, 0x6f, 0x64, 0x65, 0x6c, 0x73]
}

/// The byte string `created`.
pub open spec fn jk_created() -> Seq<u8> {
    seq![0x63u8, 0x72, 0x65, 0x61, 0x74, 0x65, 0x64]
}

/// The byte string `success`.
pub open spec fn jk_success() -> Seq<u8> {
    seq![0x73u8, 0x75, 0x63, 0x63, 0x65, 0x73, 0x73]
}

/// The byte string `requestId`.
pub open spec fn jk_request_id() -> Seq<u8> {
    seq![0x72u8, 0x65, 0x71, 0x75, 0x65, 0x73, 0x74, 0x49, 0x64]
}

/// The byte string `payload`.
pub open spec fn jk_payload() -> Seq<u8> {
    seq![0x70u8, 0x61, 0x79, 0x6c, 0x6f, 0x61, 0x64]
}

/// The byte string `model`.
pub open spec fn jk_model() -> Seq<u8> {
    seq![0x6du8, 0x6f, 0x64, 0x65, 0x6c]
}

/// The byte string `messages`.
pub open spec fn jk_messages() -> Seq<u8> {
    seq![0x6du8, 0x65, 0x73, 0x73, 0x61, 0x67, 0x65, 0x73]
}

/// The byte string `stream`.
pub open spec fn jk_stream() -> Seq<u8> {
    seq![0x73u8, 0x74, 0x72, 0x65, 0x61, 0x6d]
}

/// The byte string `interviewId`.
pub open spec fn jk_interview_id() -> Seq<u8> {
    seq![0x69u8, 0x6e, 0x74, 0x65, 0x72, 0x76, 0x69, 0x65, 0x77, 0x49, 0x64]
}

/// The byte string `prompts`.
pub open spec fn jk_prompts() -> Seq<u8> {
    seq![0x70u8, 0x72, 0x6f, 0x6d, 0x70, 0x74, 0x73]
}

/// The byte string `id`.
pub open spec fn jk_id() -> Seq<u8> {
    seq![0x69u8, 0x64]
}

/// The byte string `prompt`.
pub open spec fn jk_prompt() -> Seq<u8> {
    seq![0x70u8, 0x72, 0x6f, 0x6d, 0x70, 0x74]
}

/// The byte string `maxTokens`.
pub open spec fn jk_max_tokens() -> Seq<u8> {
    seq![0x6du8, 0x61, 0x78, 0x54, 0x6f, 0x6b, 0x65, 0x6e, 0x73]
}

/// The byte string `timeoutMs`.
pub open spec fn jk_timeout_ms() -> Seq<u8> {
    seq![0x74u8, 0x69, 0x6d, 0x65, 0x6f, 0x75, 0x74, 0x4d, 0x73]
}

/// The byte string `tier`.
pub open spec fn jk_tier() -> Seq<u8> {
    seq![0x74u8, 0x69, 0x65, 0x72]
}

/// The byte string `accuracy`.
pub open spec fn jk_accuracy() -> Seq<u8> {
    seq![0x61u8, 0x63, 0x63, 0x75, 0x72, 0x61, 0x63, 0x79]
}

/// The byte string `tokensPerSec`.
pub open spec fn jk_tokens_per_sec() -> Seq<u8> {
    seq![0x74u8, 0x6f, 0x6b, 0x65, 0x6e, 0x73, 0x50, 0x65, 0x72, 0x53, 0x65, 0x63]
}

/// The byte string `reason`.
pub open spec fn jk_reason() -> Seq<u8> {
    seq![0x72u8, 0x65, 0x61, 0x73, 0x6f, 0x6e]
}

/// The byte string `role`.
pub open spec fn jk_role() -> Seq<u8> {
    seq![0x72u8, 0x6f, 0x6c, 0x65]
}

/// The byte string `content`.
pub open spec fn jk_content() -> Seq<u8> {
    seq![0x63u8, 0x6f, 0x6e, 0x74, 0x65, 0x6e, 0x74]
}

/// The byte string `AUTH_SUCCESS`.
pub open spec fn jt_auth_success() -> Seq<u8> {
    seq![0x41u8, 0x55, 0x54, 0x48, 0x5f, 0x53, 0x55, 0x43, 0x43, 0x45, 0x53, 0x53]
}

/// The byte string `ERROR`.
pub open spec fn jt_error() -> Seq<u8> {
    seq![0x45u8, 0x52, 0x52, 0x4f, 0x52]
}

/// The byte string `PING`.
pub open spec fn jt_ping() -> Seq<u8> {
    seq![0x50u8, 0x49, 0x4e, 0x47]
}

/// The byte string `HEARTBEAT_ACK`.
pub open spec fn jt_heartbeat_ack() -> Seq<u8> {
    seq![0x48u8, 0x45, 0x41, 0x52, 0x54, 0x42, 0x45, 0x41, 0x54, 0x5f, 0x41, 0x43, 0x4b]
}

/// The byte string `MODEL_LIST_ACK`.
pub open spec fn jt_model_list_ack() -> Seq<u8> {
    seq![0x4du8, 0x4f, 0x44, 0x45, 0x4c, 0x5f, 0x4c, 0x49, 0x53, 0x54, 0x5f, 0x41, 0x43, 0x4b]
}

/// The byte string `REGISTER_NODE_ACK`.
pub open spec fn jt_register_node_ack() -> Seq<u8> {
    seq![0x52u8, 0x45, 0x47, 0x49, 0x53, 0x54, 0x45, 0x52, 0x5f, 0x4e, 0x4f, 0x44, 0x45, 0x5f, 0x41, 0x43, 0x4b]
}

/// The byte string `UPDATE_WALLET_ACK`.
pub open spec fn jt_update_wallet_ack() -> Seq<u8> {
    seq![0x55u8, 0x50, 0x44, 0x41, 0x54, 0x45, 0x5f, 0x57, 0x41, 0x4c, 0x4c, 0x45, 0x54, 0x5f, 0x41, 0x43, 0x4b]
}

/// The byte string `INFERENCE_REQUEST`.
pub open spec fn jt_inference_request() -> Seq<u8> {
    seq![0x49u8, 0x4e, 0x46, 0x45, 0x52, 0x45, 0x4e, 0x43, 0x45, 0x5f, 0x52, 0x45, 0x51, 0x55, 0x45, 0x53, 0x54]
}

/// The byte string `INTERVIEW_REQUEST`.
pub open spec fn jt_interview_request() -> Seq<u8> {
    seq![0x49u8, 0x4e, 0x54, 0x45, 0x52, 0x56, 0x49, 0x45, 0x57, 0x5f, 0x52, 0x45, 0x51, 0x55, 0x45, 0x53, 0x54]
}

/// The byte string `INTERVIEW_COMPLETE`.
pub open spec fn jt_interview_complete() -> Seq<u8> {
    seq![0x49u8, 0x4e, 0x54, 0x45, 0x52, 0x56, 0x49, 0x45, 0x57, 0x5f, 0x43, 0x4f, 0x4d, 0x50, 0x4c, 0x45, 0x54, 0x45]
}

/// The value of the first member with the given key, if any.
pub open spec fn obj_get(fs: Seq<(Seq<u8>, JsonV)>, key: Seq<u8>) -> Option<JsonV>
    decreases fs.len(),
{
    if fs.len() == 0 {
        Option::None
    } else if fs.first().0 == key {
        Option::Some(fs.first().1)
    } else {
        obj_get(fs.drop_first(), key)
    }
}

/// The ghost members have the same length and entries as the tree's.
pub proof fn lemma_jvf_props(fs: Seq<(Vec<u8>, Json)>)
    ensures
        jvf(fs).len() == fs.len(),
        forall|i: int| 0 <= i < fs.len() ==> #[trigger] jvf(fs)[i] == (fs[i].0@, jv(fs[i].1)),
    decreases fs.len(),
{
    if fs.len() > 0 {
        lemma_jvf_props(fs.drop_first());
        assert(forall|i: int|
            1 <= i < fs.len() ==> #[trigger] jvf(fs)[i] == jvf(fs.drop_first())[i - 1]);
    }
}

/// The ghost elements have the same length and entries as the tree's.
pub proof fn lemma_jvl_props(items: Seq<Json>)
    ensures
        jvl(items).len() == items.len(),
        forall|i: int| 0 <= i < items.len() ==> #[trigger] jvl(items)[i] == jv(items[i]),
    decreases items.len(),
{
    if items.len() > 0 {
        lemma_jvl_props(items.drop_first());
        assert(forall|i: int|
            1 <= i < items.len() ==> #[trigger] jvl(items)[i] == jvl(items.drop_first())[i
                - 1]);
    }
}

/// If no member before `i` has the key and member `i` does, the lookup
/// lands on member `i`.
proof fn lemma_obj_get_first(fs: Seq<(Seq<u8>, JsonV)>, key: Seq<u8>, i: int)
    requires
        0 <= i < fs.len(),
        fs[i].0 == key,
        forall|k: int| 0 <= k < i ==> fs[k].0 != key,
    ensures
        obj_get(fs, key) == Option::Some(fs[i].1),
    decreases i,
{
    if i == 0 {
    } else {
        assert(fs.first().0 != key);
        lemma_obj_get_first(fs.drop_first(), key, i - 1);
        assert(forall|k: int| 0 <= k < i - 1 ==> fs.drop_first()[k] == fs[k + 1]);
    }
}

/// If no member has the key, the lookup fails.
proof fn lemma_obj_get_none(fs: Seq<(Seq<u8>, JsonV)>, key: Seq<u8>)
    requires
        forall|k: int| 0 <= k < fs.len() ==> fs[k].0 != key,
    ensures
        obj_get(fs, key) is None,
    decreases fs.len(),
{
    if fs.len() > 0 {
        lemma_obj_get_none(fs.drop_first(), key);
    }
}

/// Looks a key up among an object's members, mirroring [`obj_get`].
pub fn find<'a>(fs: &'a Vec<(Vec<u8>, Json)>, key: &[u8]) -> (r: Option<&'a Json>)
    ensures
        match r {
            Option::Some(v) => obj_get(jvf(fs@), key@) == Option::Some(jv(*v)),
            Option::None => obj_get(jvf(fs@), key@) is None,
        },
{
    proof {
        lemma_jvf_props(fs@);
    }
    let n = fs.len();
    let mut i: usize = 0;
    while i < n
        invariant
            n == fs@.len(),
            i <= n,
            jvf(fs@).len() == fs@.len(),
            forall|q: int| 0 <= q < fs@.len() ==> #[trigger] jvf(fs@)[q] == (fs@[q].0@, jv(
                fs@[q].1,
            )),
            forall|k: int| 0 <= k < i ==> jvf(fs@)[k].0 != key@,
        decreases n - i,
    {
        if crate::codec::bytes_eq(fs[i].0.as_slice(), key) {
            proof {
                lemma_obj_get_first(jvf(fs@), key@, i as int);
            }
            return Option::Some(&fs[i].1);
        }
        i = i + 1;
    }
    proof {
        lemma_obj_get_none(jvf(fs@), key@);
    }
    Option::None
}

/// The key's value where it is a string.
pub open spec fn get_text(fs: Seq<(Seq<u8>, JsonV)>, key: Seq<u8>) -> Option<Seq<u8>> {
    match obj_get(fs, key) {
        Option::Some(JsonV::Text(t)) => Option::Some(t),
        _ => Option::None,
    }
}

/// The key's value where it is a string, `null`, or absent.
pub open spec fn get_opt_text(fs: Seq<(Seq<u8>, JsonV)>, key: Seq<u8>) -> Option<
    Option<Seq<u8>>,
> {
    match obj_get(fs, key) {
        Option::Some(JsonV::Text(t)) => Option::Some(Option::Some(t)),
        Option::Some(JsonV::Null) => Option::Some(Option::None),
        Option::None => Option::Some(Option::None),
        _ => Option::None,
    }
}

/// The key's value where it is a boolean.
pub open spec fn get_bool(fs: Seq<(Seq<u8>, JsonV)>, key: Seq<u8>) -> Option<bool> {
    match obj_get(fs, key) {
        Option::Some(JsonV::Bool(b)) => Option::Some(b),
        _ => Option::None,
    }
}

/// The key's value where it is a boolean or absent, absent meaning false.
pub open spec fn get_bool_or_false(fs: Seq<(Seq<u8>, JsonV)>, key: Seq<u8>) -> Option<bool> {
    match obj_get(fs, key) {
        Option::Some(JsonV::Bool(b)) => Option::Some(b),
        Option::None => Option::Some(false),
        _ => Option::None,
    }
}

/// The value of an unsigned numeral that fits `u32`.
pub open spec fn num_u32(raw: Seq<u8>) -> Option<u32> {
    match crate::parse::p_u64(raw, 0) {
        Option::Some((v, j)) => if j == raw.len() && v <= u32::MAX as u64 {
            Option::Some(v as u32)
        } else {
            Option::None
        },
        _ => Option::None,
    }
}

/// The key's value where it is a whole number fitting `u32`.
pub open spec fn get_u32(fs: Seq<(Seq<u8>, JsonV)>, key: Seq<u8>) -> Option<u32> {
    match obj_get(fs, key) {
        Option::Some(JsonV::Num(raw)) => num_u32(raw),
        _ => Option::None,
    }
}

/// The key's value where it is a number, kept as raw text.
pub open spec fn get_num_raw(fs: Seq<(Seq<u8>, JsonV)>, key: Seq<u8>) -> Option<Seq<u8>> {
    match obj_get(fs, key) {
        Option::Some(JsonV::Num(raw)) => Option::Some(raw),
        _ => Option::None,
    }
}

/// The elements from `i` on, where every one is a string.
pub open spec fn texts_from(l: Seq<JsonV>, i: int) -> Option<Seq<Seq<u8>>>
    decreases l.len() - i,
{
    if i < 0 || i >= l.len() {
        Option::Some(Seq::empty())
    } else {
        match l[i] {
            JsonV::Text(t) => match texts_from(l, i + 1) {
                Option::Some(r) => Option::Some(seq![t] + r),
                Option::None => Option::None,
            },
            _ => Option::None,
        }
    }
}

/// The key's value where it is an array of strings.
pub open spec fn get_texts(fs: Seq<(Seq<u8>, JsonV)>, key: Seq<u8>) -> Option<Seq<Seq<u8>>> {
    match obj_get(fs, key) {
        Option::Some(JsonV::Arr(l)) => texts_from(l, 0),
        _ => Option::None,
    }
}

/// A role/content object.
pub open spec fn chat_msg_of(v: JsonV) -> Option<crate::msg::ChatMsgV> {
    match v {
        JsonV::Obj(fs) => match (get_text(fs, jk_role()), get_text(fs, jk_content())) {
            (Option::Some(role), Option::Some(content)) => Option::Some(
                crate::msg::ChatMsgV { role, content },
            ),
            _ => Option::None,
        },
        _ => Option::None,
    }
}

/// The elements from `i` on, where every one is a role/content object.
pub open spec fn chat_msgs_from(l: Seq<JsonV>, i: int) -> Option<Seq<crate::msg::ChatMsgV>>
    decreases l.len() - i,
{
    if i < 0 || i >= l.len() {
        Option::Some(Seq::empty())
    } else {
        match chat_msg_of(l[i]) {
            Option::Some(m) => match chat_msgs_from(l, i + 1) {
                Option::Some(r) => Option::Some(seq![m] + r),
                Option::None => Option::None,
            },
            Option::None => Option::None,
        }
    }
}

/// An interview prompt object.
pub open spec fn prompt_of(v: JsonV) -> Option<crate::msg::InterviewPromptV> {
    match v {
        JsonV::Obj(fs) => match (
            get_text(fs, jk_id()),
            get_text(fs, jk_prompt()),
            get_u32(fs, jk_max_tokens()),
        ) {
            (Option::Some(id), Option::Some(prompt), Option::Some(mt)) => Option::Some(
                crate::msg::InterviewPromptV { id, prompt, max_tokens: mt },
            ),
            _ => Option::None,
        },
        _ => Option::None,
    }
}

/// The elements from `i` on, where every one is a prompt object.
pub open spec fn prompts_from(l: Seq<JsonV>, i: int) -> Option<
    Seq<crate::msg::InterviewPromptV>,
>
    decreases l.len() - i,
{
    if i < 0 || i >= l.len() {
        Option::Some(Seq::empty())
    } else {
        match prompt_of(l[i]) {
            Option::Some(m) => match prompts_from(l, i + 1) {
                Option::Some(r) => Option::Some(seq![m] + r),
                Option::None => Option::None,
            },
            Option::None => Option::None,
        }
    }
}

/// An inference payload object; a missing stream field means false, as the
/// peer may omit it.
pub open spec fn payload_of(v: JsonV) -> Option<crate::msg::InferencePayloadV> {
    match v {
        JsonV::Obj(fs) => match (get_text(fs, jk_model()), obj_get(fs, jk_messages())) {
            (Option::Some(model), Option::Some(JsonV::Arr(l))) => match (
                chat_msgs_from(l, 0),
                get_bool_or_false(fs, jk_stream()),
            ) {
                (Option::Some(messages), Option::Some(stream)) => Option::Some(
                    crate::msg::InferencePayloadV { model, messages, stream },
                ),
                _ => Option::None,
            },
            _ => Option::None,
        },
        _ => Option::None,
    }
}

/// Takes the key's string value out of an object's members.
fn take_text(fs: &Vec<(Vec<u8>, Json)>, key: &[u8]) -> (r: Option<Vec<u8>>)
    ensures
        match r {
            Option::Some(t) => get_text(jvf(fs@), key@) == Option::Some(t@),
            Option::None => get_text(jvf(fs@), key@) is None,
        },
{
    match find(fs, key) {
        Option::Some(Json::Text(t)) => Option::Some(crate::codec::clone_bytes(t)),
        _ => Option::None,
    }
}

/// Takes the key's optional string value: absent and `null` both stand for
/// no value.
fn take_opt_text(fs: &Vec<(Vec<u8>, Json)>, key: &[u8]) -> (r: Option<Option<Vec<u8>>>)
    ensures
        match r {
            Option::Some(t) => get_opt_text(jvf(fs@), key@) == Option::Some(crate::msg::ov(t)),
            Option::None => get_opt_text(jvf(fs@), key@) is None,
        },
{
    match find(fs, key) {
        Option::Some(Json::Text(t)) => Option::Some(
            Option::Some(crate::codec::clone_bytes(t)),
        ),
        Option::Some(Json::Null) => Option::Some(Option::None),
        Option::None => Option::Some(Option::None),
        _ => Option::None,
    }
}

/// Takes the key's boolean value.
fn take_bool(fs: &Vec<(Vec<u8>, Json)>, key: &[u8]) -> (r: Option<bool>)
    ensures
        r == get_bool(jvf(fs@), key@),
{
    match find(fs, key) {
        Option::Some(Json::Bool(b)) => Option::Some(*b),
        _ => Option::None,
    }
}

/// Takes the key's boolean value, an absent field standing for false.
fn take_bool_or_false(fs: &Vec<(Vec<u8>, Json)>, key: &[u8]) -> (r: Option<bool>)
    ensures
        r == get_bool_or_false(jvf(fs@), key@),
{
    match find(fs, key) {
        Option::Some(Json::Bool(b)) => Option::Some(*b),
        Option::None => Option::Some(false),
        _ => Option::None,
    }
}

/// Takes the key's whole-number value where it fits `u32`.
fn take_u32(fs: &Vec<(Vec<u8>, Json)>, key: &[u8]) -> (r: Option<u32>)
    ensures
        r == get_u32(jvf(fs@), key@),
{
    match find(fs, key) {
        Option::Some(Json::Num(raw)) => match crate::parse::e_u64(raw.as_slice(), 0) {
            Option::Some((v, j)) => {
                if j == raw.len() && v <= 0xffff_ffff {
                    Option::Some(v as u32)
                } else {
                    Option::None
                }
            },
            Option::None => Option::None,
        },
        _ => Option::None,
    }
}

/// Takes the key's numeral as raw text.
fn take_num_raw(fs: &Vec<(Vec<u8>, Json)>, key: &[u8]) -> (r: Option<Vec<u8>>)
    ensures
        match r {
            Option::Some(t) => get_num_raw(jvf(fs@), key@) == Option::Some(t@),
            Option::None => get_num_raw(jvf(fs@), key@) is None,
        },
{
    match find(fs, key) {
        Option::Some(Json::Num(raw)) => Option::Some(crate::codec::clone_bytes(raw)),
        _ => Option::None,
    }
}

/// Collects string elements from `i` on, mirroring [`texts_from`].
fn texts_exec(items: &Vec<Json>, i: usize) -> (r: Option<Vec<Vec<u8>>>)
    requires
        i <= items@.len(),
    ensures
        match r {
            Option::Some(l) => texts_from(jvl(items@), i as int) == Option::Some(
                l@.map_values(|v: Vec<u8>| v@),
            ),
            Option::None => texts_from(jvl(items@), i as int) is None,
        },
    decreases items@.len() - i,
{
    proof {
        lemma_jvl_props(items@);
    }
    if i >= items.len() {
        let empty: Vec<Vec<u8>> = Vec::new();
        proof {
            assert(empty@.map_values(|v: Vec<u8>| v@) =~= Seq::<Seq<u8>>::empty());
        }
        return Option::Some(empty);
    }
    match &items[i] {
        Json::Text(t) => match texts_exec(items, i + 1) {
            Option::Some(mut l) => {
                let ghost lv = l@.map_values(|v: Vec<u8>| v@);
                let ghost tv = t@;
                l.insert(0, crate::codec::clone_bytes(t));
                proof {
                    assert(l@.map_values(|v: Vec<u8>| v@) =~= seq![tv] + lv);
                }
                Option::Some(l)
            },
            Option::None => Option::None,
        },
        _ => Option::None,
    }
}

/// Reads one role/content object, mirroring [`chat_msg_of`].
fn chat_msg_exec(v: &Json) -> (r: Option<crate::msg::ChatMsg>)
    ensures
        match r {
            Option::Some(m) => chat_msg_of(v@) == Option::Some(m@),
            Option::None => chat_msg_of(v@) is None,
        },
{
    match v {
        Json::Obj(fs) => {
            let role = match take_text(fs, &[0x72u8, 0x6f, 0x6c, 0x65]) {
                Option::Some(t) => t,
                Option::None => {
                    return Option::None;
                },
            };
            let content = match take_text(fs, &[0x63u8, 0x6f, 0x6e, 0x74, 0x65, 0x6e, 0x74]) {
                Option::Some(t) => t,
                Option::None => {
                    return Option::None;
                },
            };
            Option::Some(crate::msg::ChatMsg { role, content })
        },
        _ => Option::None,
    }
}

/// Collects role/content objects from `i` on, mirroring [`chat_msgs_from`].
fn chat_msgs_exec(items: &Vec<Json>, i: usize) -> (r: Option<Vec<crate::msg::ChatMsg>>)
    requires
        i <= items@.len(),
    ensures
        match r {
            Option::Some(l) => chat_msgs_from(jvl(items@), i as int) == Option::Some(
                l@.map_values(|m: crate::msg::ChatMsg| m@),
            ),
            Option::None => chat_msgs_from(jvl(items@), i as int) is None,
        },
    decreases items@.len() - i,
{
    proof {
        lemma_jvl_props(items@);
    }
    if i >= items.len() {
        let empty: Vec<crate::msg::ChatMsg> = Vec::new();
        proof {
            assert(empty@.map_values(|m: crate::msg::ChatMsg| m@) =~= Seq::<
                crate::msg::ChatMsgV,
            >::empty());
        }
        return Option::Some(empty);
    }
    match chat_msg_exec(&items[i]) {
        Option::Some(m) => match chat_msgs_exec(items, i + 1) {
            Option::Some(mut l) => {
                let ghost lv = l@.map_values(|x: crate::msg::ChatMsg| x@);
                let ghost mv = m@;
                l.insert(0, m);
                proof {
                    assert(l@.map_values(|x: crate::msg::ChatMsg| x@) =~= seq![mv] + lv);
                }
                Option::Some(l)
            },
            Option::None => Option::None,
        },
        Option::None => Option::None,
    }
}

/// Reads one prompt object, mirroring [`prompt_of`].
fn prompt_exec(v: &Json) -> (r: Option<crate::msg::InterviewPrompt>)
    ensures
        match r {
            Option::Some(m) => prompt_of(v@) == Option::Some(m@),
            Option::None => prompt_of(v@) is None,
        },
{
    match v {
        Json::Obj(fs) => {
            let id = match take_text(fs, &[0x69u8, 0x64]) {
                Option::Some(t) => t,
                Option::None => {
                    return Option::None;
                },
            };
            let prompt = match take_text(fs, &[0x70u8, 0x72, 0x6f, 0x6d, 0x70, 0x74]) {
                Option::Some(t) => t,
                Option::None => {
                    return Option::None;
                },
            };
            let mt = match take_u32(fs, &[0x6du8, 0x61, 0x78, 0x54, 0x6f, 0x6b, 0x65, 0x6e, 0x73]) {
                Option::Some(n) => n,
                Option::None => {
                    return Option::None;
                },
            };
            Option::Some(crate::msg::InterviewPrompt { id, prompt, max_tokens: mt })
        },
        _ => Option::None,
    }
}

/// Collects prompt objects from `i` on, mirroring [`prompts_from`].
fn prompts_exec(items: &Vec<Json>, i: usize) -> (r: Option<Vec<crate::msg::InterviewPrompt>>)
    requires
        i <= items@.len(),
    ensures
        match r {
            Option::Some(l) => prompts_from(jvl(items@), i as int) == Option::Some(
                l@.map_values(|m: crate::msg::InterviewPrompt| m@),
            ),
            Option::None => prompts_from(jvl(items@), i as int) is None,
        },
    decreases items@.len() - i,
{
    proof {
        lemma_jvl_props(items@);
    }
    if i >= items.len() {
        let empty: Vec<crate::msg::InterviewPrompt> = Vec::new();
        proof {
            assert(empty@.map_values(|m: crate::msg::InterviewPrompt| m@) =~= Seq::<
                crate::msg::InterviewPromptV,
            >::empty());
        }
        return Option::Some(empty);
    }
    match prompt_exec(&items[i]) {
        Option::Some(m) => match prompts_exec(items, i + 1) {
            Option::Some(mut l) => {
                let ghost lv = l@.map_values(|x: crate::msg::InterviewPrompt| x@);
                let ghost mv = m@;
                l.insert(0, m);
                proof {
                    assert(l@.map_values(|x: crate::msg::InterviewPrompt| x@) =~= seq![mv]
                        + lv);
                }
                Option::Some(l)
            },
            Option::None => Option::None,
        },
        Option::None => Option::None,
    }
}

/// Reads an inference payload object, mirroring [`payload_of`].
fn payload_exec(v: &Json) -> (r: Option<crate::msg::InferencePayload>)
    ensures
        match r {
            Option::Some(m) => payload_of(v@) == Option::Some(m@),
            Option::None => payload_of(v@) is None,
        },
{
    match v {
        Json::Obj(fs) => {
            let model = match take_text(fs, &[0x6du8, 0x6f, 0x64, 0x65, 0x6c]) {
                Option::Some(t) => t,
                Option::None => {
                    return Option::None;
                },
            };
            let messages = match find(fs, &[0x6du8, 0x65, 0x73, 0x73, 0x61, 0x67, 0x65, 0x73]) {
                Option::Some(Json::Arr(items)) => match chat_msgs_exec(items, 0) {
                    Option::Some(l) => l,
                    Option::None => {
                        return Option::None;
                    },
                },
                _ => {
                    return Option::None;
                },
            };
            let stream = match take_bool_or_false(fs, &[0x73u8, 0x74, 0x72, 0x65, 0x61, 0x6d]) {
                Option::Some(b) => b,
                Option::None => {
                    return Option::None;
                },
            };
            Option::Some(crate::msg::InferencePayload { model, messages, stream })
        },
        _ => Option::None,
    }
}

/// AUTH_SUCCESS out of an object's members.
pub open spec fn mk_auth_success(fs: Seq<(Seq<u8>, JsonV)>) -> Option<
    crate::msg::ServerMessageV,
> {
    match (
        get_text(fs, jk_operator_id()),
        get_opt_text(fs, jk_node_id()),
        get_text(fs, jk_message()),
    ) {
        (Option::Some(op), Option::Some(nid), Option::Some(msg)) => Option::Some(
            crate::msg::ServerMessageV::AuthSuccess {
                operator_id: op,
                node_id: nid,
                message: msg,
            },
        ),
        _ => Option::None,
    }
}

/// ERROR out of an object's members.
pub open spec fn mk_error(fs: Seq<(Seq<u8>, JsonV)>) -> Option<crate::msg::ServerMessageV> {
    match get_text(fs, jk_message()) {
        Option::Some(msg) => Option::Some(crate::msg::ServerMessageV::ErrorMsg { message: msg }),
        Option::None => Option::None,
    }
}

/// REGISTER_NODE_ACK out of an object's members.
pub open spec fn mk_node_ack(fs: Seq<(Seq<u8>, JsonV)>) -> Option<crate::msg::ServerMessageV> {
    match (
        get_text(fs, jk_node_id()),
        get_text(fs, jk_alias()),
        get_texts(fs, jk_models()),
        get_bool(fs, jk_created()),
        get_text(fs, jk_message()),
    ) {
        (
            Option::Some(nid),
            Option::Some(alias),
            Option::Some(models),
            Option::Some(created),
            Option::Some(msg),
        ) => Option::Some(
            crate::msg::ServerMessageV::RegisterNodeAck {
                node_id: nid,
                alias,
                models,
                created,
                message: msg,
            },
        ),
        _ => Option::None,
    }
}

/// UPDATE_WALLET_ACK out of an object's members.
pub open spec fn mk_wallet_ack(fs: Seq<(Seq<u8>, JsonV)>) -> Option<crate::msg::ServerMessageV> {
    match (get_bool(fs, jk_success()), get_text(fs, jk_message())) {
        (Option::Some(ok), Option::Some(msg)) => Option::Some(
            crate::msg::ServerMessageV::UpdateWalletAck { success: ok, message: msg },
        ),
        _ => Option::None,
    }
}

/// INFERENCE_REQUEST out of an object's members.
pub open spec fn mk_infer_req(fs: Seq<(Seq<u8>, JsonV)>) -> Option<crate::msg::ServerMessageV> {
    match (get_text(fs, jk_request_id()), obj_get(fs, jk_payload())) {
        (Option::Some(rid), Option::Some(pv)) => match payload_of(pv) {
            Option::Some(payload) => Option::Some(
                crate::msg::ServerMessageV::InferenceRequest { request_id: rid, payload },
            ),
            Option::None => Option::None,
        },
        _ => Option::None,
    }
}

/// INTERVIEW_REQUEST out of an object's members.
pub open spec fn mk_iv_req(fs: Seq<(Seq<u8>, JsonV)>) -> Option<crate::msg::ServerMessageV> {
    match (
        get_text(fs, jk_interview_id()),
        get_opt_text(fs, jk_node_id()),
        get_text(fs, jk_model()),
        obj_get(fs, jk_prompts()),
        get_u32(fs, jk_timeout_ms()),
    ) {
        (
            Option::Some(iid),
            Option::Some(nid),
            Option::Some(model),
            Option::Some(JsonV::Arr(l)),
            Option::Some(tmo),
        ) => match prompts_from(l, 0) {
            Option::Some(prompts) => Option::Some(
                crate::msg::ServerMessageV::InterviewRequest {
                    interview_id: iid,
                    node_id: nid,
                    model,
                    prompts,
                    timeout_ms: tmo,
                },
            ),
            Option::None => Option::None,
        },
        _ => Option::None,
    }
}

/// INTERVIEW_COMPLETE out of an object's members.
pub open spec fn mk_iv_done(fs: Seq<(Seq<u8>, JsonV)>) -> Option<crate::msg::ServerMessageV> {
    match (
        get_text(fs, jk_interview_id()),
        get_opt_text(fs, jk_node_id()),
        get_text(fs, jk_tier()),
        get_num_raw(fs, jk_accuracy()),
        get_num_raw(fs, jk_tokens_per_sec()),
        get_text(fs, jk_reason()),
    ) {
        (
            Option::Some(iid),
            Option::Some(nid),
            Option::Some(tier),
            Option::Some(acc),
            Option::Some(tps),
            Option::Some(reason),
        ) => Option::Some(
            crate::msg::ServerMessageV::InterviewComplete {
                interview_id: iid,
                node_id: nid,
                tier,
                accuracy: acc,
                tokens_per_sec: tps,
                reason,
            },
        ),
        _ => Option::None,
    }
}

/// The inbound message a JSON tree stands for, if any: the object's type
/// field names the variant, the named fields fill it, and anything else in
/// the object is ignored.
pub open spec fn msg_of_json(v: JsonV) -> Option<crate::msg::ServerMessageV> {
    match v {
        JsonV::Obj(fs) => match get_text(fs, jk_type()) {
            Option::None => Option::None,
            Option::Some(tag) => if tag == jt_ping() {
                Option::Some(crate::msg::ServerMessageV::Ping)
            } else if tag == jt_heartbeat_ack() {
                Option::Some(crate::msg::ServerMessageV::HeartbeatAck)
            } else if tag == jt_model_list_ack() {
                Option::Some(crate::msg::ServerMessageV::ModelListAck)
            } else if tag == jt_auth_success() {
                mk_auth_success(fs)
            } else if tag == jt_error() {
                mk_error(fs)
            } else if tag == jt_register_node_ack() {
                mk_node_ack(fs)
            } else if tag == jt_update_wallet_ack() {
                mk_wallet_ack(fs)
            } else if tag == jt_inference_request() {
                mk_infer_req(fs)
            } else if tag == jt_interview_request() {
                mk_iv_req(fs)
            } else if tag == jt_interview_complete() {
                mk_iv_done(fs)
            } else {
                Option::None
            },
        },
        _ => Option::None,
    }
}

/// A converted message agrees with the specification conversion.
pub open spec fn conv_step(
    r: Option<crate::msg::ServerMessage>,
    sr: Option<crate::msg::ServerMessageV>,
) -> bool {
    match (r, sr) {
        (Option::Some(m), Option::Some(mv)) => m@ == mv,
        (Option::None, Option::None) => true,
        _ => false,
    }
}

/// Builds the inbound message a JSON tree stands for, mirroring
/// [`msg_of_json`].
pub fn message_of(v: &Json) -> (r: Option<crate::msg::ServerMessage>)
    ensures
        conv_step(r, msg_of_json(v@)),
{
    let fs = match v {
        Json::Obj(fs) => fs,
        _ => {
            return Option::None;
        },
    };
    let tag = match take_text(fs, &[0x74u8, 0x79, 0x70, 0x65]) {
        Option::Some(t) => t,
        Option::None => {
            return Option::None;
        },
    };
    if crate::codec::bytes_eq(tag.as_slice(), &[0x50u8, 0x49, 0x4e, 0x47]) {
        return Option::Some(crate::msg::ServerMessage::Ping);
    }
    if crate::codec::bytes_eq(tag.as_slice(), &[0x48u8, 0x45, 0x41, 0x52, 0x54, 0x42, 0x45, 0x41, 0x54, 0x5f, 0x41, 0x43, 0x4b]) {
        return Option::Some(crate::msg::ServerMessage::HeartbeatAck);
    }
    if crate::codec::bytes_eq(tag.as_slice(), &[0x4du8, 0x4f, 0x44, 0x45, 0x4c, 0x5f, 0x4c, 0x49, 0x53, 0x54, 0x5f, 0x41, 0x43, 0x4b]) {
        return Option::Some(crate::msg::ServerMessage::ModelListAck);
    }
    if crate::codec::bytes_eq(tag.as_slice(), &[0x41u8, 0x55, 0x54, 0x48, 0x5f, 0x53, 0x55, 0x43, 0x43, 0x45, 0x53, 0x53]) {
        let op = match take_text(fs, &[0x6fu8, 0x70, 0x65, 0x72, 0x61, 0x74, 0x6f, 0x72, 0x49, 0x64]) {
            Option::Some(t) => t,
            Option::None => {
                return Option::None;
            },
        };
        let nid = match take_opt_text(fs, &[0x6eu8, 0x6f, 0x64, 0x65, 0x49, 0x64]) {
            Option::Some(t) => t,
            Option::None => {
                return Option::None;
            },
        };
        let msg = match take_text(fs, &[0x6du8, 0x65, 0x73, 0x73, 0x61, 0x67, 0x65]) {
            Option::Some(t) => t,
            Option::None => {
                return Option::None;
            },
        };
        return Option::Some(
            crate::msg::ServerMessage::AuthSuccess {
                operator_id: op,
                node_id: nid,
                message: msg,
            },
        );
    }
    if crate::codec::bytes_eq(tag.as_slice(), &[0x45u8, 0x52, 0x52, 0x4f, 0x52]) {
        let msg = match take_text(fs, &[0x6du8, 0x65, 0x73, 0x73, 0x61, 0x67, 0x65]) {
            Option::Some(t) => t,
            Option::None => {
                return Option::None;
            },
        };
        return Option::Some(crate::msg::ServerMessage::ErrorMsg { message: msg });
    }
    if crate::codec::bytes_eq(tag.as_slice(), &[0x52u8, 0x45, 0x47, 0x49, 0x53, 0x54, 0x45, 0x52, 0x5f, 0x4e, 0x4f, 0x44, 0x45, 0x5f, 0x41, 0x43, 0x4b]) {
        let nid = match take_text(fs, &[0x6eu8, 0x6f, 0x64, 0x65, 0x49, 0x64]) {
            Option::Some(t) => t,
            Option::None => {
                return Option::None;
            },
        };
        let alias = match take_text(fs, &[0x61u8, 0x6c, 0x69, 0x61, 0x73]) {
            Option::Some(t) => t,
            Option::None => {
                return Option::None;
            },
        };
        let models = match find(fs, &[0x6du8, 0x6f, 0x64, 0x65, 0x6c, 0x73]) {
            Option::Some(Json::Arr(items)) => match texts_exec(items, 0) {
                Option::Some(l) => l,
                Option::None => {
                    return Option::None;
                },
            },
            _ => {
                return Option::None;
            },
        };
        let created = match take_bool(fs, &[0x63u8, 0x72, 0x65, 0x61, 0x74, 0x65, 0x64]) {
            Option::Some(b) => b,
            Option::None => {
                return Option::None;
            },
        };
        let msg = match take_text(fs, &[0x6du8, 0x65, 0x73, 0x73, 0x61, 0x67, 0x65]) {
            Option::Some(t) => t,
            Option::None => {
                return Option::None;
            },
        };
        return Option::Some(
            crate::msg::ServerMessage::RegisterNodeAck {
                node_id: nid,
                alias,
                models,
                created,
                message: msg,
            },
        );
    }
    if crate::codec::bytes_eq(tag.as_slice(), &[0x55u8, 0x50, 0x44, 0x41, 0x54, 0x45, 0x5f, 0x57, 0x41, 0x4c, 0x4c, 0x45, 0x54, 0x5f, 0x41, 0x43, 0x4b]) {
        let ok = match take_bool(fs, &[0x73u8, 0x75, 0x63, 0x63, 0x65, 0x73, 0x73]) {
            Option::Some(b) => b,
            Option::None => {
                return Option::None;
            },
        };
        let msg = match take_text(fs, &[0x6du8, 0x65, 0x73, 0x73, 0x61, 0x67, 0x65]) {
            Option::Some(t) => t,
            Option::None => {
                return Option::None;
            },
        };
        return Option::Some(
            crate::msg::ServerMessage::UpdateWalletAck { success: ok, message: msg },
        );
    }
    if crate::codec::bytes_eq(tag.as_slice(), &[0x49u8, 0x4e, 0x46, 0x45, 0x52, 0x45, 0x4e, 0x43, 0x45, 0x5f, 0x52, 0x45, 0x51, 0x55, 0x45, 0x53, 0x54]) {
        let rid = match take_text(fs, &[0x72u8, 0x65, 0x71, 0x75, 0x65, 0x73, 0x74, 0x49, 0x64]) {
            Option::Some(t) => t,
            Option::None => {
                return Option::None;
            },
        };
        let payload = match find(fs, &[0x70u8, 0x61, 0x79, 0x6c, 0x6f, 0x61, 0x64]) {
            Option::Some(pv) => match payload_exec(pv) {
                Option::Some(p) => p,
                Option::None => {
                    return Option::None;
                },
            },
            Option::None => {
                return Option::None;
            },
        };
        return Option::Some(
            crate::msg::ServerMessage::InferenceRequest { request_id: rid, payload },
        );
    }
    if crate::codec::bytes_eq(tag.as_slice(), &[0x49u8, 0x4e, 0x54, 0x45, 0x52, 0x56, 0x49, 0x45, 0x57, 0x5f, 0x52, 0x45, 0x51, 0x55, 0x45, 0x53, 0x54]) {
        let iid = match take_text(fs, &[0x69u8, 0x6e, 0x74, 0x65, 0x72, 0x76, 0x69, 0x65, 0x77, 0x49, 0x64]) {
            Option::Some(t) => t,
            Option::None => {
                return Option::None;
            },
        };
        let nid = match take_opt_text(fs, &[0x6eu8, 0x6f, 0x64, 0x65, 0x49, 0x64]) {
            Option::Some(t) => t,
            Option::None => {
                return Option::None;
            },
        };
        let model = match take_text(fs, &[0x6du8, 0x6f, 0x64, 0x65, 0x6c]) {
            Option::Some(t) => t,
            Option::None => {
                return Option::None;
            },
        };
        let prompts = match find(fs, &[0x70u8, 0x72, 0x6f, 0x6d, 0x70, 0x74, 0x73]) {
            Option::Some(Json::Arr(items)) => match prompts_exec(items, 0) {
                Option::Some(l) => l,
                Option::None => {
                    return Option::None;
                },
            },
            _ => {
                return Option::None;
            },
        };
        let tmo = match take_u32(fs, &[0x74u8, 0x69, 0x6d, 0x65, 0x6f, 0x75, 0x74, 0x4d, 0x73]) {
            Option::Some(n) => n,
            Option::None => {
                return Option::None;
            },
        };
        return Option::Some(
            crate::msg::ServerMessage::InterviewRequest {
                interview_id: iid,
                node_id: nid,
                model,
                prompts,
                timeout_ms: tmo,
            },
        );
    }
    if crate::codec::bytes_eq(tag.as_slice(), &[0x49u8, 0x4e, 0x54, 0x45, 0x52, 0x56, 0x49, 0x45, 0x57, 0x5f, 0x43, 0x4f, 0x4d, 0x50, 0x4c, 0x45, 0x54, 0x45]) {
        let iid = match take_text(fs, &[0x69u8, 0x6e, 0x74, 0x65, 0x72, 0x76, 0x69, 0x65, 0x77, 0x49, 0x64]) {
            Option::Some(t) => t,
            Option::None => {
                return Option::None;
            },
        };
        let nid = match take_opt_text(fs, &[0x6eu8, 0x6f, 0x64, 0x65, 0x49, 0x64]) {
            Option::Some(t) => t,
            Option::None => {
                return Option::None;
            },
        };
        let tier = match take_text(fs, &[0x74u8, 0x69, 0x65, 0x72]) {
            Option::Some(t) => t,
            Option::None => {
                return Option::None;
            },
        };
        let acc = match take_num_raw(fs, &[0x61u8, 0x63, 0x63, 0x75, 0x72, 0x61, 0x63, 0x79]) {
            Option::Some(t) => t,
            Option::None => {
                return Option::None;
            },
        };
        let tps = match take_num_raw(fs, &[0x74u8, 0x6f, 0x6b, 0x65, 0x6e, 0x73, 0x50, 0x65, 0x72, 0x53, 0x65, 0x63]) {
            Option::Some(t) => t,
            Option::None => {
                return Option::None;
            },
        };
        let reason = match take_text(fs, &[0x72u8, 0x65, 0x61, 0x73, 0x6f, 0x6e]) {
            Option::Some(t) => t,
            Option::None => {
                return Option::None;
            },
        };
        return Option::Some(
            crate::msg::ServerMessage::InterviewComplete {
                interview_id: iid,
                node_id: nid,
                tier,
                accuracy: acc,
                tokens_per_sec: tps,
                reason,
            },
        );
    }
    Option::None
}

} // verus!



