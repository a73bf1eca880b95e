//! Canonical encoders for outbound protocol messages.
//!
//! [`enc_client`] is the specification of the wire form of every outbound
//! message; [`encode_client_message`] produces exactly those bytes.

use vstd::prelude::*;

use crate::codec::{CM, LB, LS, RB, RS, dec_rep, fixw, qs, push_bytes, push_dec, push_fixw, push_qs};
use crate::msg::{ChatChoiceV, ChatMsgV, ChatRespV, ChatUsage, ClientMessage, ClientMessageV, ChatChoice, ChatMsg, ChatResp, PromptResult, PromptResultV};

verus! {

/// The byte string `{"type":"AUTH","clientId":`.
pub open spec fn auth_head() -> Seq<u8> {
    seq![0x7bu8, 0x22, 0x74, 0x79, 0x70, 0x65, 0x22, 0x3a, 0x22, 0x41, 0x55, 0x54, 0x48, 0x22, 0x2c, 0x22, 0x63, 0x6c, 0x69, 0x65, 0x6e, 0x74, 0x49, 0x64, 0x22, 0x3a]
}

/// Appends `{"type":"AUTH","clientId":` to `out`.
pub fn push_auth_head(out: &mut Vec<u8>)
    ensures
        final(out)@ == old(out)@ + auth_head(),
{
    push_bytes(out, &[0x7bu8, 0x22, 0x74, 0x79, 0x70, 0x65, 0x22, 0x3a, 0x22, 0x41, 0x55, 0x54, 0x48, 0x22, 0x2c, 0x22, 0x63, 0x6c, 0x69, 0x65, 0x6e, 0x74, 0x49, 0x64, 0x22, 0x3a]);
}

/// The byte string `,"timestamp":`.
pub open spec fn k_timestamp() -> Seq<u8> {
    seq![0x2cu8, 0x22, 0x74, 0x69, 0x6d, 0x65, 0x73, 0x74, 0x61, 0x6d, 0x70, 0x22, 0x3a]
}

/// Appends `,"timestamp":` to `out`.
pub fn push_k_timestamp(out: &mut Vec<u8>)
    ensures
        final(out)@ == old(out)@ + k_timestamp(),
{
    push_bytes(out, &[0x2cu8, 0x22, 0x74, 0x69, 0x6d, 0x65, 0x73, 0x74, 0x61, 0x6d, 0x70, 0x22, 0x3a]);
}

/// The byte string `,"signature":`.
pub open spec fn k_signature() -> Seq<u8> {
    seq![0x2cu8, 0x22, 0x73, 0x69, 0x67, 0x6e, 0x61, 0x74, 0x75, 0x72, 0x65, 0x22, 0x3a]
}

/// Appends `,"signature":` to `out`.
pub fn push_k_signature(out: &mut Vec<u8>)
    ensures
        final(out)@ == old(out)@ + k_signature(),
{
    push_bytes(out, &[0x2cu8, 0x22, 0x73, 0x69, 0x67, 0x6e, 0x61, 0x74, 0x75, 0x72, 0x65, 0x22, 0x3a]);
}

/// The byte string `{"type":"PONG"}`.
pub open spec fn pong_msg() -> Seq<u8> {
    seq![0x7bu8, 0x22, 0x74, 0x79, 0x70, 0x65, 0x22, 0x3a, 0x22, 0x50, 0x4f, 0x4e, 0x47, 0x22, 0x7d]
}

/// Appends `{"type":"PONG"}` to `out`.
pub fn push_pong_msg(out: &mut Vec<u8>)
    ensures
        final(out)@ == old(out)@ + pong_msg(),
{
    push_bytes(out, &[0x7bu8, 0x22, 0x74, 0x79, 0x70, 0x65, 0x22, 0x3a, 0x22, 0x50, 0x4f, 0x4e, 0x47, 0x22, 0x7d]);
}

/// The byte string `{"type":"HEARTBEAT"}`.
pub open spec fn heartbeat_msg() -> Seq<u8> {
    seq![0x7bu8, 0x22, 0x74, 0x79, 0x70, 0x65, 0x22, 0x3a, 0x22, 0x48, 0x45, 0x41, 0x52, 0x54, 0x42, 0x45, 0x41, 0x54, 0x22, 0x7d]
}

/// Appends `{"type":"HEARTBEAT"}` to `out`.
pub fn push_heartbeat_msg(out: &mut Vec<u8>)
    ensures
        final(out)@ == old(out)@ + heartbeat_msg(),
{
    push_bytes(out, &[0x7bu8, 0x22, 0x74, 0x79, 0x70, 0x65, 0x22, 0x3a, 0x22, 0x48, 0x45, 0x41, 0x52, 0x54, 0x42, 0x45, 0x41, 0x54, 0x22, 0x7d]);
}

/// The byte string `{"type":"UPDATE_WALLET","payoutAddress":`.
pub open spec fn wallet_head() -> Seq<u8> {
    seq![0x7bu8, 0x22, 0x74, 0x79, 0x70, 0x65, 0x22, 0x3a, 0x22, 0x55, 0x50, 0x44, 0x41, 0x54, 0x45, 0x5f, 0x57, 0x41, 0x4c, 0x4c, 0x45, 0x54, 0x22, 0x2c, 0x22, 0x70, 0x61, 0x79, 0x6f, 0x75, 0x74, 0x41, 0x64, 0x64, 0x72, 0x65, 0x73, 0x73, 0x22, 0x3a]
}

/// Appends `{"type":"UPDATE_WALLET","payoutAddress":` to `out`.
pub fn push_wallet_head(out: &mut Vec<u8>)
    ensures
        final(out)@ == old(out)@ + wallet_head(),
{
    push_bytes(out, &[0x7bu8, 0x22, 0x74, 0x79, 0x70, 0x65, 0x22, 0x3a, 0x22, 0x55, 0x50, 0x44, 0x41, 0x54, 0x45, 0x5f, 0x57, 0x41, 0x4c, 0x4c, 0x45, 0x54, 0x22, 0x2c, 0x22, 0x70, 0x61, 0x79, 0x6f, 0x75, 0x74, 0x41, 0x64, 0x64, 0x72, 0x65, 0x73, 0x73, 0x22, 0x3a]);
}

/// The byte string `{"type":"REGISTER_NODE","alias":`.
pub open spec fn register_head() -> Seq<u8> {
    seq![0x7bu8, 0x22, 0x74, 0x79, 0x70, 0x65, 0x22, 0x3a, 0x22, 0x52, 0x45, 0x47, 0x49, 0x53, 0x54, 0x45, 0x52, 0x5f, 0x4e, 0x4f, 0x44, 0x45, 0x22, 0x2c, 0x22, 0x61, 0x6c, 0x69, 0x61, 0x73, 0x22, 0x3a]
}

/// Appends `{"type":"REGISTER_NODE","alias":` to `out`.
pub fn push_register_head(out: &mut Vec<u8>)
    ensures
        final(out)@ == old(out)@ + register_head(),
{
    push_bytes(out, &[0x7bu8, 0x22, 0x74, 0x79, 0x70, 0x65, 0x22, 0x3a, 0x22, 0x52, 0x45, 0x47, 0x49, 0x53, 0x54, 0x45, 0x52, 0x5f, 0x4e, 0x4f, 0x44, 0x45, 0x22, 0x2c, 0x22, 0x61, 0x6c, 0x69, 0x61, 0x73, 0x22, 0x3a]);
}

/// The byte string `,"models":`.
pub open spec fn k_models() -> Seq<u8> {
    seq![0x2cu8, 0x22, 0x6d, 0x6f, 0x64, 0x65, 0x6c, 0x73, 0x22, 0x3a]
}

/// Appends `,"models":` to `out`.
pub fn push_k_models(out: &mut Vec<u8>)
    ensures
        final(out)@ == old(out)@ + k_models(),
{
    push_bytes(out, &[0x2cu8, 0x22, 0x6d, 0x6f, 0x64, 0x65, 0x6c, 0x73, 0x22, 0x3a]);
}

/// The byte string `,"capacity":`.
pub open spec fn k_capacity() -> Seq<u8> {
    seq![0x2cu8, 0x22, 0x63, 0x61, 0x70, 0x61, 0x63, 0x69, 0x74, 0x79, 0x22, 0x3a]
}

/// Appends `,"capacity":` to `out`.
pub fn push_k_capacity(out: &mut Vec<u8>)
    ensures
        final(out)@ == old(out)@ + k_capacity(),
{
    push_bytes(out, &[0x2cu8, 0x22, 0x63, 0x61, 0x70, 0x61, 0x63, 0x69, 0x74, 0x79, 0x22, 0x3a]);
}

/// The byte string `,"region":`.
pub open spec fn k_region() -> Seq<u8> {
    seq![0x2cu8, 0x22, 0x72, 0x65, 0x67, 0x69, 0x6f, 0x6e, 0x22, 0x3a]
}

/// Appends `,"region":` to `out`.
pub fn push_k_region(out: &mut Vec<u8>)
    ensures
        final(out)@ == old(out)@ + k_region(),
{
    push_bytes(out, &[0x2cu8, 0x22, 0x72, 0x65, 0x67, 0x69, 0x6f, 0x6e, 0x22, 0x3a]);
}

/// The byte string `,"pricePerThousandTokens":`.
pub open spec fn k_price() -> Seq<u8> {
    seq![0x2cu8, 0x22, 0x70, 0x72, 0x69, 0x63, 0x65, 0x50, 0x65, 0x72, 0x54, 0x68, 0x6f, 0x75, 0x73, 0x61, 0x6e, 0x64, 0x54, 0x6f, 0x6b, 0x65, 0x6e, 0x73, 0x22, 0x3a]
}

/// Appends `,"pricePerThousandTokens":` to `out`.
pub fn push_k_price(out: &mut Vec<u8>)
    ensures
        final(out)@ == old(out)@ + k_price(),
{
    push_bytes(out, &[0x2cu8, 0x22, 0x70, 0x72, 0x69, 0x63, 0x65, 0x50, 0x65, 0x72, 0x54, 0x68, 0x6f, 0x75, 0x73, 0x61, 0x6e, 0x64, 0x54, 0x6f, 0x6b, 0x65, 0x6e, 0x73, 0x22, 0x3a]);
}

/// The byte string `{"type":"INFERENCE_RESPONSE","requestId":`.
pub open spec fn resp_head() -> Seq<u8> {
    seq![0x7bu8, 0x22, 0x74, 0x79, 0x70, 0x65, 0x22, 0x3a, 0x22, 0x49, 0x4e, 0x46, 0x45, 0x52, 0x45, 0x4e, 0x43, 0x45, 0x5f, 0x52, 0x45, 0x53, 0x50, 0x4f, 0x4e, 0x53, 0x45, 0x22, 0x2c, 0x22, 0x72, 0x65, 0x71, 0x75, 0x65, 0x73, 0x74, 0x49, 0x64, 0x22, 0x3a]
}

/// Appends `{"type":"INFERENCE_RESPONSE","requestId":` to `out`.
pub fn push_resp_head(out: &mut Vec<u8>)
    ensures
        final(out)@ == old(out)@ + resp_head(),
{
    push_bytes(out, &[0x7bu8, 0x22, 0x74, 0x79, 0x70, 0x65, 0x22, 0x3a, 0x22, 0x49, 0x4e, 0x46, 0x45, 0x52, 0x45, 0x4e, 0x43, 0x45, 0x5f, 0x52, 0x45, 0x53, 0x50, 0x4f, 0x4e, 0x53, 0x45, 0x22, 0x2c, 0x22, 0x72, 0x65, 0x71, 0x75, 0x65, 0x73, 0x74, 0x49, 0x64, 0x22, 0x3a]);
}

/// The byte string `,"result":`.
pub open spec fn k_result() -> Seq<u8> {
    seq![0x2cu8, 0x22, 0x72, 0x65, 0x73, 0x75, 0x6c, 0x74, 0x22, 0x3a]
}

/// Appends `,"result":` to `out`.
pub fn push_k_result(out: &mut Vec<u8>)
    ensures
        final(out)@ == old(out)@ + k_result(),
{
    push_bytes(out, &[0x2cu8, 0x22, 0x72, 0x65, 0x73, 0x75, 0x6c, 0x74, 0x22, 0x3a]);
}

/// The byte string `{"type":"INFERENCE_ERROR","requestId":`.
pub open spec fn err_head() -> Seq<u8> {
    seq![0x7bu8, 0x22, 0x74, 0x79, 0x70, 0x65, 0x22, 0x3a, 0x22, 0x49, 0x4e, 0x46, 0x45, 0x52, 0x45, 0x4e, 0x43, 0x45, 0x5f, 0x45, 0x52, 0x52, 0x4f, 0x52, 0x22, 0x2c, 0x22, 0x72, 0x65, 0x71, 0x75, 0x65, 0x73, 0x74, 0x49, 0x64, 0x22, 0x3a]
}

/// Appends `{"type":"INFERENCE_ERROR","requestId":` to `out`.
pub fn push_err_head(out: &mut Vec<u8>)
    ensures
        final(out)@ == old(out)@ + err_head(),
{
    push_bytes(out, &[0x7bu8, 0x22, 0x74, 0x79, 0x70, 0x65, 0x22, 0x3a, 0x22, 0x49, 0x4e, 0x46, 0x45, 0x52, 0x45, 0x4e, 0x43, 0x45, 0x5f, 0x45, 0x52, 0x52, 0x4f, 0x52, 0x22, 0x2c, 0x22, 0x72, 0x65, 0x71, 0x75, 0x65, 0x73, 0x74, 0x49, 0x64, 0x22, 0x3a]);
}

/// The byte string `,"error":`.
pub open spec fn k_error() -> Seq<u8> {
    seq![0x2cu8, 0x22, 0x65, 0x72, 0x72, 0x6f, 0x72, 0x22, 0x3a]
}

/// Appends `,"error":` to `out`.
pub fn push_k_error(out: &mut Vec<u8>)
    ensures
        final(out)@ == old(out)@ + k_error(),
{
    push_bytes(out, &[0x2cu8, 0x22, 0x65, 0x72, 0x72, 0x6f, 0x72, 0x22, 0x3a]);
}

/// The byte string `{"type":"INTERVIEW_RESULT","interviewId":`.
pub open spec fn ivr_head() -> Seq<u8> {
    seq![0x7bu8, 0x22, 0x74, 0x79, 0x70, 0x65, 0x22, 0x3a, 0x22, 0x49, 0x4e, 0x54, 0x45, 0x52, 0x56, 0x49, 0x45, 0x57, 0x5f, 0x52, 0x45, 0x53, 0x55, 0x4c, 0x54, 0x22, 0x2c, 0x22, 0x69, 0x6e, 0x74, 0x65, 0x72, 0x76, 0x69, 0x65, 0x77, 0x49, 0x64, 0x22, 0x3a]
}

/// Appends `{"type":"INTERVIEW_RESULT","interviewId":` to `out`.
pub fn push_ivr_head(out: &mut Vec<u8>)
    ensures
        final(out)@ == old(out)@ + ivr_head(),
{
    push_bytes(out, &[0x7bu8, 0x22, 0x74, 0x79, 0x70, 0x65, 0x22, 0x3a, 0x22, 0x49, 0x4e, 0x54, 0x45, 0x52, 0x56, 0x49, 0x45, 0x57, 0x5f, 0x52, 0x45, 0x53, 0x55, 0x4c, 0x54, 0x22, 0x2c, 0x22, 0x69, 0x6e, 0x74, 0x65, 0x72, 0x76, 0x69, 0x65, 0x77, 0x49, 0x64, 0x22, 0x3a]);
}

/// The byte string `,"model":`.
pub open spec fn k_model() -> Seq<u8> {
    seq![0x2cu8, 0x22, 0x6d, 0x6f, 0x64, 0x65, 0x6c, 0x22, 0x3a]
}

/// Appends `,"model":` to `out`.
pub fn push_k_model(out: &mut Vec<u8>)
    ensures
        final(out)@ == old(out)@ + k_model(),
{
    push_bytes(out, &[0x2cu8, 0x22, 0x6d, 0x6f, 0x64, 0x65, 0x6c, 0x22, 0x3a]);
}

/// The byte string `,"results":`.
pub open spec fn k_results() -> Seq<u8> {
    seq![0x2cu8, 0x22, 0x72, 0x65, 0x73, 0x75, 0x6c, 0x74, 0x73, 0x22, 0x3a]
}

/// Appends `,"results":` to `out`.
pub fn push_k_results(out: &mut Vec<u8>)
    ensures
        final(out)@ == old(out)@ + k_results(),
{
    push_bytes(out, &[0x2cu8, 0x22, 0x72, 0x65, 0x73, 0x75, 0x6c, 0x74, 0x73, 0x22, 0x3a]);
}

/// The byte string `{"choices":`.
pub open spec fn choices_head() -> Seq<u8> {
    seq![0x7bu8, 0x22, 0x63, 0x68, 0x6f, 0x69, 0x63, 0x65, 0x73, 0x22, 0x3a]
}

/// Appends `{"choices":` to `out`.
pub fn push_choices_head(out: &mut Vec<u8>)
    ensures
        final(out)@ == old(out)@ + choices_head(),
{
    push_bytes(out, &[0x7bu8, 0x22, 0x63, 0x68, 0x6f, 0x69, 0x63, 0x65, 0x73, 0x22, 0x3a]);
}

/// The byte string `,"usage":`.
pub open spec fn k_usage() -> Seq<u8> {
    seq![0x2cu8, 0x22, 0x75, 0x73, 0x61, 0x67, 0x65, 0x22, 0x3a]
}

/// Appends `,"usage":` to `out`.
pub fn push_k_usage(out: &mut Vec<u8>)
    ensures
        final(out)@ == old(out)@ + k_usage(),
{
    push_bytes(out, &[0x2cu8, 0x22, 0x75, 0x73, 0x61, 0x67, 0x65, 0x22, 0x3a]);
}

/// The byte string `{"index":`.
pub open spec fn index_head() -> Seq<u8> {
    seq![0x7bu8, 0x22, 0x69, 0x6e, 0x64, 0x65, 0x78, 0x22, 0x3a]
}

/// Appends `{"index":` to `out`.
pub fn push_index_head(out: &mut Vec<u8>)
    ensures
        final(out)@ == old(out)@ + index_head(),
{
    push_bytes(out, &[0x7bu8, 0x22, 0x69, 0x6e, 0x64, 0x65, 0x78, 0x22, 0x3a]);
}

/// The byte string `,"message":`.
pub open spec fn k_message() -> Seq<u8> {
    seq![0x2cu8, 0x22, 0x6d, 0x65, 0x73, 0x73, 0x61, 0x67, 0x65, 0x22, 0x3a]
}

/// Appends `,"message":` to `out`.
pub fn push_k_message(out: &mut Vec<u8>)
    ensures
        final(out)@ == old(out)@ + k_message(),
{
    push_bytes(out, &[0x2cu8, 0x22, 0x6d, 0x65, 0x73, 0x73, 0x61, 0x67, 0x65, 0x22, 0x3a]);
}

/// The byte string `,"finishReason":`.
pub open spec fn k_finish() -> Seq<u8> {
    seq![0x2cu8, 0x22, 0x66, 0x69, 0x6e, 0x69, 0x73, 0x68, 0x52, 0x65, 0x61, 0x73, 0x6f, 0x6e, 0x22, 0x3a]
}

/// Appends `,"finishReason":` to `out`.
pub fn push_k_finish(out: &mut Vec<u8>)
    ensures
        final(out)@ == old(out)@ + k_finish(),
{
    push_bytes(out, &[0x2cu8, 0x22, 0x66, 0x69, 0x6e, 0x69, 0x73, 0x68, 0x52, 0x65, 0x61, 0x73, 0x6f, 0x6e, 0x22, 0x3a]);
}

/// The byte string `{"role":`.
pub open spec fn role_head() -> Seq<u8> {
    seq![0x7bu8, 0x22, 0x72, 0x6f, 0x6c, 0x65, 0x22, 0x3a]
}

/// Appends `{"role":` to `out`.
pub fn push_role_head(out: &mut Vec<u8>)
    ensures
        final(out)@ == old(out)@ + role_head(),
{
    push_bytes(out, &[0x7bu8, 0x22, 0x72, 0x6f, 0x6c, 0x65, 0x22, 0x3a]);
}

/// The byte string `,"content":`.
pub open spec fn k_content() -> Seq<u8> {
    seq![0x2cu8, 0x22, 0x63, 0x6f, 0x6e, 0x74, 0x65, 0x6e, 0x74, 0x22, 0x3a]
}

/// Appends `,"content":` to `out`.
pub fn push_k_content(out: &mut Vec<u8>)
    ensures
        final(out)@ == old(out)@ + k_content(),
{
    push_bytes(out, &[0x2cu8, 0x22, 0x63, 0x6f, 0x6e, 0x74, 0x65, 0x6e, 0x74, 0x22, 0x3a]);
}

/// The byte string `{"promptTokens":`.
pub open spec fn ptok_head() -> Seq<u8> {
    seq![0x7bu8, 0x22, 0x70, 0x72, 0x6f, 0x6d, 0x70, 0x74, 0x54, 0x6f, 0x6b, 0x65, 0x6e, 0x73, 0x22, 0x3a]
}

/// Appends `{"promptTokens":` to `out`.
pub fn push_ptok_head(out: &mut Vec<u8>)
    ensures
        final(out)@ == old(out)@ + ptok_head(),
{
    push_bytes(out, &[0x7bu8, 0x22, 0x70, 0x72, 0x6f, 0x6d, 0x70, 0x74, 0x54, 0x6f, 0x6b, 0x65, 0x6e, 0x73, 0x22, 0x3a]);
}

/// The byte string `,"completionTokens":`.
pub open spec fn k_ctok() -> Seq<u8> {
    seq![0x2cu8, 0x22, 0x63, 0x6f, 0x6d, 0x70, 0x6c, 0x65, 0x74, 0x69, 0x6f, 0x6e, 0x54, 0x6f, 0x6b, 0x65, 0x6e, 0x73, 0x22, 0x3a]
}

/// Appends `,"completionTokens":` to `out`.
pub fn push_k_ctok(out: &mut Vec<u8>)
    ensures
        final(out)@ == old(out)@ + k_ctok(),
{
    push_bytes(out, &[0x2cu8, 0x22, 0x63, 0x6f, 0x6d, 0x70, 0x6c, 0x65, 0x74, 0x69, 0x6f, 0x6e, 0x54, 0x6f, 0x6b, 0x65, 0x6e, 0x73, 0x22, 0x3a]);
}

/// The byte string `,"totalTokens":`.
pub open spec fn k_ttok() -> Seq<u8> {
    seq![0x2cu8, 0x22, 0x74, 0x6f, 0x74, 0x61, 0x6c, 0x54, 0x6f, 0x6b, 0x65, 0x6e, 0x73, 0x22, 0x3a]
}

/// Appends `,"totalTokens":` to `out`.
pub fn push_k_ttok(out: &mut Vec<u8>)
    ensures
        final(out)@ == old(out)@ + k_ttok(),
{
    push_bytes(out, &[0x2cu8, 0x22, 0x74, 0x6f, 0x74, 0x61, 0x6c, 0x54, 0x6f, 0x6b, 0x65, 0x6e, 0x73, 0x22, 0x3a]);
}

/// The byte string `{"promptId":`.
pub open spec fn pr_head() -> Seq<u8> {
    seq![0x7bu8, 0x22, 0x70, 0x72, 0x6f, 0x6d, 0x70, 0x74, 0x49, 0x64, 0x22, 0x3a]
}

/// Appends `{"promptId":` to `out`.
pub fn push_pr_head(out: &mut Vec<u8>)
    ensures
        final(out)@ == old(out)@ + pr_head(),
{
    push_bytes(out, &[0x7bu8, 0x22, 0x70, 0x72, 0x6f, 0x6d, 0x70, 0x74, 0x49, 0x64, 0x22, 0x3a]);
}

/// The byte string `,"response":`.
pub open spec fn k_response() -> Seq<u8> {
    seq![0x2cu8, 0x22, 0x72, 0x65, 0x73, 0x70, 0x6f, 0x6e, 0x73, 0x65, 0x22, 0x3a]
}

/// Appends `,"response":` to `out`.
pub fn push_k_response(out: &mut Vec<u8>)
    ensures
        final(out)@ == old(out)@ + k_response(),
{
    push_bytes(out, &[0x2cu8, 0x22, 0x72, 0x65, 0x73, 0x70, 0x6f, 0x6e, 0x73, 0x65, 0x22, 0x3a]);
}

/// The byte string `,"ttftMs":`.
pub open spec fn k_ttft() -> Seq<u8> {
    seq![0x2cu8, 0x22, 0x74, 0x74, 0x66, 0x74, 0x4d, 0x73, 0x22, 0x3a]
}

/// Appends `,"ttftMs":` to `out`.
pub fn push_k_ttft(out: &mut Vec<u8>)
    ensures
        final(out)@ == old(out)@ + k_ttft(),
{
    push_bytes(out, &[0x2cu8, 0x22, 0x74, 0x74, 0x66, 0x74, 0x4d, 0x73, 0x22, 0x3a]);
}

/// The byte string `,"totalMs":`.
pub open spec fn k_total() -> Seq<u8> {
    seq![0x2cu8, 0x22, 0x74, 0x6f, 0x74, 0x61, 0x6c, 0x4d, 0x73, 0x22, 0x3a]
}

/// Appends `,"totalMs":` to `out`.
pub fn push_k_total(out: &mut Vec<u8>)
    ensures
        final(out)@ == old(out)@ + k_total(),
{
    push_bytes(out, &[0x2cu8, 0x22, 0x74, 0x6f, 0x74, 0x61, 0x6c, 0x4d, 0x73, 0x22, 0x3a]);
}

/// The byte string `,"tokensGenerated":`.
pub open spec fn k_tokgen() -> Seq<u8> {
    seq![0x2cu8, 0x22, 0x74, 0x6f, 0x6b, 0x65, 0x6e, 0x73, 0x47, 0x65, 0x6e, 0x65, 0x72, 0x61, 0x74, 0x65, 0x64, 0x22, 0x3a]
}

/// Appends `,"tokensGenerated":` to `out`.
pub fn push_k_tokgen(out: &mut Vec<u8>)
    ensures
        final(out)@ == old(out)@ + k_tokgen(),
{
    push_bytes(out, &[0x2cu8, 0x22, 0x74, 0x6f, 0x6b, 0x65, 0x6e, 0x73, 0x47, 0x65, 0x6e, 0x65, 0x72, 0x61, 0x74, 0x65, 0x64, 0x22, 0x3a]);
}

/// The byte string `null`.
pub open spec fn lit_null() -> Seq<u8> {
    seq![0x6eu8, 0x75, 0x6c, 0x6c]
}

/// Appends `null` to `out`.
pub fn push_lit_null(out: &mut Vec<u8>)
    ensures
        final(out)@ == old(out)@ + lit_null(),
{
    push_bytes(out, &[0x6eu8, 0x75, 0x6c, 0x6c]);
}

/// The byte string `true`.
pub open spec fn lit_true() -> Seq<u8> {
    seq![0x74u8, 0x72, 0x75, 0x65]
}

/// Appends `true` to `out`.
pub fn push_lit_true(out: &mut Vec<u8>)
    ensures
        final(out)@ == old(out)@ + lit_true(),
{
    push_bytes(out, &[0x74u8, 0x72, 0x75, 0x65]);
}

/// The byte string `false`.
pub open spec fn lit_false() -> Seq<u8> {
    seq![0x66u8, 0x61, 0x6c, 0x73, 0x65]
}

/// Appends `false` to `out`.
pub fn push_lit_false(out: &mut Vec<u8>)
    ensures
        final(out)@ == old(out)@ + lit_false(),
{
    push_bytes(out, &[0x66u8, 0x61, 0x6c, 0x73, 0x65]);
}

/// A quoted string for `Some`, the JSON `null` for `None`.
pub open spec fn enc_opt_qs(o: Option<Seq<u8>>) -> Seq<u8> {
    match o {
        Option::Some(s) => qs(s),
        Option::None => lit_null(),
    }
}

/// The JSON boolean token.
pub open spec fn bool_rep(b: bool) -> Seq<u8> {
    if b {
        lit_true()
    } else {
        lit_false()
    }
}

/// Price in millionths rendered as a decimal fraction with six digits after
/// the point.
pub open spec fn price_rep(micro: u64) -> Seq<u8> {
    dec_rep(micro as nat / 1000000) + seq![0x2eu8] + fixw(micro as nat % 1000000, 6)
}

/// Appends the decimal fraction form of a price in millionths.
pub fn push_price(out: &mut Vec<u8>, micro: u64)
    ensures
        final(out)@ == old(out)@ + price_rep(micro),
{
    push_dec(out, micro / 1000000);
    out.push(0x2e);
    push_fixw(out, micro % 1000000, 6);
}

/// Wire form of one role/content pair.
pub open spec fn enc_chat_msg(m: ChatMsgV) -> Seq<u8> {
    role_head() + qs(m.role) + k_content() + qs(m.content) + seq![RB]
}

/// Appends the wire form of one role/content pair.
pub fn push_chat_msg(out: &mut Vec<u8>, m: &ChatMsg)
    ensures
        final(out)@ == old(out)@ + enc_chat_msg(m@),
{
    push_role_head(out);
    push_qs(out, m.role.as_slice());
    push_k_content(out);
    push_qs(out, m.content.as_slice());
    out.push(RB);
}

/// Wire form of a token-usage record.
pub open spec fn enc_usage(u: ChatUsage) -> Seq<u8> {
    ptok_head() + dec_rep(u.prompt_tokens as nat) + k_ctok() + dec_rep(u.completion_tokens as nat)
        + k_ttok() + dec_rep(u.total_tokens as nat) + seq![RB]
}

/// Wire form of an optional token-usage record.
pub open spec fn enc_opt_usage(o: Option<ChatUsage>) -> Seq<u8> {
    match o {
        Option::Some(u) => enc_usage(u),
        Option::None => lit_null(),
    }
}

/// Appends the wire form of an optional token-usage record.
pub fn push_opt_usage(out: &mut Vec<u8>, o: &Option<ChatUsage>)
    ensures
        final(out)@ == old(out)@ + enc_opt_usage(*o),
{
    match o {
        Option::Some(u) => {
            push_ptok_head(out);
            push_dec(out, u.prompt_tokens as u64);
            push_k_ctok(out);
            push_dec(out, u.completion_tokens as u64);
            push_k_ttok(out);
            push_dec(out, u.total_tokens as u64);
            out.push(RB);
        },
        Option::None => {
            push_lit_null(out);
        },
    }
}

/// Wire form of one completion choice.
pub open spec fn enc_choice(c: ChatChoiceV) -> Seq<u8> {
    index_head() + dec_rep(c.index as nat) + k_message() + enc_chat_msg(c.message) + k_finish()
        + enc_opt_qs(c.finish_reason) + seq![RB]
}

/// Appends the wire form of one completion choice.
pub fn push_choice(out: &mut Vec<u8>, c: &ChatChoice)
    ensures
        final(out)@ == old(out)@ + enc_choice(c@),
{
    push_index_head(out);
    push_dec(out, c.index as u64);
    push_k_message(out);
    push_chat_msg(out, &c.message);
    push_k_finish(out);
    match &c.finish_reason {
        Option::Some(f) => {
            push_qs(out, f.as_slice());
        },
        Option::None => {
            push_lit_null(out);
        },
    }
    out.push(RB);
}

/// The elements of a choice array, comma separated, after the first.
pub open spec fn enc_choice_rest(l: Seq<ChatChoiceV>) -> Seq<u8>
    decreases l.len(),
{
    if l.len() == 0 {
        Seq::empty()
    } else {
        seq![CM] + enc_choice(l.first()) + enc_choice_rest(l.drop_first())
    }
}

/// The elements of a choice array, comma separated.
pub open spec fn enc_choice_items(l: Seq<ChatChoiceV>) -> Seq<u8> {
    if l.len() == 0 {
        Seq::empty()
    } else {
        enc_choice(l.first()) + enc_choice_rest(l.drop_first())
    }
}

/// Wire form of a normalised backend completion reply.
pub open spec fn enc_chat_resp(r: ChatRespV) -> Seq<u8> {
    choices_head() + seq![LS] + enc_choice_items(r.choices) + seq![RS] + k_usage()
        + enc_opt_usage(r.usage) + k_model() + qs(r.model) + seq![RB]
}

/// Appends the wire form of a backend completion reply.
pub fn push_chat_resp(out: &mut Vec<u8>, r: &ChatResp)
    ensures
        final(out)@ == old(out)@ + enc_chat_resp(r@),
{
    let ghost lv: Seq<ChatChoiceV> = r.choices@.map_values(|c: ChatChoice| c@);
    push_choices_head(out);
    out.push(LS);
    let ghost base = out@;
    let n = r.choices.len();
    if n > 0 {
        push_choice(out, &r.choices[0]);
        let mut i: usize = 1;
        while i < n
            invariant
                n == r.choices@.len(),
                lv == r.choices@.map_values(|c: ChatChoice| c@),
                1 <= i <= n,
                out@ + enc_choice_rest(lv.skip(i as int)) == base + enc_choice_items(lv),
            decreases n - i,
        {
            out.push(CM);
            push_choice(out, &r.choices[i]);
            proof {
                assert(lv.skip(i as int).first() == lv[i as int]);
                assert(lv.skip(i as int).drop_first() =~= lv.skip(i + 1));
            }
            i = i + 1;
        }
        proof {
            assert(lv.skip(n as int) =~= Seq::<ChatChoiceV>::empty());
        }
    }
    out.push(RS);
    push_k_usage(out);
    push_opt_usage(out, &r.usage);
    push_k_model(out);
    push_qs(out, r.model.as_slice());
    out.push(RB);
}

/// Wire form of one interview prompt outcome; the error field appears only
/// when an error is recorded.
pub open spec fn enc_prompt_result(p: PromptResultV) -> Seq<u8> {
    pr_head() + qs(p.prompt_id) + k_response() + qs(p.response) + k_ttft()
        + dec_rep(p.ttft_ms as nat) + k_total() + dec_rep(p.total_ms as nat) + k_tokgen()
        + dec_rep(p.tokens_generated as nat) + (match p.error {
        Option::Some(e) => k_error() + qs(e),
        Option::None => Seq::empty(),
    }) + seq![RB]
}

/// Appends the wire form of one interview prompt outcome.
pub fn push_prompt_result(out: &mut Vec<u8>, p: &PromptResult)
    ensures
        final(out)@ == old(out)@ + enc_prompt_result(p@),
{
    push_pr_head(out);
    push_qs(out, p.prompt_id.as_slice());
    push_k_response(out);
    push_qs(out, p.response.as_slice());
    push_k_ttft(out);
    push_dec(out, p.ttft_ms as u64);
    push_k_total(out);
    push_dec(out, p.total_ms as u64);
    push_k_tokgen(out);
    push_dec(out, p.tokens_generated as u64);
    match &p.error {
        Option::Some(e) => {
            push_k_error(out);
            push_qs(out, e.as_slice());
        },
        Option::None => {},
    }
    out.push(RB);
}

/// The elements of a prompt-result array, comma separated, after the first.
pub open spec fn enc_result_rest(l: Seq<PromptResultV>) -> Seq<u8>
    decreases l.len(),
{
    if l.len() == 0 {
        Seq::empty()
    } else {
        seq![CM] + enc_prompt_result(l.first()) + enc_result_rest(l.drop_first())
    }
}

/// The elements of a prompt-result array, comma separated.
pub open spec fn enc_result_items(l: Seq<PromptResultV>) -> Seq<u8> {
    if l.len() == 0 {
        Seq::empty()
    } else {
        enc_prompt_result(l.first()) + enc_result_rest(l.drop_first())
    }
}

/// The elements of a string array, comma separated, after the first.
pub open spec fn enc_str_rest(l: Seq<Seq<u8>>) -> Seq<u8>
    decreases l.len(),
{
    if l.len() == 0 {
        Seq::empty()
    } else {
        seq![CM] + qs(l.first()) + enc_str_rest(l.drop_first())
    }
}

/// The elements of a string array, comma separated.
pub open spec fn enc_str_items(l: Seq<Seq<u8>>) -> Seq<u8> {
    if l.len() == 0 {
        Seq::empty()
    } else {
        qs(l.first()) + enc_str_rest(l.drop_first())
    }
}

/// Appends a JSON array of strings.
pub fn push_str_array(out: &mut Vec<u8>, l: &Vec<Vec<u8>>)
    ensures
        final(out)@ == old(out)@ + seq![LS] + enc_str_items(l@.map_values(|v: Vec<u8>| v@))
            + seq![RS],
{
    let ghost lv: Seq<Seq<u8>> = l@.map_values(|v: Vec<u8>| v@);
    out.push(LS);
    let ghost base = out@;
    let n = l.len();
    if n > 0 {
        push_qs(out, l[0].as_slice());
        let mut i: usize = 1;
        while i < n
            invariant
                n == l@.len(),
                lv == l@.map_values(|v: Vec<u8>| v@),
                1 <= i <= n,
                out@ + enc_str_rest(lv.skip(i as int)) == base + enc_str_items(lv),
            decreases n - i,
        {
            out.push(CM);
            push_qs(out, l[i].as_slice());
            proof {
                assert(lv.skip(i as int).first() == lv[i as int]);
                assert(lv.skip(i as int).drop_first() =~= lv.skip(i + 1));
            }
            i = i + 1;
        }
        proof {
            assert(lv.skip(n as int) =~= Seq::<Seq<u8>>::empty());
        }
    }
    out.push(RS);
}

/// The canonical wire form of every outbound message.
pub open spec fn enc_client(m: ClientMessageV) -> Seq<u8> {
    match m {
        ClientMessageV::Auth { client_id, timestamp, signature } => auth_head() + qs(client_id)
            + k_timestamp() + qs(timestamp) + k_signature() + qs(signature) + seq![RB],
        ClientMessageV::Pong => pong_msg(),
        ClientMessageV::Heartbeat => heartbeat_msg(),
        ClientMessageV::UpdateWallet { payout_address } => wallet_head() + qs(payout_address)
            + seq![RB],
        ClientMessageV::RegisterNode { alias, models, capacity, region, price_micro } => (
        register_head() + qs(alias) + k_models() + seq![LS] + enc_str_items(models) + seq![RS]
            + k_capacity() + dec_rep(capacity as nat) + k_region() + qs(region) + k_price()
            + price_rep(price_micro) + seq![RB]),
        ClientMessageV::InferenceResponse { request_id, result } => resp_head() + qs(request_id)
            + k_result() + enc_chat_resp(result) + seq![RB],
        ClientMessageV::InferenceError { request_id, error } => err_head() + qs(request_id)
            + k_error() + qs(error) + seq![RB],
        ClientMessageV::InterviewResult { interview_id, model, results } => ivr_head()
            + qs(interview_id) + k_model() + qs(model) + k_results() + seq![LS]
            + enc_result_items(results) + seq![RS] + seq![RB],
    }
}

/// Encodes an outbound message into its canonical wire form.
pub fn encode_client_message(m: &ClientMessage) -> (r: Vec<u8>)
    ensures
        r@ == enc_client(m@),
{
    let mut out: Vec<u8> = Vec::new();
    match m {
        ClientMessage::Auth { client_id, timestamp, signature } => {
            push_auth_head(&mut out);
            push_qs(&mut out, client_id.as_slice());
            push_k_timestamp(&mut out);
            push_qs(&mut out, timestamp.as_slice());
            push_k_signature(&mut out);
            push_qs(&mut out, signature.as_slice());
            out.push(RB);
        },
        ClientMessage::Pong => {
            push_pong_msg(&mut out);
        },
        ClientMessage::Heartbeat => {
            push_heartbeat_msg(&mut out);
        },
        ClientMessage::UpdateWallet { payout_address } => {
            push_wallet_head(&mut out);
            push_qs(&mut out, payout_address.as_slice());
            out.push(RB);
        },
        ClientMessage::RegisterNode { alias, models, capacity, region, price_micro } => {
            push_register_head(&mut out);
            push_qs(&mut out, alias.as_slice());
            push_k_models(&mut out);
            push_str_array(&mut out, models);
            push_k_capacity(&mut out);
            push_dec(&mut out, *capacity as u64);
            push_k_region(&mut out);
            push_qs(&mut out, region.as_slice());
            push_k_price(&mut out);
            push_price(&mut out, *price_micro);
            out.push(RB);
        },
        ClientMessage::InferenceResponse { request_id, result } => {
            push_resp_head(&mut out);
            push_qs(&mut out, request_id.as_slice());
            push_k_result(&mut out);
            push_chat_resp(&mut out, result);
            out.push(RB);
        },
        ClientMessage::InferenceError { request_id, error } => {
            push_err_head(&mut out);
            push_qs(&mut out, request_id.as_slice());
            push_k_error(&mut out);
            push_qs(&mut out, error.as_slice());
            out.push(RB);
        },
        ClientMessage::InterviewResult { interview_id, model, results } => {
            push_ivr_head(&mut out);
            push_qs(&mut out, interview_id.as_slice());
            push_k_model(&mut out);
            push_qs(&mut out, model.as_slice());
            push_k_results(&mut out);
            out.push(LS);
            let ghost lv: Seq<PromptResultV> = results@.map_values(|p: PromptResult| p@);
            let ghost base = out@;
            let n = results.len();
            if n > 0 {
                push_prompt_result(&mut out, &results[0]);
                let mut i: usize = 1;
                while i < n
                    invariant
                        n == results@.len(),
                        lv == results@.map_values(|p: PromptResult| p@),
                        1 <= i <= n,
                        out@ + enc_result_rest(lv.skip(i as int)) == base + enc_result_items(lv),
                    decreases n - i,
                {
                    out.push(CM);
                    push_prompt_result(&mut out, &results[i]);
                    proof {
                        assert(lv.skip(i as int).first() == lv[i as int]);
                        assert(lv.skip(i as int).drop_first() =~= lv.skip(i + 1));
                    }
                    i = i + 1;
                }
                proof {
                    assert(lv.skip(n as int) =~= Seq::<PromptResultV>::empty());
                }
            }
            out.push(RS);
            out.push(RB);
        },
    }
    out
}

} // verus!

