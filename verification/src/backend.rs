//! Normalisation of backend replies to the common completion shape.
//!
//! The two backend families answer in different wire shapes; the adapters
//! hand the fields in as plain values and this module builds the one shape
//! the rest of the engine and the protocol use.

use vstd::prelude::*;

use crate::msg::{ChatChoice, ChatMsg, ChatMsgV, ChatResp, ChatRespV, ChatUsage};

verus! {

/// The token total reported for a completion: the sum, saturating at the
/// counter's width.
pub open spec fn token_total(prompt_tokens: u32, completion_tokens: u32) -> u32 {
    if prompt_tokens + completion_tokens <= u32::MAX {
        (prompt_tokens + completion_tokens) as u32
    } else {
        u32::MAX
    }
}

/// The common shape an Ollama-style reply normalises to: one choice holding
/// the returned message, a `stop` finish reason, and a usage record summing
/// the reported counts, absent counts standing for zero.
pub open spec fn ollama_normal_form(
    model: Seq<u8>,
    role: Seq<u8>,
    content: Seq<u8>,
    prompt_eval_count: Option<u32>,
    eval_count: Option<u32>,
) -> ChatRespV {
    let pt = match prompt_eval_count {
        Option::Some(n) => n,
        Option::None => 0,
    };
    let ct = match eval_count {
        Option::Some(n) => n,
        Option::None => 0,
    };
    ChatRespV {
        choices: seq![
            crate::msg::ChatChoiceV {
                index: 0,
                message: ChatMsgV { role: role, content: content },
                finish_reason: Option::Some(seq![0x73u8, 0x74, 0x6f, 0x70]),
            },
        ],
        usage: Option::Some(
            ChatUsage { prompt_tokens: pt, completion_tokens: ct, total_tokens: token_total(
                pt,
                ct,
            ) },
        ),
        model: model,
    }
}

/// Builds the common completion shape from the fields of an Ollama-style
/// reply.
pub fn normalize_ollama_reply(
    model: Vec<u8>,
    role: Vec<u8>,
    content: Vec<u8>,
    prompt_eval_count: Option<u32>,
    eval_count: Option<u32>,
) -> (r: ChatResp)
    ensures
        r@ == ollama_normal_form(model@, role@, content@, prompt_eval_count, eval_count),
{
    let pt = match prompt_eval_count {
        Option::Some(n) => n,
        Option::None => 0,
    };
    let ct = match eval_count {
        Option::Some(n) => n,
        Option::None => 0,
    };
    let total = if pt <= u32::MAX - ct {
        pt + ct
    } else {
        u32::MAX
    };
    let mut finish: Vec<u8> = Vec::new();
    crate::codec::push_bytes(&mut finish, &[0x73u8, 0x74, 0x6f, 0x70]);
    let mut choices: Vec<ChatChoice> = Vec::new();
    choices.push(
        ChatChoice {
            index: 0,
            message: ChatMsg { role, content },
            finish_reason: Option::Some(finish),
        },
    );
    let r = ChatResp {
        choices,
        usage: Option::Some(
            ChatUsage { prompt_tokens: pt, completion_tokens: ct, total_tokens: total },
        ),
        model,
    };
    proof {
        assert(r@.choices =~= ollama_normal_form(
            r.model@,
            r.choices@[0].message.role@,
            r.choices@[0].message.content@,
            prompt_eval_count,
            eval_count,
        ).choices);
    }
    r
}

} // verus!
