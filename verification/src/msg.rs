//! Data model of the coordination protocol.
//!
//! Textual fields are carried as UTF-8 byte strings (`Vec<u8>`): the wire
//! format is byte-oriented and the engine never needs to look inside the
//! text.  Each exec type has a ghost mirror (`...V`) over `Seq<u8>` that the
//! codec specifications and the contracts speak about.

use vstd::prelude::*;

verus! {

/// One role/content pair of a conversation.
#[derive(Clone)]
pub struct ChatMsg {
    pub role: Vec<u8>,
    pub content: Vec<u8>,
}

/// Ghost mirror of [`ChatMsg`].
pub struct ChatMsgV {
    pub role: Seq<u8>,
    pub content: Seq<u8>,
}

impl View for ChatMsg {
    type V = ChatMsgV;

    open spec fn view(&self) -> ChatMsgV {
        ChatMsgV { role: self.role@, content: self.content@ }
    }
}

/// Token accounting reported for one completion.
#[derive(Clone, Copy, PartialEq, Eq, Structural)]
pub struct ChatUsage {
    pub prompt_tokens: u32,
    pub completion_tokens: u32,
    pub total_tokens: u32,
}

/// One completion choice of a backend reply.
#[derive(Clone)]
pub struct ChatChoice {
    pub index: u32,
    pub message: ChatMsg,
    pub finish_reason: Option<Vec<u8>>,
}

/// Ghost mirror of [`ChatChoice`].
pub struct ChatChoiceV {
    pub index: u32,
    pub message: ChatMsgV,
    pub finish_reason: Option<Seq<u8>>,
}

/// View of an optional byte string.
pub open spec fn ov(o: Option<Vec<u8>>) -> Option<Seq<u8>> {
    match o {
        Option::Some(v) => Option::Some(v@),
        Option::None => Option::None,
    }
}

impl View for ChatChoice {
    type V = ChatChoiceV;

    open spec fn view(&self) -> ChatChoiceV {
        ChatChoiceV {
            index: self.index,
            message: self.message@,
            finish_reason: ov(self.finish_reason),
        }
    }
}

/// A whole backend completion reply, in the common shape both backend
/// families are normalised to.
#[derive(Clone)]
pub struct ChatResp {
    pub choices: Vec<ChatChoice>,
    pub usage: Option<ChatUsage>,
    pub model: Vec<u8>,
}

/// Ghost mirror of [`ChatResp`].
pub struct ChatRespV {
    pub choices: Seq<ChatChoiceV>,
    pub usage: Option<ChatUsage>,
    pub model: Seq<u8>,
}

impl View for ChatResp {
    type V = ChatRespV;

    open spec fn view(&self) -> ChatRespV {
        ChatRespV {
            choices: self.choices@.map_values(|c: ChatChoice| c@),
            usage: self.usage,
            model: self.model@,
        }
    }
}

/// One prompt of a benchmark interview script.
#[derive(Clone)]
pub struct InterviewPrompt {
    pub id: Vec<u8>,
    pub prompt: Vec<u8>,
    pub max_tokens: u32,
}

/// Ghost mirror of [`InterviewPrompt`].
pub struct InterviewPromptV {
    pub id: Seq<u8>,
    pub prompt: Seq<u8>,
    pub max_tokens: u32,
}

impl View for InterviewPrompt {
    type V = InterviewPromptV;

    open spec fn view(&self) -> InterviewPromptV {
        InterviewPromptV { id: self.id@, prompt: self.prompt@, max_tokens: self.max_tokens }
    }
}

/// Outcome of one interview prompt.
#[derive(Clone)]
pub struct PromptResult {
    pub prompt_id: Vec<u8>,
    pub response: Vec<u8>,
    pub ttft_ms: u32,
    pub total_ms: u32,
    pub tokens_generated: u32,
    pub error: Option<Vec<u8>>,
}

/// Ghost mirror of [`PromptResult`].
pub struct PromptResultV {
    pub prompt_id: Seq<u8>,
    pub response: Seq<u8>,
    pub ttft_ms: u32,
    pub total_ms: u32,
    pub tokens_generated: u32,
    pub error: Option<Seq<u8>>,
}

impl View for PromptResult {
    type V = PromptResultV;

    open spec fn view(&self) -> PromptResultV {
        PromptResultV {
            prompt_id: self.prompt_id@,
            response: self.response@,
            ttft_ms: self.ttft_ms,
            total_ms: self.total_ms,
            tokens_generated: self.tokens_generated,
            error: ov(self.error),
        }
    }
}

/// Body of an inference work assignment.
#[derive(Clone)]
pub struct InferencePayload {
    pub model: Vec<u8>,
    pub messages: Vec<ChatMsg>,
    pub stream: bool,
}

/// Ghost mirror of [`InferencePayload`].
pub struct InferencePayloadV {
    pub model: Seq<u8>,
    pub messages: Seq<ChatMsgV>,
    pub stream: bool,
}

impl View for InferencePayload {
    type V = InferencePayloadV;

    open spec fn view(&self) -> InferencePayloadV {
        InferencePayloadV {
            model: self.model@,
            messages: self.messages@.map_values(|m: ChatMsg| m@),
            stream: self.stream,
        }
    }
}

/// Outbound message: client to coordination service.
#[derive(Clone)]
pub enum ClientMessage {
    Auth { client_id: Vec<u8>, timestamp: Vec<u8>, signature: Vec<u8> },
    Pong,
    Heartbeat,
    UpdateWallet { payout_address: Vec<u8> },
    RegisterNode {
        alias: Vec<u8>,
        models: Vec<Vec<u8>>,
        capacity: u32,
        region: Vec<u8>,
        /// Price per thousand tokens in millionths of the payment unit.
        price_micro: u64,
    },
    InferenceResponse { request_id: Vec<u8>, result: ChatResp },
    InferenceError { request_id: Vec<u8>, error: Vec<u8> },
    InterviewResult { interview_id: Vec<u8>, model: Vec<u8>, results: Vec<PromptResult> },
}

/// Ghost mirror of [`ClientMessage`].
pub enum ClientMessageV {
    Auth { client_id: Seq<u8>, timestamp: Seq<u8>, signature: Seq<u8> },
    Pong,
    Heartbeat,
    UpdateWallet { payout_address: Seq<u8> },
    RegisterNode {
        alias: Seq<u8>,
        models: Seq<Seq<u8>>,
        capacity: u32,
        region: Seq<u8>,
        price_micro: u64,
    },
    InferenceResponse { request_id: Seq<u8>, result: ChatRespV },
    InferenceError { request_id: Seq<u8>, error: Seq<u8> },
    InterviewResult { interview_id: Seq<u8>, model: Seq<u8>, results: Seq<PromptResultV> },
}

impl View for ClientMessage {
    type V = ClientMessageV;

    open spec fn view(&self) -> ClientMessageV {
        match self {
            ClientMessage::Auth { client_id, timestamp, signature } => ClientMessageV::Auth {
                client_id: client_id@,
                timestamp: timestamp@,
                signature: signature@,
            },
            ClientMessage::Pong => ClientMessageV::Pong,
            ClientMessage::Heartbeat => ClientMessageV::Heartbeat,
            ClientMessage::UpdateWallet { payout_address } => ClientMessageV::UpdateWallet {
                payout_address: payout_address@,
            },
            ClientMessage::RegisterNode { alias, models, capacity, region, price_micro } => (
            ClientMessageV::RegisterNode {
                alias: alias@,
                models: models@.map_values(|m: Vec<u8>| m@),
                capacity: *capacity,
                region: region@,
                price_micro: *price_micro,
            }),
            ClientMessage::InferenceResponse { request_id, result } => (
            ClientMessageV::InferenceResponse {
                request_id: request_id@,
                result: result@,
            }),
            ClientMessage::InferenceError { request_id, error } => ClientMessageV::InferenceError {
                request_id: request_id@,
                error: error@,
            },
            ClientMessage::InterviewResult { interview_id, model, results } => (
            ClientMessageV::InterviewResult {
                interview_id: interview_id@,
                model: model@,
                results: results@.map_values(|r: PromptResult| r@),
            }),
        }
    }
}

/// Inbound message: coordination service to client.
#[derive(Clone)]
pub enum ServerMessage {
    AuthSuccess { operator_id: Vec<u8>, node_id: Option<Vec<u8>>, message: Vec<u8> },
    ErrorMsg { message: Vec<u8> },
    Ping,
    HeartbeatAck,
    ModelListAck,
    RegisterNodeAck {
        node_id: Vec<u8>,
        alias: Vec<u8>,
        models: Vec<Vec<u8>>,
        created: bool,
        message: Vec<u8>,
    },
    UpdateWalletAck { success: bool, message: Vec<u8> },
    InferenceRequest { request_id: Vec<u8>, payload: InferencePayload },
    InterviewRequest {
        interview_id: Vec<u8>,
        node_id: Option<Vec<u8>>,
        model: Vec<u8>,
        prompts: Vec<InterviewPrompt>,
        timeout_ms: u32,
    },
    InterviewComplete {
        interview_id: Vec<u8>,
        node_id: Option<Vec<u8>>,
        tier: Vec<u8>,
        /// Raw decimal text of the reported accuracy; only logged, never computed with.
        accuracy: Vec<u8>,
        /// Raw decimal text of the reported throughput; only logged, never computed with.
        tokens_per_sec: Vec<u8>,
        reason: Vec<u8>,
    },
}

/// Ghost mirror of [`ServerMessage`].
pub enum ServerMessageV {
    AuthSuccess { operator_id: Seq<u8>, node_id: Option<Seq<u8>>, message: Seq<u8> },
    ErrorMsg { message: Seq<u8> },
    Ping,
    HeartbeatAck,
    ModelListAck,
    RegisterNodeAck {
        node_id: Seq<u8>,
        alias: Seq<u8>,
        models: Seq<Seq<u8>>,
        created: bool,
        message: Seq<u8>,
    },
    UpdateWalletAck { success: bool, message: Seq<u8> },
    InferenceRequest { request_id: Seq<u8>, payload: InferencePayloadV },
    InterviewRequest {
        interview_id: Seq<u8>,
        node_id: Option<Seq<u8>>,
        model: Seq<u8>,
        prompts: Seq<InterviewPromptV>,
        timeout_ms: u32,
    },
    InterviewComplete {
        interview_id: Seq<u8>,
        node_id: Option<Seq<u8>>,
        tier: Seq<u8>,
        accuracy: Seq<u8>,
        tokens_per_sec: Seq<u8>,
        reason: Seq<u8>,
    },
}

impl View for ServerMessage {
    type V = ServerMessageV;

    open spec fn view(&self) -> ServerMessageV {
        match self {
            ServerMessage::AuthSuccess { operator_id, node_id, message } => (
            ServerMessageV::AuthSuccess {
                operator_id: operator_id@,
                node_id: ov(*node_id),
                message: message@,
            }),
            ServerMessage::ErrorMsg { message } => ServerMessageV::ErrorMsg { message: message@ },
            ServerMessage::Ping => ServerMessageV::Ping,
            ServerMessage::HeartbeatAck => ServerMessageV::HeartbeatAck,
            ServerMessage::ModelListAck => ServerMessageV::ModelListAck,
            ServerMessage::RegisterNodeAck { node_id, alias, models, created, message } => (
            ServerMessageV::RegisterNodeAck {
                node_id: node_id@,
                alias: alias@,
                models: models@.map_values(|m: Vec<u8>| m@),
                created: *created,
                message: message@,
            }),
            ServerMessage::UpdateWalletAck { success, message } => (
            ServerMessageV::UpdateWalletAck {
                success: *success,
                message: message@,
            }),
            ServerMessage::InferenceRequest { request_id, payload } => (
            ServerMessageV::InferenceRequest {
                request_id: request_id@,
                payload: payload@,
            }),
            ServerMessage::InterviewRequest { interview_id, node_id, model, prompts, timeout_ms }
                => (
            ServerMessageV::InterviewRequest {
                interview_id: interview_id@,
                node_id: ov(*node_id),
                model: model@,
                prompts: prompts@.map_values(|p: InterviewPrompt| p@),
                timeout_ms: *timeout_ms,
            }),
            ServerMessage::InterviewComplete {
                interview_id,
                node_id,
                tier,
                accuracy,
                tokens_per_sec,
                reason,
            } => (
            ServerMessageV::InterviewComplete {
                interview_id: interview_id@,
                node_id: ov(*node_id),
                tier: tier@,
                accuracy: accuracy@,
                tokens_per_sec: tokens_per_sec@,
                reason: reason@,
            }),
        }
    }
}

} // verus!
