//! The session engine: one connection's state machine.
//!
//! The engine owns no transport.  The caller feeds it events — a received
//! frame, a completed backend call, the heartbeat timer, a transport fault,
//! the shutdown request — and performs the actions it returns: write a
//! frame, fetch model lists and register, run an interview, start a backend
//! call, or tear the session down.  Every decision the connection loop makes
//! is in here; only the waiting is outside.

use vstd::prelude::*;

use crate::codec::{clone_bytes, dec_bytes};
use crate::config::{Config, resolved_index};
use crate::dispatch::{Dispatcher, WorkItem, outcome_view, reply_for};
use crate::encode::{enc_client, encode_client_message};
use crate::msg::{ChatResp, ClientMessage, ClientMessageV, InterviewPrompt, ServerMessage};
use crate::parse::{decode_server_message, p_server};
use crate::sig::{compute_signature, sig_of};

verus! {

/// Why a session ended.
pub enum TermReason {
    /// The shutdown flag was observed.
    Shutdown,
    /// The peer closed the connection.
    PeerClosed,
    /// A transport read or write failed.
    TransportError,
    /// The peer reported a fatal protocol error.
    PeerError(Vec<u8>),
}

/// What the caller must do after a step.
pub enum SessionAction {
    /// Write this frame on the connection.
    SendFrame(Vec<u8>),
    /// Fetch each configured node's model list, then send the frames built
    /// by [`auth_success_replies`].
    BeginRegistration,
    /// Run the interview script against the resolved node and feed each
    /// prompt's outcome back through an [`crate::interview::InterviewRun`].
    RunInterview {
        node_index: usize,
        interview_id: Vec<u8>,
        model: Vec<u8>,
        prompts: Vec<InterviewPrompt>,
    },
    /// A slot is held for this work item: perform the backend call against
    /// the node at `node_index` and report it with
    /// [`SessionEvent::BackendDone`].  Inference work always resolves to the
    /// first configured node; only interviews route by alias.
    StartBackendCall { node_index: usize, item: WorkItem },
    /// Drop the connection and return the reason to the reconnection loop.
    Terminate(TermReason),
}

/// What can happen to a running session.
pub enum SessionEvent {
    /// A text frame arrived.
    Inbound(Vec<u8>),
    /// A backend call started earlier has finished.
    BackendDone { request_id: Vec<u8>, outcome: Result<ChatResp, Vec<u8>> },
    /// The heartbeat timer fired.
    HeartbeatTick,
    /// The peer closed the connection.
    PeerClosed,
    /// A transport read or write failed.
    TransportError,
    /// The shutdown flag became false.
    StopRequested,
}

/// The counter after one more served request, wrapping like the process-wide
/// counter it models.
pub open spec fn next_count(c: u64) -> u64 {
    if c == u64::MAX {
        0
    } else {
        (c + 1) as u64
    }
}

/// Per-session state: the dispatcher and the served-request counter.
pub struct Session {
    pub dispatcher: Dispatcher,
    pub requests_served: u64,
    pub terminated: bool,
}

impl Session {
    /// The dispatcher is well formed and drained: work only queues while
    /// every slot is taken.
    pub open spec fn wf(&self) -> bool {
        &&& self.dispatcher.wf()
        &&& self.dispatcher.queued().len() > 0 ==> self.dispatcher.in_flight().len()
            == self.dispatcher.cap()
    }

    /// Starts a session with `limit` concurrent backend-call slots and a
    /// served-request count carried over from earlier sessions.
    pub fn new(limit: usize, requests_served: u64) -> (r: Session)
        requires
            limit >= 1,
        ensures
            r.wf(),
            r.dispatcher.cap() == limit,
            r.dispatcher.queued().len() == 0,
            r.dispatcher.in_flight().len() == 0,
            r.requests_served == requests_served,
            !r.terminated,
    {
        Session { dispatcher: Dispatcher::new(limit), requests_served, terminated: false }
    }
}

/// The AUTH frame opening a session at `now_secs` seconds since the epoch.
pub open spec fn auth_frame_rep(cfg: Config, now_secs: u64) -> Seq<u8> {
    enc_client(
        ClientMessageV::Auth {
            client_id: cfg.client_id@,
            timestamp: crate::codec::dec_rep(now_secs as nat),
            signature: sig_of(
                cfg.client_id@,
                crate::codec::dec_rep(now_secs as nat),
                cfg.api_secret@,
            ),
        },
    )
}

/// Builds the signed AUTH frame that opens a session.
pub fn make_auth_frame(cfg: &Config, now_secs: u64) -> (r: Vec<u8>)
    ensures
        r@ == auth_frame_rep(*cfg, now_secs),
{
    let timestamp = dec_bytes(now_secs);
    let signature = compute_signature(
        cfg.client_id.as_slice(),
        timestamp.as_slice(),
        cfg.api_secret.as_slice(),
    );
    let msg = ClientMessage::Auth {
        client_id: clone_bytes(&cfg.client_id),
        timestamp,
        signature,
    };
    encode_client_message(&msg)
}

/// A wallet update is owed exactly when a payout address is configured and
/// not empty.
pub open spec fn wallet_pending(cfg: Config) -> bool {
    match cfg.payout_address {
        Option::Some(a) => a@.len() > 0,
        Option::None => false,
    }
}

/// The models advertised for a node: what its backend listed, or an empty
/// list when the listing failed.
pub open spec fn models_of(o: Result<Vec<Vec<u8>>, Vec<u8>>) -> Seq<Seq<u8>> {
    match o {
        Result::Ok(l) => l@.map_values(|v: Vec<u8>| v@),
        Result::Err(_) => Seq::empty(),
    }
}

/// The REGISTER_NODE frame for one configured node with its model list.
pub open spec fn register_frame_rep(n: crate::config::NodeConfigV, models: Seq<Seq<u8>>) -> Seq<
    u8,
> {
    enc_client(
        ClientMessageV::RegisterNode {
            alias: n.alias,
            models: models,
            capacity: n.capacity,
            region: n.region,
            price_micro: n.price_micro,
        },
    )
}

/// Builds the frames owed after AUTH_SUCCESS: the wallet update when a
/// payout address is configured, then exactly one REGISTER_NODE per
/// configured node, in configuration order, whether or not its model
/// listing succeeded.
pub fn auth_success_replies(cfg: &Config, fetched: Vec<Result<Vec<Vec<u8>>, Vec<u8>>>) -> (r: Vec<
    Vec<u8>,
>)
    requires
        fetched@.len() == cfg.nodes@.len(),
    ensures
        r@.len() == (if wallet_pending(*cfg) {
            1int
        } else {
            0int
        }) + cfg.nodes@.len(),
        wallet_pending(*cfg) ==> r@[0]@ == enc_client(
            ClientMessageV::UpdateWallet { payout_address: cfg.payout_address->Some_0@ },
        ),
        forall|i: int|
            0 <= i < cfg.nodes@.len() ==> r@[(if wallet_pending(*cfg) {
                1int
            } else {
                0int
            }) + i]@ == register_frame_rep(cfg.nodes_view()[i], models_of(fetched@[i])),
{
    let ghost fv = fetched@;
    let ghost w: int = if wallet_pending(*cfg) { 1int } else { 0int };
    let mut r: Vec<Vec<u8>> = Vec::new();
    match &cfg.payout_address {
        Option::Some(addr) => {
            if addr.len() > 0 {
                let msg = ClientMessage::UpdateWallet { payout_address: clone_bytes(addr) };
                r.push(encode_client_message(&msg));
            }
        },
        Option::None => {},
    }
    let mut fetched = fetched;
    let n = cfg.nodes.len();
    let mut i: usize = 0;
    while i < n
        invariant
            n == cfg.nodes@.len(),
            fv.len() == n,
            i <= n,
            fetched@ == fv.skip(i as int),
            r@.len() == w + i,
            w == (if wallet_pending(*cfg) {
                1int
            } else {
                0int
            }),
            wallet_pending(*cfg) ==> r@[0]@ == enc_client(
                ClientMessageV::UpdateWallet { payout_address: cfg.payout_address->Some_0@ },
            ),
            forall|k: int|
                0 <= k < i ==> r@[w + k]@ == register_frame_rep(
                    cfg.nodes_view()[k],
                    models_of(fv[k]),
                ),
        decreases n - i,
    {
        let outcome = fetched.remove(0);
        let ghost ov0 = fv[i as int];
        proof {
            assert(fv.skip(i as int)[0] == fv[i as int]);
            assert(fv.skip(i as int).remove(0) =~= fv.skip(i + 1));
        }
        let models: Vec<Vec<u8>> = match outcome {
            Result::Ok(l) => l,
            Result::Err(_) => Vec::new(),
        };
        proof {
            assert(models@.map_values(|v: Vec<u8>| v@) =~= models_of(ov0));
        }
        let node = &cfg.nodes[i];
        let msg = ClientMessage::RegisterNode {
            alias: clone_bytes(&node.alias),
            models,
            capacity: node.capacity,
            region: clone_bytes(&node.region),
            price_micro: node.price_micro,
        };
        r.push(encode_client_message(&msg));
        i = i + 1;
    }
    r
}

/// The action list is one frame holding exactly `f`.
pub open spec fn one_send(r: Seq<SessionAction>, f: Seq<u8>) -> bool {
    &&& r.len() == 1
    &&& (r[0] matches SessionAction::SendFrame(g) && g@ == f)
}

/// What routing an INFERENCE_REQUEST must do: count it, and either start it
/// at once when a slot is free or queue it behind the running calls.
pub open spec fn inference_routed(
    request_id: Seq<u8>,
    payload: crate::msg::InferencePayloadV,
    pre: Session,
    post: Session,
    r: Seq<SessionAction>,
) -> bool {
    &&& post.requests_served == next_count(pre.requests_served)
    &&& if pre.dispatcher.in_flight().len() < pre.dispatcher.cap() {
        &&& r.len() == 1
        &&& (r[0] matches SessionAction::StartBackendCall { node_index, item: w }
            && node_index == 0 && w@.request_id == request_id && w@.model == payload.model
            && w@.messages == payload.messages)
        &&& post.dispatcher.queued() == pre.dispatcher.queued()
        &&& post.dispatcher.in_flight() == pre.dispatcher.in_flight().push(request_id)
    } else {
        &&& r.len() == 0
        &&& post.dispatcher.in_flight() == pre.dispatcher.in_flight()
        &&& post.dispatcher.queued() == pre.dispatcher.queued().push(
            crate::dispatch::WorkItemV {
                request_id: request_id,
                model: payload.model,
                messages: payload.messages,
            },
        )
    }
}

/// What routing an INTERVIEW_REQUEST must do: resolve the target node and
/// hand the whole script out to run.
pub open spec fn interview_routed(
    cfg: Config,
    interview_id: Seq<u8>,
    node_id: Option<Seq<u8>>,
    model: Seq<u8>,
    prompts: Seq<crate::msg::InterviewPromptV>,
    r: Seq<SessionAction>,
) -> bool {
    &&& r.len() == 1
    &&& (r[0] matches SessionAction::RunInterview {
        node_index,
        interview_id: iid,
        model: m,
        prompts: ps,
    } && node_index as int == resolved_index(cfg.nodes_view(), node_id)
        && (node_index as int) < cfg.nodes@.len() && iid@ == interview_id && m@ == model
        && ps@.map_values(|p: InterviewPrompt| p@) == prompts)
}

/// What completing a backend call must do: send the one reply owed, and
/// start the oldest queued item with the freed slot.
pub open spec fn backend_done_handled(
    request_id: Seq<u8>,
    outcome: Result<crate::msg::ChatRespV, Seq<u8>>,
    pre: Session,
    post: Session,
    r: Seq<SessionAction>,
) -> bool {
    &&& r.len() >= 1
    &&& (r[0] matches SessionAction::SendFrame(f) && f@ == enc_client(
        reply_for(request_id, outcome),
    ))
    &&& if pre.dispatcher.queued().len() > 0 {
        &&& r.len() == 2
        &&& (r[1] matches SessionAction::StartBackendCall { node_index, item: w }
            && node_index == 0 && w@ == pre.dispatcher.queued().first())
        &&& post.dispatcher.queued() == pre.dispatcher.queued().drop_first()
        &&& post.dispatcher.in_flight() == pre.dispatcher.in_flight().remove(
            crate::dispatch::first_index(pre.dispatcher.in_flight(), request_id),
        ).push(pre.dispatcher.queued().first().request_id)
    } else {
        &&& r.len() == 1
        &&& post.dispatcher.queued() == pre.dispatcher.queued()
        &&& post.dispatcher.in_flight() == pre.dispatcher.in_flight().remove(
            crate::dispatch::first_index(pre.dispatcher.in_flight(), request_id),
        )
    }
}

/// The handler table of spec for one decoded inbound message: what actions
/// it produces and how the session state moves.
pub open spec fn routed(
    cfg: Config,
    m: crate::msg::ServerMessageV,
    pre: Session,
    post: Session,
    r: Seq<SessionAction>,
) -> bool {
    match m {
        crate::msg::ServerMessageV::Ping => one_send(r, enc_client(ClientMessageV::Pong))
            && post == pre,
        crate::msg::ServerMessageV::AuthSuccess { .. } => r.len() == 1 && r[0]
            is BeginRegistration && post == pre,
        crate::msg::ServerMessageV::ErrorMsg { message } => r.len() == 1 && (r[0] matches
            SessionAction::Terminate(TermReason::PeerError(e)) && e@ == message)
            && post.terminated,
        crate::msg::ServerMessageV::HeartbeatAck => r.len() == 0 && post == pre,
        crate::msg::ServerMessageV::ModelListAck => r.len() == 0 && post == pre,
        crate::msg::ServerMessageV::RegisterNodeAck { .. } => r.len() == 0 && post == pre,
        crate::msg::ServerMessageV::UpdateWalletAck { .. } => r.len() == 0 && post == pre,
        crate::msg::ServerMessageV::InterviewComplete { .. } => r.len() == 0 && post == pre,
        crate::msg::ServerMessageV::InterviewRequest {
            interview_id,
            node_id,
            model,
            prompts,
            ..
        } => interview_routed(cfg, interview_id, node_id, model, prompts, r) && post == pre,
        crate::msg::ServerMessageV::InferenceRequest { request_id, payload } => (
        inference_routed(request_id, payload, pre, post, r)),
    }
}

/// What one inbound frame must do: a frame that does not decode is dropped
/// without a trace; one that decodes is routed by the handler table.
pub open spec fn inbound_handled(
    cfg: Config,
    b: Seq<u8>,
    pre: Session,
    post: Session,
    r: Seq<SessionAction>,
) -> bool {
    &&& (p_server(b) is None ==> r.len() == 0 && post == pre)
    &&& (p_server(b) matches Option::Some(m) ==> routed(cfg, m, pre, post, r))
}

/// Routes one decoded inbound message: the handler table of the protocol.
pub fn route_message(cfg: &Config, st: &mut Session, msg: ServerMessage) -> (r: Vec<
    SessionAction,
>)
    requires
        cfg.wf(),
        old(st).wf(),
    ensures
        final(st).wf(),
        final(st).dispatcher.cap() == old(st).dispatcher.cap(),
        routed(*cfg, msg@, *old(st), *final(st), r@),
{
    let mut r: Vec<SessionAction> = Vec::new();
    match msg {
        ServerMessage::Ping => {
            r.push(SessionAction::SendFrame(encode_client_message(&ClientMessage::Pong)));
        },
        ServerMessage::AuthSuccess { .. } => {
            r.push(SessionAction::BeginRegistration);
        },
        ServerMessage::ErrorMsg { message } => {
            st.terminated = true;
            r.push(SessionAction::Terminate(TermReason::PeerError(message)));
        },
        ServerMessage::HeartbeatAck => {},
        ServerMessage::ModelListAck => {},
        ServerMessage::RegisterNodeAck { .. } => {},
        ServerMessage::UpdateWalletAck { .. } => {},
        ServerMessage::InterviewComplete { .. } => {},
        ServerMessage::InterviewRequest { interview_id, node_id, model, prompts, .. } => {
            let node_index = crate::config::resolve_route(cfg, &node_id);
            r.push(SessionAction::RunInterview { node_index, interview_id, model, prompts });
        },
        ServerMessage::InferenceRequest { request_id, payload } => {
            st.requests_served = if st.requests_served == u64::MAX {
                0
            } else {
                st.requests_served + 1
            };
            let item = WorkItem {
                request_id,
                model: payload.model,
                messages: payload.messages,
            };
            st.dispatcher.submit(item);
            match st.dispatcher.try_start() {
                Option::Some(started) => {
                    proof {
                        assert(final(st).dispatcher.queued() =~= old(
                            st,
                        ).dispatcher.queued());
                    }
                    r.push(SessionAction::StartBackendCall { node_index: 0, item: started });
                },
                Option::None => {},
            }
        },
    }
    r
}

/// Drives the session by one event.  Inbound frames that do not decode are
/// dropped and the session continues; a transport fault, the peer's ERROR or
/// the shutdown flag terminate it.
#[verifier::rlimit(80)]
pub fn session_step(cfg: &Config, st: &mut Session, ev: SessionEvent) -> (r: Vec<SessionAction>)
    requires
        cfg.wf(),
        old(st).wf(),
        ev matches SessionEvent::BackendDone { request_id, .. } ==> old(
            st,
        ).dispatcher.in_flight().contains(request_id@),
    ensures
        final(st).wf(),
        final(st).dispatcher.cap() == old(st).dispatcher.cap(),
        match ev {
            SessionEvent::Inbound(b) => inbound_handled(*cfg, b@, *old(st), *final(st), r@),
            SessionEvent::BackendDone { request_id, outcome } => backend_done_handled(
                request_id@,
                outcome_view(outcome),
                *old(st),
                *final(st),
                r@,
            ),
            SessionEvent::HeartbeatTick => one_send(r@, enc_client(ClientMessageV::Heartbeat))
                && *final(st) == *old(st),
            SessionEvent::PeerClosed => r@.len() == 1 && (r@[0] matches
                SessionAction::Terminate(TermReason::PeerClosed)) && final(st).terminated,
            SessionEvent::TransportError => r@.len() == 1 && (r@[0] matches
                SessionAction::Terminate(TermReason::TransportError)) && final(st).terminated,
            SessionEvent::StopRequested => r@.len() == 1 && (r@[0] matches
                SessionAction::Terminate(TermReason::Shutdown)) && final(st).terminated,
        },
{
    let mut r: Vec<SessionAction> = Vec::new();
    match ev {
        SessionEvent::Inbound(b) => {
            match decode_server_message(b.as_slice()) {
                Option::Some(m) => {
                    return route_message(cfg, st, m);
                },
                Option::None => {},
            }
        },
        SessionEvent::BackendDone { request_id, outcome } => {
            proof {
                crate::dispatch::lemma_first_index_bounds(
                    st.dispatcher.in_flight(),
                    request_id@,
                );
            }
            let reply = st.dispatcher.complete(request_id.as_slice(), outcome);
            r.push(SessionAction::SendFrame(encode_client_message(&reply)));
            match st.dispatcher.try_start() {
                Option::Some(started) => {
                    r.push(SessionAction::StartBackendCall { node_index: 0, item: started });
                },
                Option::None => {},
            }
        },
        SessionEvent::HeartbeatTick => {
            r.push(SessionAction::SendFrame(encode_client_message(&ClientMessage::Heartbeat)));
        },
        SessionEvent::PeerClosed => {
            st.terminated = true;
            r.push(SessionAction::Terminate(TermReason::PeerClosed));
        },
        SessionEvent::TransportError => {
            st.terminated = true;
            r.push(SessionAction::Terminate(TermReason::TransportError));
        },
        SessionEvent::StopRequested => {
            st.terminated = true;
            r.push(SessionAction::Terminate(TermReason::Shutdown));
        },
    }
    r
}

/// Whether the reconnection loop runs one more session: it stops only when
/// shutdown has been requested.
pub fn should_reconnect(running: bool) -> (r: bool)
    ensures
        r == running,
{
    running
}

} // verus!
