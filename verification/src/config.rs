//! Process configuration and per-session routing over it.
//!
//! The configuration is loaded once, outside the library, and handed in as
//! plain values; the core only reads it.  Alias routing resolves a node
//! label to an index into the configured node list, falling back to the
//! first node, exactly as a fresh per-session endpoint table would.

use vstd::prelude::*;

use crate::codec::{bytes_eq, push_bytes};

verus! {

/// Which wire convention a node's backend server speaks.
#[derive(Clone, Copy, PartialEq, Eq, Structural, Debug)]
pub enum ApiMode {
    OllamaStyle,
    OpenAiStyle,
}

/// One locally reachable backend advertised to the service.
#[derive(Clone)]
pub struct NodeConfig {
    pub alias: Vec<u8>,
    pub endpoint: Vec<u8>,
    pub api_mode: ApiMode,
    pub region: Vec<u8>,
    pub capacity: u32,
    /// Price per thousand tokens in millionths of the payment unit.
    pub price_micro: u64,
}

/// Ghost mirror of [`NodeConfig`].
pub struct NodeConfigV {
    pub alias: Seq<u8>,
    pub endpoint: Seq<u8>,
    pub api_mode: ApiMode,
    pub region: Seq<u8>,
    pub capacity: u32,
    pub price_micro: u64,
}

impl View for NodeConfig {
    type V = NodeConfigV;

    open spec fn view(&self) -> NodeConfigV {
        NodeConfigV {
            alias: self.alias@,
            endpoint: self.endpoint@,
            api_mode: self.api_mode,
            region: self.region@,
            capacity: self.capacity,
            price_micro: self.price_micro,
        }
    }
}

/// Whole process configuration.
#[derive(Clone)]
pub struct Config {
    pub client_id: Vec<u8>,
    pub api_secret: Vec<u8>,
    pub nodes: Vec<NodeConfig>,
    pub payout_address: Option<Vec<u8>>,
    pub server_url: Vec<u8>,
    pub reconnect_delay_secs: u64,
}

impl Config {
    /// The configured node list, as ghost values.
    pub open spec fn nodes_view(&self) -> Seq<NodeConfigV> {
        self.nodes@.map_values(|n: NodeConfig| n@)
    }

    /// A usable configuration names at least one node.
    pub open spec fn wf(&self) -> bool {
        self.nodes@.len() >= 1
    }
}

/// Default coordination-service address.
pub fn default_server_url() -> (r: Vec<u8>)
    ensures
        r@ == seq![
            0x77u8, 0x73, 0x73, 0x3a, 0x2f, 0x2f, 0x61, 0x69, 0x61, 0x73, 0x73, 0x69, 0x73, 0x74,
            0x2d, 0x73, 0x65, 0x63, 0x75, 0x72, 0x65, 0x2e, 0x72, 0x65, 0x70, 0x6c, 0x69, 0x74,
            0x2e, 0x61, 0x70, 0x70, 0x2f, 0x61, 0x70, 0x69, 0x2f, 0x76, 0x31, 0x2f, 0x70, 0x69,
            0x6e, 0x2f, 0x77, 0x73,
        ],
{
    let mut r: Vec<u8> = Vec::new();
    push_bytes(
        &mut r,
        &[
            0x77u8, 0x73, 0x73, 0x3a, 0x2f, 0x2f, 0x61, 0x69, 0x61, 0x73, 0x73, 0x69, 0x73, 0x74,
            0x2d, 0x73, 0x65, 0x63, 0x75, 0x72, 0x65, 0x2e, 0x72, 0x65, 0x70, 0x6c, 0x69, 0x74,
            0x2e, 0x61, 0x70, 0x70, 0x2f, 0x61, 0x70, 0x69, 0x2f, 0x76, 0x31, 0x2f, 0x70, 0x69,
            0x6e, 0x2f, 0x77, 0x73,
        ],
    );
    r
}

/// Default delay, in seconds, between reconnection attempts.
pub fn default_reconnect_delay() -> (r: u64)
    ensures
        r == 5,
{
    5
}

/// Default price per thousand tokens, in millionths of the payment unit.
pub fn default_price_micro() -> (r: u64)
    ensures
        r == 1000,
{
    1000
}

/// Reads a backend family tag: `openai` selects the OpenAI-style convention,
/// anything else the Ollama-style one.
pub fn api_mode_of(tag: &[u8]) -> (r: ApiMode)
    ensures
        r == (if tag@ == seq![0x6fu8, 0x70, 0x65, 0x6e, 0x61, 0x69] {
            ApiMode::OpenAiStyle
        } else {
            ApiMode::OllamaStyle
        }),
{
    if bytes_eq(tag, &[0x6fu8, 0x70, 0x65, 0x6e, 0x61, 0x69]) {
        ApiMode::OpenAiStyle
    } else {
        ApiMode::OllamaStyle
    }
}

/// The label an assignment routes by: the assignment's node id, or
/// `operator` when none is named.
pub open spec fn route_label(node_id: Option<Seq<u8>>) -> Seq<u8> {
    match node_id {
        Option::Some(id) => id,
        Option::None => seq![0x6fu8, 0x70, 0x65, 0x72, 0x61, 0x74, 0x6f, 0x72],
    }
}

/// Index of the first node whose alias is `label`, if any.
pub open spec fn find_alias(nodes: Seq<NodeConfigV>, label: Seq<u8>) -> Option<int>
    decreases nodes.len(),
{
    if nodes.len() == 0 {
        Option::None
    } else if nodes.first().alias == label {
        Option::Some(0)
    } else {
        match find_alias(nodes.drop_first(), label) {
            Option::Some(i) => Option::Some(i + 1),
            Option::None => Option::None,
        }
    }
}

/// The node index an assignment is routed to: the first node whose alias
/// matches the label, or the first configured node as fallback.
pub open spec fn resolved_index(nodes: Seq<NodeConfigV>, node_id: Option<Seq<u8>>) -> int {
    match find_alias(nodes, route_label(node_id)) {
        Option::Some(i) => i,
        Option::None => 0,
    }
}

/// Resolves an assignment's optional node id to a node index.
pub fn resolve_route(cfg: &Config, node_id: &Option<Vec<u8>>) -> (r: usize)
    requires
        cfg.wf(),
    ensures
        r == resolved_index(cfg.nodes_view(), crate::msg::ov(*node_id)),
        r < cfg.nodes@.len(),
{
    let label: &[u8] = match node_id {
        Option::Some(id) => id.as_slice(),
        Option::None => &[0x6fu8, 0x70, 0x65, 0x72, 0x61, 0x74, 0x6f, 0x72],
    };
    let ghost nv = cfg.nodes_view();
    let n = cfg.nodes.len();
    let mut i: usize = 0;
    while i < n
        invariant
            n == cfg.nodes@.len(),
            nv == cfg.nodes_view(),
            label@ == route_label(crate::msg::ov(*node_id)),
            i <= n,
            forall|k: int| 0 <= k < i ==> nv[k].alias != label@,
        decreases n - i,
    {
        if bytes_eq(cfg.nodes[i].alias.as_slice(), label) {
            proof {
                lemma_find_alias_first(nv, label@, i as int);
            }
            return i;
        }
        i = i + 1;
    }
    proof {
        lemma_find_alias_none(nv, label@);
    }
    0
}

/// If no prefix of `nodes` up to `i` matches and `nodes[i]` matches, the
/// first match is at `i`.
proof fn lemma_find_alias_first(nodes: Seq<NodeConfigV>, label: Seq<u8>, i: int)
    requires
        0 <= i < nodes.len(),
        nodes[i].alias == label,
        forall|k: int| 0 <= k < i ==> nodes[k].alias != label,
    ensures
        find_alias(nodes, label) == Option::Some(i),
    decreases i,
{
    if i == 0 {
    } else {
        assert(nodes.first().alias != label);
        lemma_find_alias_first(nodes.drop_first(), label, i - 1);
        assert(forall|k: int| 0 <= k < i - 1 ==> nodes.drop_first()[k] == nodes[k + 1]);
    }
}

/// If no node matches, the search fails.
proof fn lemma_find_alias_none(nodes: Seq<NodeConfigV>, label: Seq<u8>)
    requires
        forall|k: int| 0 <= k < nodes.len() ==> nodes[k].alias != label,
    ensures
        find_alias(nodes, label) is None,
    decreases nodes.len(),
{
    if nodes.len() > 0 {
        lemma_find_alias_none(nodes.drop_first(), label);
    }
}

} // verus!
