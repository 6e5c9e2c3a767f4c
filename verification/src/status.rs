//! What the dashboard knows of the machine and of the node, and the polling
//! schedules for the node's RPC interface.
use vstd::prelude::*;
use crate::procinfo::{any_mounted, find_field, is_mounted, meminfo_value};
use crate::rpc::{
    cookie_from_file, json_bool, json_bool_of, json_f64_text, json_number_text_of, json_u64,
    json_u64_of, rpc_request_of, Rpc,
};
use crate::text::{chars_of, lines, string_of, trim};

verus! {

/// Milliseconds between two polls of the node's network state.
pub const NETWORK_POLL_MS: u64 = 120_000;
/// Milliseconds between two polls of the node's chain state.
pub const CHAIN_POLL_MS: u64 = 2_000;
/// Where the node's data disk is mounted.
pub const NODE_MOUNT: &'static str = "/mnt/bitcoin-node";

/// A copy of an optional text.
fn copy_text(t: &Option<String>) -> (r: Option<String>)
    ensures
        r == *t,
{
    match t {
        Some(s) => Some(s.clone()),
        None => None,
    }
}

/// The owned text of an optional borrowed one.
fn own_text(t: Option<&str>) -> (r: Option<String>)
    ensures
        text_view(r) == str_view(t),
{
    match t {
        Some(u) => {
            let v = chars_of(u);
            Some(string_of(&v))
        },
        None => None,
    }
}

/// The optional view of an optional borrowed text.
pub open spec fn str_view(t: Option<&str>) -> Option<Seq<char>> {
    match t {
        Some(s) => Some(s@),
        None => None,
    }
}

/// The optional view of an optional text.
pub open spec fn text_view(t: Option<String>) -> Option<Seq<char>> {
    match t {
        Some(s) => Some(s@),
        None => None,
    }
}

/// The machine's state, from its `/proc` reports.
pub struct Machine {
    pub uptime_seconds: u64,
    /// The load averages as shown.
    pub load: String,
    /// The one-minute load, scaled so that 4.0 is 100.
    pub load_sample: u8,
    /// MiB.
    pub mem_available: u64,
    /// MiB.
    pub mem_total: u64,
    /// MiB.
    pub swap_used: u64,
    /// MiB.
    pub swap_total: u64,
    pub disk_mounted: bool,
}

impl Machine {
    /// The machine's state from its reports: memory and swap from
    /// `/proc/meminfo` (an empty text where there is none), the data disk
    /// from `/proc/mounts`.
    pub fn from_reports(
        uptime_seconds: u64,
        load: String,
        load_sample: u8,
        meminfo: &str,
        mounts: Option<&str>,
    ) -> (r: Machine)
        ensures
            r.uptime_seconds == uptime_seconds,
            r.load == load,
            r.load_sample == load_sample,
            r.mem_total == meminfo_mib(meminfo@, "MemTotal"@),
            r.mem_available == meminfo_mib(meminfo@, "MemAvailable"@),
            r.swap_total == meminfo_mib(meminfo@, "SwapTotal"@),
            r.swap_used == if meminfo_mib(meminfo@, "SwapTotal"@) > meminfo_mib(
                meminfo@,
                "SwapFree"@,
            ) {
                meminfo_mib(meminfo@, "SwapTotal"@) - meminfo_mib(meminfo@, "SwapFree"@)
            } else {
                0
            },
            r.disk_mounted == match mounts {
                Some(m) => any_mounted(lines(m@), NODE_MOUNT@),
                None => false,
            },
    {
        let mem_total = meminfo_value(meminfo, "MemTotal");
        let mem_available = meminfo_value(meminfo, "MemAvailable");
        let swap_total = meminfo_value(meminfo, "SwapTotal");
        let swap_free = meminfo_value(meminfo, "SwapFree");
        let disk_mounted = match mounts {
            Some(m) => is_mounted(m, NODE_MOUNT),
            None => false,
        };
        Machine {
            uptime_seconds,
            load,
            load_sample,
            mem_available,
            mem_total,
            swap_used: swap_total.saturating_sub(swap_free),
            swap_total,
            disk_mounted,
        }
    }
}

/// A `/proc/meminfo` value in MiB (0 where there is none).
pub open spec fn meminfo_mib(text: Seq<char>, key: Seq<char>) -> u64 {
    match find_field(lines(text), key) {
        Some(kib) => kib / 1024,
        None => 0,
    }
}

/// The node's mempool statistics.
pub struct Mempool {
    pub available: bool,
    pub entries: u64,
    pub bytes: u64,
    pub usage: u64,
    pub limit: u64,
    /// The text of the minimum fee rate (BTC/kvB) as the node wrote it.
    pub min_fee: Option<String>,
    pub unbroadcast: u64,
}

/// A field of an RPC reply read as an unsigned integer, 0 where it is missing.
pub open spec fn u64_or_zero(body: Seq<char>, key: Seq<char>) -> u64 {
    match json_u64_of(body, key) {
        Some(v) => v,
        None => 0,
    }
}

/// `m` holds the statistics of a node that did not answer.
pub open spec fn mempool_unavailable(m: Mempool) -> bool {
    &&& !m.available
    &&& m.entries == 0 && m.bytes == 0 && m.usage == 0 && m.limit == 0 && m.unbroadcast == 0
    &&& m.min_fee is None
}

/// `m` holds the statistics of a `getmempoolinfo` reply.
pub open spec fn mempool_from(m: Mempool, body: Seq<char>) -> bool {
    &&& m.available
    &&& m.entries == u64_or_zero(body, "size"@)
    &&& m.bytes == u64_or_zero(body, "bytes"@)
    &&& m.usage == u64_or_zero(body, "usage"@)
    &&& m.limit == u64_or_zero(body, "maxmempool"@)
    &&& text_view(m.min_fee) == json_number_text_of(body, "mempoolminfee"@)
    &&& m.unbroadcast == u64_or_zero(body, "unbroadcastcount"@)
}

impl Mempool {
    /// Statistics for a node that did not answer.
    pub fn unavailable() -> (r: Mempool)
        ensures
            mempool_unavailable(r),
    {
        Mempool {
            available: false,
            entries: 0,
            bytes: 0,
            usage: 0,
            limit: 0,
            min_fee: None,
            unbroadcast: 0,
        }
    }

    /// Statistics from a `getmempoolinfo` reply.
    pub fn from_rpc(body: &str) -> (r: Mempool)
        ensures
            mempool_from(r, body@),
    {
        Mempool {
            available: true,
            entries: json_u64(body, "size").unwrap_or(0),
            bytes: json_u64(body, "bytes").unwrap_or(0),
            usage: json_u64(body, "usage").unwrap_or(0),
            limit: json_u64(body, "maxmempool").unwrap_or(0),
            min_fee: own_text(json_f64_text(body, "mempoolminfee")),
            unbroadcast: json_u64(body, "unbroadcastcount").unwrap_or(0),
        }
    }

    /// A copy of these statistics.
    pub fn copy(&self) -> (r: Mempool)
        ensures
            r == *self,
    {
        Mempool {
            available: self.available,
            entries: self.entries,
            bytes: self.bytes,
            usage: self.usage,
            limit: self.limit,
            min_fee: copy_text(&self.min_fee),
            unbroadcast: self.unbroadcast,
        }
    }
}

/// The node's state.
pub struct Node {
    pub rpc_ok: bool,
    pub process_alive: bool,
    pub resident_kib: u64,
    pub blocks: u64,
    pub headers: u64,
    /// The text of the verification progress (0 to 1) as the node wrote it.
    pub verification: Option<String>,
    pub ibd: bool,
    pub pruned: bool,
    pub connections: u64,
    pub network_active: bool,
    pub disk_bytes: u64,
    pub mempool: Mempool,
}

/// `r` is the state of a node whose RPC interface did not answer, with the
/// process state of `core_rss`.
pub open spec fn node_unavailable(r: Node, core_rss: Option<u64>) -> bool {
    &&& !r.rpc_ok
    &&& r.process_alive == core_rss is Some
    &&& r.resident_kib == match core_rss {
        Some(k) => k,
        None => 0,
    }
    &&& r.blocks == 0 && r.headers == 0 && r.connections == 0 && r.disk_bytes == 0
    &&& r.verification is None
    &&& r.ibd && !r.pruned && !r.network_active
    &&& mempool_unavailable(r.mempool)
}

/// `r` is the state of an answering node (its mempool aside), from its
/// `getblockchaininfo` reply, the cached network state and the resident
/// memory of its process.
pub open spec fn node_from(r: Node, chain: Seq<char>, network: NetworkCache, resident_kib: u64) -> bool {
    &&& r.rpc_ok && r.process_alive
    &&& r.resident_kib == resident_kib
    &&& r.blocks == u64_or_zero(chain, "blocks"@)
    &&& r.headers == u64_or_zero(chain, "headers"@)
    &&& text_view(r.verification) == json_number_text_of(chain, "verificationprogress"@)
    &&& r.ibd == match json_bool_of(chain, "initialblockdownload"@) {
        Some(b) => b,
        None => true,
    }
    &&& r.pruned == match json_bool_of(chain, "pruned"@) {
        Some(b) => b,
        None => false,
    }
    &&& r.connections == network.connections
    &&& r.network_active == network.active
    &&& r.disk_bytes == u64_or_zero(chain, "size_on_disk"@)
}

impl Node {
    /// The state of a node whose RPC interface does not answer; `core_rss`
    /// is the resident memory of its process, if one runs.
    pub fn unavailable(core_rss: Option<u64>) -> (r: Node)
        ensures
            node_unavailable(r, core_rss),
    {
        Node {
            rpc_ok: false,
            process_alive: core_rss.is_some(),
            resident_kib: core_rss.unwrap_or(0),
            blocks: 0,
            headers: 0,
            verification: None,
            ibd: true,
            pruned: false,
            connections: 0,
            network_active: false,
            disk_bytes: 0,
            mempool: Mempool::unavailable(),
        }
    }

    /// The state of an answering node, from its `getblockchaininfo` reply,
    /// its mempool statistics, the cached network state and the resident
    /// memory of its process.
    pub fn from_rpc(chain: &str, mempool: Mempool, network: &NetworkCache, resident_kib: u64) -> (r:
        Node)
        ensures
            node_from(r, chain@, *network, resident_kib),
            r.mempool == mempool,
    {
        Node {
            rpc_ok: true,
            process_alive: true,
            resident_kib,
            blocks: json_u64(chain, "blocks").unwrap_or(0),
            headers: json_u64(chain, "headers").unwrap_or(0),
            verification: own_text(json_f64_text(chain, "verificationprogress")),
            ibd: json_bool(chain, "initialblockdownload").unwrap_or(true),
            pruned: json_bool(chain, "pruned").unwrap_or(false),
            connections: network.connections,
            network_active: network.active,
            disk_bytes: json_u64(chain, "size_on_disk").unwrap_or(0),
            mempool,
        }
    }

    /// The state that a poll of the node yields, from the replies it got:
    /// with no `getblockchaininfo` reply (no cookie, or the query failed) the
    /// node is unavailable; with one, its state comes from that reply, with
    /// mempool statistics from the `getmempoolinfo` reply where there is one
    /// (unavailable ones where there is none). `core_rss` is the resident
    /// memory of the node's process, if one runs.
    pub fn from_poll(
        chain: Option<&str>,
        mempool: Option<&str>,
        network: &NetworkCache,
        core_rss: Option<u64>,
    ) -> (r: Node)
        ensures
            chain is None ==> node_unavailable(r, core_rss),
            chain matches Some(c) ==> {
                &&& node_from(
                    r,
                    c@,
                    *network,
                    match core_rss {
                        Some(k) => k,
                        None => 0,
                    },
                )
                &&& match mempool {
                    Some(m) => mempool_from(r.mempool, m@),
                    None => mempool_unavailable(r.mempool),
                }
            },
    {
        match chain {
            None => Node::unavailable(core_rss),
            Some(c) => {
                let stats = match mempool {
                    Some(m) => Mempool::from_rpc(m),
                    None => Mempool::unavailable(),
                };
                Node::from_rpc(c, stats, network, core_rss.unwrap_or(0))
            },
        }
    }

    /// A copy of this state.
    pub fn copy(&self) -> (r: Node)
        ensures
            r == *self,
    {
        Node {
            rpc_ok: self.rpc_ok,
            process_alive: self.process_alive,
            resident_kib: self.resident_kib,
            blocks: self.blocks,
            headers: self.headers,
            verification: copy_text(&self.verification),
            ibd: self.ibd,
            pruned: self.pruned,
            connections: self.connections,
            network_active: self.network_active,
            disk_bytes: self.disk_bytes,
            mempool: self.mempool.copy(),
        }
    }
}

/// The machine and the node at one instant.
pub struct Snapshot {
    pub machine: Machine,
    pub node: Node,
}

/// The node's network state, polled at most every `NETWORK_POLL_MS`.
pub struct NetworkCache {
    pub connections: u64,
    pub active: bool,
    /// When the next poll is due (milliseconds on the dashboard's clock).
    pub next_poll: u64,
}

impl NetworkCache {
    /// An empty cache whose first poll is due at `now`.
    pub fn new(now: u64) -> (r: NetworkCache)
        ensures
            r.connections == 0 && !r.active && r.next_poll == now,
    {
        NetworkCache { connections: 0, active: false, next_poll: now }
    }

    /// Whether a poll of the network state is due at `now`.
    pub open spec fn due_at(self, now: int) -> bool {
        now >= self.next_poll
    }

    /// The cache after the check at `now`: where a poll is due, the next one
    /// is scheduled `NETWORK_POLL_MS` later.
    pub open spec fn checked_at(self, now: int) -> NetworkCache {
        if self.due_at(now) {
            NetworkCache { next_poll: (now + NETWORK_POLL_MS) as u64, ..self }
        } else {
            self
        }
    }

    /// Whether a poll is due at `now`; when it is, the next one is scheduled
    /// `NETWORK_POLL_MS` later.
    pub fn refresh(&mut self, now: u64) -> (due: bool)
        requires
            now < old(self).next_poll || now <= u64::MAX - NETWORK_POLL_MS,
        ensures
            due == old(self).due_at(now as int),
            *final(self) == old(self).checked_at(now as int),
    {
        if now < self.next_poll {
            return false;
        }
        self.next_poll = now + NETWORK_POLL_MS;
        true
    }

    /// The cache after recording a `getnetworkinfo` reply.
    pub open spec fn updated_with(self, network: Seq<char>) -> NetworkCache {
        NetworkCache {
            connections: u64_or_zero(network, "connections"@),
            active: match json_bool_of(network, "networkactive"@) {
                Some(b) => b,
                None => false,
            },
            next_poll: self.next_poll,
        }
    }

    /// Records a `getnetworkinfo` reply.
    pub fn update(&mut self, network: &str)
        ensures
            *final(self) == old(self).updated_with(network@),
    {
        self.connections = json_u64(network, "connections").unwrap_or(0);
        self.active = json_bool(network, "networkactive").unwrap_or(false);
    }
}

/// The node's last polled state, polled at most every `CHAIN_POLL_MS`.
pub struct ChainCache {
    pub snapshot: Option<Node>,
    /// When the next poll is due (milliseconds on the dashboard's clock).
    pub next_poll: u64,
}

impl ChainCache {
    /// An empty cache whose first poll is due at `now`.
    pub fn new(now: u64) -> (r: ChainCache)
        ensures
            r.snapshot is None && r.next_poll == now,
    {
        ChainCache { snapshot: None, next_poll: now }
    }

    /// Whether a poll of the chain state is due at `now`.
    pub open spec fn due_at(self, now: int) -> bool {
        now >= self.next_poll
    }

    /// The cache after the check at `now`: where a poll is due, the next one
    /// is scheduled `CHAIN_POLL_MS` later.
    pub open spec fn checked_at(self, now: int) -> ChainCache {
        if self.due_at(now) {
            ChainCache { next_poll: (now + CHAIN_POLL_MS) as u64, ..self }
        } else {
            self
        }
    }

    /// Whether a poll is due at `now`; when it is, the next one is scheduled
    /// `CHAIN_POLL_MS` later.
    pub fn poll_due(&mut self, now: u64) -> (due: bool)
        requires
            now < old(self).next_poll || now <= u64::MAX - CHAIN_POLL_MS,
        ensures
            due == old(self).due_at(now as int),
            *final(self) == old(self).checked_at(now as int),
    {
        if now >= self.next_poll {
            self.next_poll = now + CHAIN_POLL_MS;
            true
        } else {
            false
        }
    }

    /// Keeps the state of a fresh poll.
    pub fn store(&mut self, node: Node)
        ensures
            final(self).snapshot == Some(node),
            final(self).next_poll == old(self).next_poll,
    {
        self.snapshot = Some(node);
    }

    /// The node's state to show: the last polled one (or an unavailable
    /// one), with the process state of `core_rss`, the resident memory of the
    /// node's process if one runs; without a process the RPC is not ready.
    pub fn collect(&self, core_rss: Option<u64>) -> (r: Node)
        ensures
            ({
                let base = match self.snapshot {
                    Some(n) => n,
                    None => Node::unavailable_spec(),
                };
                &&& r.process_alive == core_rss is Some
                &&& r.resident_kib == match core_rss {
                    Some(k) => k,
                    None => 0,
                }
                &&& r.rpc_ok == (base.rpc_ok && core_rss is Some)
                &&& r.blocks == base.blocks && r.headers == base.headers
                &&& r.verification == base.verification
                &&& r.ibd == base.ibd && r.pruned == base.pruned
                &&& r.connections == base.connections && r.network_active == base.network_active
                &&& r.disk_bytes == base.disk_bytes
                &&& r.mempool == base.mempool
            }),
    {
        let mut node = match &self.snapshot {
            Some(n) => n.copy(),
            None => Node::unavailable(core_rss),
        };
        node.process_alive = core_rss.is_some();
        node.resident_kib = core_rss.unwrap_or(0);
        if !node.process_alive {
            node.rpc_ok = false;
        }
        node
    }
}

impl Node {
    /// The fields of `Node::unavailable` that do not depend on the process.
    pub open spec fn unavailable_spec() -> Node {
        Node {
            rpc_ok: false,
            process_alive: false,
            resident_kib: 0,
            blocks: 0,
            headers: 0,
            verification: None,
            ibd: true,
            pruned: false,
            connections: 0,
            network_active: false,
            disk_bytes: 0,
            mempool: Mempool {
                available: false,
                entries: 0,
                bytes: 0,
                usage: 0,
                limit: 0,
                min_fee: None,
                unbroadcast: 0,
            },
        }
    }
}

// ---------------------------------------------------------------------------
// One poll of the node
// ---------------------------------------------------------------------------
/// A query that a poll sends to the node. All three only read the node's
/// state: the dashboard never changes the node or submits a transaction.
#[derive(Clone, Copy, PartialEq, Eq, Structural)]
pub enum NodeQuery {
    BlockchainInfo,
    MempoolInfo,
    NetworkInfo,
}

impl NodeQuery {
    /// The JSON-RPC method of the query.
    pub open spec fn method_of(self) -> Seq<char> {
        match self {
            NodeQuery::BlockchainInfo => "getblockchaininfo"@,
            NodeQuery::MempoolInfo => "getmempoolinfo"@,
            NodeQuery::NetworkInfo => "getnetworkinfo"@,
        }
    }

    /// The JSON-RPC method of the query.
    pub fn method(&self) -> (r: &'static str)
        ensures
            r@ == self.method_of(),
    {
        match self {
            NodeQuery::BlockchainInfo => "getblockchaininfo",
            NodeQuery::MempoolInfo => "getmempoolinfo",
            NodeQuery::NetworkInfo => "getnetworkinfo",
        }
    }
}

/// `n` is the state that a poll yields from a `getblockchaininfo` reply, the
/// `getmempoolinfo` reply if there is one, the network state and the
/// resident memory of the node's process.
pub open spec fn polled_node(
    n: Node,
    chain: Seq<char>,
    mempool: Option<Seq<char>>,
    network: NetworkCache,
    core_rss: Option<u64>,
) -> bool {
    &&& node_from(
        n,
        chain,
        network,
        match core_rss {
            Some(k) => k,
            None => 0,
        },
    )
    &&& match mempool {
        Some(m) => mempool_from(n.mempool, m),
        None => mempool_unavailable(n.mempool),
    }
}

/// Where a poll of the node stands: which reply it waits for, and what it
/// has gathered so far.
pub enum NodePoll {
    /// Waiting for the `getblockchaininfo` reply.
    Chain { rpc: Rpc },
    /// Waiting for the `getmempoolinfo` reply.
    Mempool { rpc: Rpc, chain: String },
    /// Waiting for the `getnetworkinfo` reply.
    Network { rpc: Rpc, chain: String, mempool: Option<String> },
}

/// What a poll does next.
pub enum PollStep {
    /// Send `request`, the HTTP text of `query`, and hand the reply's body
    /// (if any) to `next`.
    Query { next: NodePoll, query: NodeQuery, request: String },
    /// The poll is over and yields this state.
    Done(Node),
}

/// `r` asks `query` of the node with the cookie of `rpc`, and then goes on
/// from `next`.
pub open spec fn asks(r: PollStep, next: NodePoll, query: NodeQuery, rpc: Rpc) -> bool {
    r matches PollStep::Query { next: n, query: q, request } && n == next && q == query
        && request@ == rpc_request_of(rpc.cookie@, query.method_of())
}

impl NodePoll {
    /// Starts a poll from the node's cookie file, if it could be read: without
    /// one the node is unavailable (`core_rss` is the resident memory of its
    /// process, if one runs); with one, the chain state is asked for first.
    pub fn start(cookie_file: Option<&str>, core_rss: Option<u64>) -> (r: PollStep)
        ensures
            cookie_file is None ==> (r matches PollStep::Done(n) && node_unavailable(n, core_rss)),
            cookie_file matches Some(t) ==> (r matches PollStep::Query {
                next: NodePoll::Chain { rpc },
                query,
                request,
            } && rpc.cookie@ == trim(t@) && query == NodeQuery::BlockchainInfo && request@
                == rpc_request_of(trim(t@), query.method_of())),
    {
        match cookie_file {
            None => PollStep::Done(Node::unavailable(core_rss)),
            Some(t) => {
                let rpc = Rpc::new(cookie_from_file(t));
                let query = NodeQuery::BlockchainInfo;
                let request = rpc.request(query.method());
                PollStep::Query { next: NodePoll::Chain { rpc }, query, request }
            },
        }
    }

    /// Takes the body of the reply to the last query (`None` where the query
    /// failed) and tells what comes next. Without a chain reply the node is
    /// unavailable. After the mempool reply the network state is asked for
    /// when the cache finds it due at `now`; the poll ends with the node's
    /// state from the replies and the network state. `core_rss` is the
    /// resident memory of the node's process, if one runs.
    pub fn step(
        self,
        reply: Option<&str>,
        network: &mut NetworkCache,
        now: u64,
        core_rss: Option<u64>,
    ) -> (r: PollStep)
        requires
            now < old(network).next_poll || now <= u64::MAX - NETWORK_POLL_MS,
        ensures
            match self {
                NodePoll::Chain { rpc } => {
                    &&& *final(network) == *old(network)
                    &&& match reply {
                        None => r matches PollStep::Done(n) && node_unavailable(n, core_rss),
                        Some(c) => r matches PollStep::Query {
                            next: NodePoll::Mempool { rpc: rpc2, chain },
                            ..
                        } && rpc2 == rpc && chain@ == c@ && asks(
                            r,
                            NodePoll::Mempool { rpc: rpc2, chain },
                            NodeQuery::MempoolInfo,
                            rpc,
                        ),
                    }
                },
                NodePoll::Mempool { rpc, chain } => {
                    &&& *final(network) == old(network).checked_at(now as int)
                    &&& if old(network).due_at(now as int) {
                        r matches PollStep::Query {
                            next: NodePoll::Network { rpc: rpc2, chain: chain2, mempool },
                            ..
                        } && rpc2 == rpc && chain2 == chain && text_view(mempool) == str_view(
                            reply,
                        ) && asks(
                            r,
                            NodePoll::Network { rpc: rpc2, chain: chain2, mempool },
                            NodeQuery::NetworkInfo,
                            rpc,
                        )
                    } else {
                        r matches PollStep::Done(n) && polled_node(
                            n,
                            chain@,
                            str_view(reply),
                            *final(network),
                            core_rss,
                        )
                    }
                },
                NodePoll::Network { rpc, chain, mempool } => {
                    &&& *final(network) == match reply {
                        Some(b) => old(network).updated_with(b@),
                        None => *old(network),
                    }
                    &&& r matches PollStep::Done(n) && polled_node(
                        n,
                        chain@,
                        text_view(mempool),
                        *final(network),
                        core_rss,
                    )
                },
            },
    {
        match self {
            NodePoll::Chain { rpc } => match reply {
                None => PollStep::Done(Node::unavailable(core_rss)),
                Some(c) => {
                    let query = NodeQuery::MempoolInfo;
                    let request = rpc.request(query.method());
                    let chain = string_of(&chars_of(c));
                    PollStep::Query { next: NodePoll::Mempool { rpc, chain }, query, request }
                },
            },
            NodePoll::Mempool { rpc, chain } => {
                if network.refresh(now) {
                    let query = NodeQuery::NetworkInfo;
                    let request = rpc.request(query.method());
                    let mempool = own_text(reply);
                    PollStep::Query { next: NodePoll::Network { rpc, chain, mempool }, query, request }
                } else {
                    PollStep::Done(Node::from_poll(Some(chain.as_str()), reply, network, core_rss))
                }
            },
            NodePoll::Network { rpc, chain, mempool } => {
                match reply {
                    Some(b) => network.update(b),
                    None => {},
                }
                let stats = match &mempool {
                    Some(m) => Some(m.as_str()),
                    None => None,
                };
                PollStep::Done(Node::from_poll(Some(chain.as_str()), stats, network, core_rss))
            },
        }
    }
}

/// The network state is polled at most once every `NETWORK_POLL_MS`: after a
/// check at `t` that found a poll due, none is due before
/// `t + NETWORK_POLL_MS`, and one is due from then on.
pub proof fn lemma_network_poll_spacing(cache: NetworkCache, t: int, later: int)
    requires
        cache.due_at(t),
        t <= later,
        0 <= t <= u64::MAX - NETWORK_POLL_MS,
    ensures
        cache.checked_at(t).due_at(later) <==> later >= t + NETWORK_POLL_MS,
{
}

/// The chain state is polled at most once every `CHAIN_POLL_MS`: after a
/// check at `t` that found a poll due, none is due before `t + CHAIN_POLL_MS`,
/// and one is due from then on.
pub proof fn lemma_chain_poll_spacing(cache: ChainCache, t: int, later: int)
    requires
        cache.due_at(t),
        t <= later,
        0 <= t <= u64::MAX - CHAIN_POLL_MS,
    ensures
        cache.checked_at(t).due_at(later) <==> later >= t + CHAIN_POLL_MS,
{
}

} // verus!
