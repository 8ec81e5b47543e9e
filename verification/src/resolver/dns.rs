//! The DNS stage, as data and decisions.
//!
//! Queries themselves are network work and live with the caller: the stage
//! here says which clients should be asked for SRV records, and picks the
//! answer a query's records resolve to. Every choice among several records
//! is uniformly random and per call; only membership is promised.

use vstd::prelude::*;

use crate::net::{IpAddress, SocketAddress};
use crate::text::{has_suffix_in, matches_suffix};

verus! {

/// How a client weighs the two address families.
#[derive(Debug, Clone, Copy, PartialEq, Eq, Structural)]
pub enum Strategy {
    Ipv4Only,
    Ipv6Only,
    Ipv4AndIpv6,
    Ipv4ThenIpv6,
    Ipv6ThenIpv4,
}

impl Default for Strategy {
    /// Prefers v6 answers, to avoid recursion when an A record points back
    /// at the host running the forwarder.
    fn default() -> (r: Strategy)
        ensures
            r == Strategy::Ipv6Only,
    {
        Strategy::Ipv6Only
    }
}

/// One DNS client from configuration: the upstream server, the family
/// strategy, and the name suffixes that should be resolved via SRV.
#[derive(Debug, Clone)]
pub struct Config {
    pub address: SocketAddress,
    pub strategy: Strategy,
    pub srv: Vec<Vec<u8>>,
}

impl Config {
    /// Whether `record` should be resolved via SRV by this client.
    pub open spec fn srv_eligible(&self, record: Seq<u8>) -> bool {
        has_suffix_in(self.srv.deep_view(), record)
    }

    /// Whether `record` should be resolved via SRV by this client.
    pub fn should_lookup_srv(&self, record: &[u8]) -> (r: bool)
        ensures
            r == self.srv_eligible(record@),
    {
        matches_suffix(&self.srv, record)
    }
}

/// One SRV answer record: a target host and the port it serves.
#[derive(Debug, Clone, PartialEq, Eq)]
pub struct SrvRecord {
    pub target: Vec<u8>,
    pub port: u16,
}

/// The DNS stage: the configured clients, in order.
pub struct Layer {
    resolvers: Vec<Config>,
}

/// Whether any of `clients` wants an SRV lookup for `record`.
pub open spec fn any_srv_eligible(clients: Seq<Config>, record: Seq<u8>) -> bool {
    exists|i: int| 0 <= i < clients.len() && (#[trigger] clients[i]).srv_eligible(record)
}

impl Layer {
    /// The clients this stage races.
    pub closed spec fn resolvers_spec(&self) -> Seq<Config> {
        self.resolvers@
    }

    /// Keeps the configured clients in order.
    pub fn new(configs: Vec<Config>) -> (r: Layer)
        ensures
            r.resolvers_spec() == configs@,
    {
        Layer { resolvers: configs }
    }

    /// The configured clients, for the caller that runs the queries.
    pub fn clients(&self) -> (r: &Vec<Config>)
        ensures
            r@ == self.resolvers_spec(),
    {
        &self.resolvers
    }

    /// Whether any client wants an SRV lookup for `record`.
    pub fn wants_srv(&self, record: &[u8]) -> (r: bool)
        ensures
            r == any_srv_eligible(self.resolvers_spec(), record@),
    {
        let n = self.resolvers.len();
        for i in 0..n
            invariant
                n == self.resolvers@.len(),
                forall|k: int|
                    0 <= k < i ==> !(#[trigger] self.resolvers@[k]).srv_eligible(record@),
        {
            if self.resolvers[i].should_lookup_srv(record) {
                return true;
            }
        }
        false
    }
}

/// Picks the destination an address answer resolves to: one of the
/// answered addresses, chosen uniformly at random, carried on `port` — or
/// nothing, when the answer is empty or the port would be zero.
pub fn pick_ip(ips: &Vec<IpAddress>, port: u16) -> (r: Option<SocketAddress>)
    ensures
        r is Some <==> ips@.len() > 0 && port != 0,
        r matches Some(d) ==> ips@.contains(d.ip) && d.port == port,
{
    if ips.len() > 0 && port != 0 {
        let ix = crate::resolver::random_below(ips.len());
        Some(SocketAddress { ip: ips[ix], port })
    } else {
        None
    }
}

/// Picks which SRV record to follow: any of them, uniformly at random.
pub fn pick_srv(records: &Vec<SrvRecord>) -> (r: Option<usize>)
    ensures
        r is Some <==> records@.len() > 0,
        r matches Some(i) ==> i < records@.len(),
{
    if records.len() > 0 {
        Some(crate::resolver::random_below(records.len()))
    } else {
        None
    }
}

} // verus!
