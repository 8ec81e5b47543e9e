//! Composition of the resolver stages, and the bounded admission queue in
//! front of them.

use vstd::prelude::*;

use crate::net::{IpAddress, SocketAddress};
use crate::resolver::constant;
use crate::resolver::dns;
use crate::resolver::dns::SrvRecord;
use crate::resolver::fallback::Fallback;
use crate::resolver::filter;
use crate::resolver::rewrite;

verus! {

/// How many pipeline calls may be in flight at once. A caller beyond this
/// bound waits for a slot; it is never rejected.
pub const ADMISSION_CAPACITY: usize = 1024;

/// The admission queue guarding the pipeline: a bounded count of in-flight
/// calls.
pub struct Admission {
    in_flight: usize,
}

impl Admission {
    /// How many calls hold a slot right now.
    pub closed spec fn in_flight_spec(&self) -> int {
        self.in_flight as int
    }

    /// The bound every state of the queue respects.
    pub open spec fn wf(&self) -> bool {
        self.in_flight_spec() <= ADMISSION_CAPACITY
    }

    /// An empty queue.
    pub fn new() -> (r: Admission)
        ensures
            r.in_flight_spec() == 0,
            r.wf(),
    {
        Admission { in_flight: 0 }
    }

    /// Takes a slot when one is free; a caller refused here holds no slot
    /// and must ask again — it is suspended, never dropped.
    pub fn try_acquire(&mut self) -> (r: bool)
        requires
            old(self).wf(),
        ensures
            final(self).wf(),
            r == (old(self).in_flight_spec() < ADMISSION_CAPACITY),
            r ==> final(self).in_flight_spec() == old(self).in_flight_spec() + 1,
            !r ==> final(self).in_flight_spec() == old(self).in_flight_spec(),
    {
        if self.in_flight < ADMISSION_CAPACITY {
            self.in_flight += 1;
            true
        } else {
            false
        }
    }

    /// Gives a slot back.
    pub fn release(&mut self)
        requires
            old(self).in_flight_spec() > 0,
        ensures
            final(self).in_flight_spec() == old(self).in_flight_spec() - 1,
            old(self).wf() ==> final(self).wf(),
    {
        self.in_flight -= 1;
    }
}

/// Admission bound: however the queue has been driven, at most
/// `ADMISSION_CAPACITY` calls are in flight at once.
pub proof fn lemma_admission_bound(a: &Admission)
    requires
        a.wf(),
    ensures
        a.in_flight_spec() <= 1024,
{
}

/// A request travelling the pipeline, between suspension points.
#[derive(Debug, PartialEq, Eq)]
pub enum Step {
    /// A destination: dial it.
    Resolved(SocketAddress),
    /// The filter refused this name and no fallback absorbs that: drop the
    /// connection.
    Rejected(Vec<u8>),
    /// No stage resolved the request and no fallback holds a default:
    /// drop the connection.
    Unresolved,
    /// Race an SRV query for `name` on the SRV-eligible clients, then hand
    /// the winning answer back.
    SrvQuery { name: Vec<u8>, port: u16 },
    /// Race an address query for `name` on the clients, then hand the
    /// winning answer back.
    IpQuery { name: Vec<u8>, port: u16 },
}

/// The composed resolver: the configured stages in their fixed order —
/// fallback outermost, then filter, constant, rewrite, and DNS above the
/// void leaf.
///
/// DNS queries suspend the walk: they come back to the caller as `Step`
/// values, and the answers are handed in through `on_srv_answer` and
/// `on_ip_answer`. Every function here promises what holds of its answer
/// whatever the DNS answers were.
pub struct Pipeline {
    pub fallback: Option<Fallback>,
    pub filter: Option<filter::Check>,
    pub constant: Option<constant::Layer>,
    pub rewrite: Option<rewrite::Layer>,
    pub dns: Option<dns::Layer>,
}

impl Pipeline {
    /// Whether the filter lets `name` through (no filter lets all pass).
    pub open spec fn passes(&self, name: Seq<u8>) -> bool {
        match self.filter {
            Some(check) => check.allows(name),
            None => true,
        }
    }

    /// The port the request carries once the constant stage has spoken.
    pub open spec fn eff_port(&self, name: Seq<u8>, port: u16) -> u16 {
        match self.constant {
            Some(layer) => constant::effective_port(layer.rules_spec(), name, port),
            None => port,
        }
    }

    /// The addresses the constant stage binds to `name`.
    pub open spec fn override_ips(&self, name: Seq<u8>) -> Seq<IpAddress> {
        match self.constant {
            Some(layer) => constant::ip_lookup(layer.rules_spec(), name),
            None => Seq::empty(),
        }
    }

    /// The name DNS sees: the rewrite stage's work.
    pub open spec fn renamed(&self, name: Seq<u8>) -> Seq<u8> {
        match self.rewrite {
            Some(layer) => rewrite::rewritten(layer.rules_spec(), name),
            None => name,
        }
    }

    /// Whether the DNS stage starts with an SRV race for this (rewritten)
    /// name.
    pub open spec fn wants_srv(&self, renamed: Seq<u8>) -> bool {
        match self.dns {
            Some(layer) => dns::any_srv_eligible(layer.resolvers_spec(), renamed),
            None => false,
        }
    }

    /// What the pipeline's rim makes of an inner answer: the fallback
    /// absorbs an empty one, if a fallback is configured.
    pub open spec fn absorbed(&self, inner: Option<SocketAddress>) -> Option<SocketAddress> {
        match self.fallback {
            Some(f) => f.absorb_spec(inner),
            None => inner,
        }
    }

    /// The step an inner answer ends the walk with.
    pub open spec fn done_step(&self, inner: Option<SocketAddress>) -> Step {
        match self.absorbed(inner) {
            Some(d) => Step::Resolved(d),
            None => Step::Unresolved,
        }
    }

    /// Ends the walk on an inner answer, letting the fallback absorb an
    /// empty one.
    fn finish(&self, inner: Option<SocketAddress>) -> (r: Step)
        ensures
            r == self.done_step(inner),
    {
        let absorbed = match &self.fallback {
            Some(f) => f.absorb(inner),
            None => inner,
        };
        match absorbed {
            Some(d) => Step::Resolved(d),
            None => Step::Unresolved,
        }
    }

    /// Walks the stages for `(name, port)` until the first suspension
    /// point: a destination, a refusal, or the DNS query to run next.
    ///
    /// The filter speaks first, and its refusal aborts the walk — absorbed
    /// into the default address when a fallback is configured. The constant
    /// stage then fixes the port and may short-circuit to a configured
    /// address, in which case no DNS query is ever issued. Otherwise the
    /// rewrite stage patches the name and the DNS stage, when configured,
    /// asks for the matching query.
    pub fn begin(&self, name: Vec<u8>, port: u16) -> (r: Step)
        ensures
            !self.passes(name@) && self.fallback is None ==> (r matches Step::Rejected(n) && n@
                == name@),
            !self.passes(name@) && self.fallback is Some ==> r == self.done_step(None),
            self.passes(name@) && self.override_ips(name@).len() > 0 && self.eff_port(name@, port)
                != 0 ==> (r matches Step::Resolved(d) && self.override_ips(name@).contains(d.ip)
                && d.port == self.eff_port(name@, port)),
            self.passes(name@) && !(self.override_ips(name@).len() > 0 && self.eff_port(
                name@,
                port,
            ) != 0) && self.dns is Some ==> {
                let goal = self.renamed(name@);
                let p = self.eff_port(name@, port);
                if self.wants_srv(goal) {
                    r matches Step::SrvQuery { name: n, port: q } && n@ == goal && q == p
                } else {
                    r matches Step::IpQuery { name: n, port: q } && n@ == goal && q == p
                }
            },
            self.passes(name@) && !(self.override_ips(name@).len() > 0 && self.eff_port(
                name@,
                port,
            ) != 0) && self.dns is None ==> r == self.done_step(None),
            (self.fallback matches Some(f) && f.default_spec().port != 0) ==> !(r is Rejected)
                && !(r is Unresolved),
    {
        let (name, port) = match &self.filter {
            Some(check) => {
                match check.check(name, port) {
                    Ok(pair) => pair,
                    Err(filter::Error::NotSupported(n)) => {
                        if self.fallback.is_some() {
                            return self.finish(None);
                        } else {
                            return Step::Rejected(n);
                        }
                    },
                }
            },
            None => (name, port),
        };
        let port = match &self.constant {
            Some(layer) => {
                match layer.step(name.as_slice(), port) {
                    constant::Step::Resolved(d) => {
                        return Step::Resolved(d);
                    },
                    constant::Step::Continue(p) => p,
                }
            },
            None => port,
        };
        let name = match &self.rewrite {
            Some(layer) => layer.apply_all(name.as_slice()),
            None => name,
        };
        match &self.dns {
            Some(layer) => {
                if layer.wants_srv(name.as_slice()) {
                    Step::SrvQuery { name, port }
                } else {
                    Step::IpQuery { name, port }
                }
            },
            None => self.finish(None),
        }
    }

    /// Takes the SRV race's answer: the winning client's records, or
    /// nothing when every client came back empty or failed. A record is
    /// chosen at random and followed up with an address query for its
    /// target at its port; an empty race falls back to an address query
    /// for the original name and port.
    pub fn on_srv_answer(&self, name: Vec<u8>, port: u16, records: Option<Vec<SrvRecord>>) -> (r:
        Step)
        ensures
            records matches Some(recs) ==> (if recs@.len() > 0 {
                r matches Step::IpQuery { name: n, port: q } && exists|i: int|
                    0 <= i < recs@.len() && (#[trigger] recs@[i]).target@ == n@ && recs@[i].port
                        == q
            } else {
                r matches Step::IpQuery { name: n, port: q } && n@ == name@ && q == port
            }),
            records is None ==> (r matches Step::IpQuery { name: n, port: q } && n@ == name@ && q
                == port),
    {
        match records {
            Some(recs) => {
                match dns::pick_srv(&recs) {
                    Some(ix) => {
                        let rec = &recs[ix];
                        Step::IpQuery { name: crate::text::to_vec_copy(rec.target.as_slice()), port: rec.port }
                    },
                    None => Step::IpQuery { name, port },
                }
            },
            None => Step::IpQuery { name, port },
        }
    }

    /// Takes the address race's answer: the winning client's addresses, or
    /// nothing when every client came back empty or failed. One address is
    /// chosen at random; an empty answer ends the walk, letting the
    /// fallback absorb it.
    pub fn on_ip_answer(&self, ips: Option<Vec<IpAddress>>, port: u16) -> (r: Step)
        ensures
            ips matches Some(v) ==> (if v@.len() > 0 && port != 0 {
                r matches Step::Resolved(d) && v@.contains(d.ip) && d.port == port
            } else {
                r == self.done_step(None)
            }),
            ips is None ==> r == self.done_step(None),
            (self.fallback matches Some(f) && f.default_spec().port != 0) ==> !(r is Rejected)
                && !(r is Unresolved),
    {
        let picked = match ips {
            Some(v) => dns::pick_ip(&v, port),
            None => None,
        };
        match picked {
            Some(d) => Step::Resolved(d),
            None => self.finish(None),
        }
    }
}

/// The DNS stage sees the rewritten name: on a pipeline with no filter
/// and no constant stage, the walk hands DNS exactly the replacement the
/// first matching rewrite rule makes of the requested name, at the
/// request's own port — never the name as it was requested.
pub proof fn lemma_dns_sees_rewritten_name(p: &Pipeline, name: Seq<u8>, port: u16, i: int)
    requires
        p.filter is None,
        p.constant is None,
        p.rewrite matches Some(l) && {
            &&& 0 <= i < l.rules_spec().len()
            &&& rewrite::rule_applied(l.rules_spec()[i], name) is Some
            &&& forall|j: int|
                0 <= j < i ==> rewrite::rule_applied(#[trigger] l.rules_spec()[j], name) is None
        },
    ensures
        p.passes(name),
        p.override_ips(name).len() == 0,
        p.eff_port(name, port) == port,
        p.renamed(name) == rewrite::rule_applied(
            (p.rewrite->Some_0).rules_spec()[i],
            name,
        )->Some_0,
{
    let l = p.rewrite->Some_0;
    rewrite::lemma_rewrite_first_match_wins(l.rules_spec(), name, i);
}

/// Filter absorption by fallback: when a fallback stage is configured
/// (with a sound default port), no walk ends rejected or unresolved —
/// whatever the stages inside answered, the outcome is a destination.
pub proof fn lemma_filter_absorbed_by_fallback(p: &Pipeline, inner: Option<SocketAddress>)
    requires
        p.fallback matches Some(f) && f.default_spec().port != 0,
    ensures
        p.done_step(inner) is Resolved,
{
}

} // verus!
