//! The validated configuration surface.
//!
//! Reading a configuration file from disk and decoding its syntax belong to
//! the program around this crate; what arrives here are plain rule values.
//! Validation turns them into the listener list and the resolver pipeline:
//! an empty rule list is refused, a missing listener list falls back to one
//! default listener, and rewrite patterns must compile.

use vstd::prelude::*;

use crate::net::{ip_v4_value, IpAddress, SocketAddress};
use crate::resolver::constant;
use crate::resolver::constant::PortBinding;
use crate::resolver::dns;
use crate::resolver::fallback::Fallback;
use crate::resolver::filter;
use crate::resolver::pipeline::Pipeline;
use crate::resolver::rewrite;
use crate::text::bytes_eq;
use vstd::string::StringSliceAdditionalSpecFns;

verus! {

/// Why a configuration is refused.
#[derive(Debug, PartialEq, Eq, Structural)]
pub enum Error {
    /// The rule list is empty.
    NoRules,
    /// A rewrite rule's pattern is not a regular expression.
    InvalidRegex,
    /// A parser kind is spelled in an unknown way.
    InvalidParserKind,
}

/// The application-protocol parsers a listener can run.
#[derive(Debug, Clone, Copy, PartialEq, Eq, Structural)]
pub enum Kind {
    H1,
    Tls,
}

/// The kind a written spelling names: `h1` and `http/1` name the HTTP/1
/// parser, `tls` the TLS parser.
pub open spec fn kind_of_str(s: Seq<u8>) -> Option<Kind> {
    if s == seq![104u8, 49u8] || s == seq![104u8, 116u8, 116u8, 112u8, 47u8, 49u8] {
        Some(Kind::H1)
    } else if s == seq![116u8, 108u8, 115u8] {
        Some(Kind::Tls)
    } else {
        None
    }
}

impl Kind {
    /// Reads a parser kind from its written spelling.
    pub fn from_str(s: &str) -> (r: Result<Kind, Error>)
        ensures
            match kind_of_str(s.spec_bytes()) {
                Some(k) => r == Ok::<Kind, Error>(k),
                None => r == Err::<Kind, Error>(Error::InvalidParserKind),
            },
    {
        let b = s.as_bytes();
        let h1: [u8; 2] = [104u8, 49u8];
        let http1: [u8; 6] = [104u8, 116u8, 116u8, 112u8, 47u8, 49u8];
        let tls: [u8; 3] = [116u8, 108u8, 115u8];
        proof {
            assert(h1@ =~= seq![104u8, 49u8]);
            assert(http1@ =~= seq![104u8, 116u8, 116u8, 112u8, 47u8, 49u8]);
            assert(tls@ =~= seq![116u8, 108u8, 115u8]);
        }
        if bytes_eq(b, h1.as_slice()) || bytes_eq(b, http1.as_slice()) {
            Ok(Kind::H1)
        } else if bytes_eq(b, tls.as_slice()) {
            Ok(Kind::Tls)
        } else {
            Err(Error::InvalidParserKind)
        }
    }
}

/// The parser kinds a listener runs when it does not name any.
pub open spec fn default_parser_kinds() -> Seq<Kind> {
    seq![Kind::H1, Kind::Tls]
}

/// The parser kinds a listener runs when it does not name any.
pub fn default_parsers() -> (r: Vec<Kind>)
    ensures
        r@ == default_parser_kinds(),
{
    let mut v: Vec<Kind> = Vec::new();
    v.push(Kind::H1);
    v.push(Kind::Tls);
    proof {
        assert(v@ =~= default_parser_kinds());
    }
    v
}

/// The address a listener binds when the configuration names none.
pub open spec fn default_listener_address() -> SocketAddress {
    SocketAddress { ip: IpAddress::V4(ip_v4_value(127, 0, 0, 1)), port: 8314 }
}

/// One listener: a bind address and the parsers raced on its connections.
#[derive(Debug)]
pub struct Listener {
    pub address: SocketAddress,
    pub parsers: Vec<Kind>,
}

impl Listener {
    /// The parsers this listener runs.
    pub fn parsers(&self) -> (r: &[Kind])
        ensures
            r@ == self.parsers@,
    {
        self.parsers.as_slice()
    }
}

impl Default for Listener {
    /// One listener on the loopback default address, running every parser.
    fn default() -> (r: Self)
        ensures
            r.address == default_listener_address(),
            r.parsers@ == default_parser_kinds(),
    {
        Listener { address: SocketAddress::v4(127, 0, 0, 1, 8314), parsers: default_parsers() }
    }
}

/// One configured rule, in file order.
#[derive(Debug)]
pub enum Rule {
    /// A constant port or address override.
    Constant(constant::Config),
    /// A DNS client.
    Dns(dns::Config),
    /// The default destination for what nothing else resolves.
    Fallback(SocketAddress),
    /// Allowed name suffixes.
    Filter(filter::Config),
    /// A name rewrite.
    Rewrite(rewrite::Config),
}

/// The constant rules, in order.
pub open spec fn constant_rules(rules: Seq<Rule>) -> Seq<constant::Config>
    decreases rules.len(),
{
    if rules.len() == 0 {
        Seq::empty()
    } else {
        let head: Seq<constant::Config> = match rules.first() {
            Rule::Constant(c) => seq![c],
            _ => Seq::empty(),
        };
        head + constant_rules(rules.drop_first())
    }
}

/// The DNS rules, in order.
pub open spec fn dns_rules(rules: Seq<Rule>) -> Seq<dns::Config>
    decreases rules.len(),
{
    if rules.len() == 0 {
        Seq::empty()
    } else {
        let head: Seq<dns::Config> = match rules.first() {
            Rule::Dns(c) => seq![c],
            _ => Seq::empty(),
        };
        head + dns_rules(rules.drop_first())
    }
}

/// The filter rules, in order.
pub open spec fn filter_rules(rules: Seq<Rule>) -> Seq<filter::Config>
    decreases rules.len(),
{
    if rules.len() == 0 {
        Seq::empty()
    } else {
        let head: Seq<filter::Config> = match rules.first() {
            Rule::Filter(c) => seq![c],
            _ => Seq::empty(),
        };
        head + filter_rules(rules.drop_first())
    }
}

/// The rewrite rules, in order.
pub open spec fn rewrite_rules(rules: Seq<Rule>) -> Seq<rewrite::Config>
    decreases rules.len(),
{
    if rules.len() == 0 {
        Seq::empty()
    } else {
        let head: Seq<rewrite::Config> = match rules.first() {
            Rule::Rewrite(c) => seq![c],
            _ => Seq::empty(),
        };
        head + rewrite_rules(rules.drop_first())
    }
}

/// The first fallback rule's address — one fallback is good enough.
pub open spec fn first_fallback(rules: Seq<Rule>) -> Option<SocketAddress>
    decreases rules.len(),
{
    if rules.len() == 0 {
        None
    } else {
        match rules.first() {
            Rule::Fallback(a) => Some(a),
            _ => first_fallback(rules.drop_first()),
        }
    }
}

/// A configuration as it arrives from the file, already decoded to plain
/// values but not yet validated.
pub struct ConfigFile {
    pub listen: Vec<Listener>,
    pub rules: Vec<Rule>,
}

/// A validated configuration: the listeners, and the resolver pipeline the
/// rules compose.
pub struct Config {
    pub listen: Vec<Listener>,
    pub pipeline: Pipeline,
}

impl ConfigFile {
    /// Validates a configuration: refuses an empty rule list and any
    /// rewrite pattern that does not compile, supplies the default
    /// listener when none is configured, and assembles the pipeline in its
    /// fixed stage order.
    pub fn validate(self) -> (r: Result<Config, Error>)
        ensures
            self.rules@.len() == 0 ==> r == Err::<Config, Error>(Error::NoRules),
            self.rules@.len() > 0 && (exists|i: int|
                0 <= i < rewrite_rules(self.rules@).len() && !rewrite::regex_valid(
                    #[trigger] rewrite_rules(self.rules@)[i].matcher@,
                )) ==> r == Err::<Config, Error>(Error::InvalidRegex),
            r is Err <==> (self.rules@.len() == 0 || (exists|i: int|
                0 <= i < rewrite_rules(self.rules@).len() && !rewrite::regex_valid(
                    #[trigger] rewrite_rules(self.rules@)[i].matcher@,
                ))),
            r matches Ok(c) ==> {
                &&& self.rules@.len() > 0
                &&& (self.listen@.len() == 0 ==> c.listen@.len() == 1 && c.listen@[0].address
                    == default_listener_address() && c.listen@[0].parsers@
                    == default_parser_kinds())
                &&& (self.listen@.len() > 0 ==> c.listen@ == self.listen@)
                &&& (filter_rules(self.rules@).len() == 0 ==> c.pipeline.filter is None)
                &&& (filter_rules(self.rules@).len() > 0 ==> (c.pipeline.filter matches Some(ch)
                    && ch.allowed_spec() == filter::pooled_names(filter_rules(self.rules@))))
                &&& (constant_rules(self.rules@).len() == 0 ==> c.pipeline.constant is None)
                &&& (constant_rules(self.rules@).len() > 0 ==> (c.pipeline.constant matches Some(
                    l,
                ) && l.rules_spec() == constant_rules(self.rules@)))
                &&& (rewrite_rules(self.rules@).len() == 0 ==> c.pipeline.rewrite is None)
                &&& (rewrite_rules(self.rules@).len() > 0 ==> (c.pipeline.rewrite matches Some(l)
                    && l.rules_spec() == rewrite_rules(self.rules@)))
                &&& (dns_rules(self.rules@).len() == 0 ==> c.pipeline.dns is None)
                &&& (dns_rules(self.rules@).len() > 0 ==> (c.pipeline.dns matches Some(l)
                    && l.resolvers_spec() == dns_rules(self.rules@)))
                &&& (first_fallback(self.rules@) is None ==> c.pipeline.fallback is None)
                &&& (first_fallback(self.rules@) matches Some(a) ==> (c.pipeline.fallback
                    matches Some(f) && f.default_spec() == a))
            },
    {
        let ConfigFile { listen, mut rules } = self;
        if rules.len() == 0 {
            return Err(Error::NoRules);
        }
        let listen = if listen.len() == 0 {
            let mut v: Vec<Listener> = Vec::new();
            v.push(Listener::default());
            v
        } else {
            listen
        };
        let mut constants: Vec<constant::Config> = Vec::new();
        let mut dnss: Vec<dns::Config> = Vec::new();
        let mut filters: Vec<filter::Config> = Vec::new();
        let mut rewrites: Vec<rewrite::Config> = Vec::new();
        let mut fallback_addr: Option<SocketAddress> = None;
        proof {
            assert(constant_rules(self.rules@) =~= constants@ + constant_rules(rules@));
            assert(dns_rules(self.rules@) =~= dnss@ + dns_rules(rules@));
            assert(filter_rules(self.rules@) =~= filters@ + filter_rules(rules@));
            assert(rewrite_rules(self.rules@) =~= rewrites@ + rewrite_rules(rules@));
        }
        while rules.len() > 0
            invariant
                constant_rules(self.rules@) =~= constants@ + constant_rules(rules@),
                dns_rules(self.rules@) =~= dnss@ + dns_rules(rules@),
                filter_rules(self.rules@) =~= filters@ + filter_rules(rules@),
                rewrite_rules(self.rules@) =~= rewrites@ + rewrite_rules(rules@),
                first_fallback(self.rules@) == (if fallback_addr is Some {
                    fallback_addr
                } else {
                    first_fallback(rules@)
                }),
            decreases rules.len(),
        {
            let ghost prev = rules@;
            let rule = rules.remove(0);
            proof {
                assert(rules@ =~= prev.drop_first());
                assert(prev.first() == rule);
            }
            match rule {
                Rule::Constant(c) => constants.push(c),
                Rule::Dns(c) => dnss.push(c),
                Rule::Filter(c) => filters.push(c),
                Rule::Rewrite(c) => rewrites.push(c),
                Rule::Fallback(a) => {
                    if fallback_addr.is_none() {
                        fallback_addr = Some(a);
                    }
                },
            }
        }
        proof {
            assert(constant_rules(rules@) =~= Seq::<constant::Config>::empty());
            assert(dns_rules(rules@) =~= Seq::<dns::Config>::empty());
            assert(filter_rules(rules@) =~= Seq::<filter::Config>::empty());
            assert(rewrite_rules(rules@) =~= Seq::<rewrite::Config>::empty());
            assert(constants@ + Seq::<constant::Config>::empty() =~= constants@);
            assert(dnss@ + Seq::<dns::Config>::empty() =~= dnss@);
            assert(filters@ + Seq::<filter::Config>::empty() =~= filters@);
            assert(rewrites@ + Seq::<rewrite::Config>::empty() =~= rewrites@);
        }
        let rewrite_layer: Option<rewrite::Layer> = if rewrites.len() == 0 {
            None
        } else {
            match rewrite::Layer::new(rewrites) {
                Ok(l) => Some(l),
                Err(_) => {
                    return Err(Error::InvalidRegex);
                },
            }
        };
        let filter_check: Option<filter::Check> = if filters.len() == 0 {
            None
        } else {
            Some(filter::Check::new(&filters))
        };
        let constant_layer: Option<constant::Layer> = if constants.len() == 0 {
            None
        } else {
            Some(constant::Layer::new(constants))
        };
        let dns_layer: Option<dns::Layer> = if dnss.len() == 0 {
            None
        } else {
            Some(dns::Layer::new(dnss))
        };
        let fallback = match fallback_addr {
            Some(a) => Some(Fallback::new(a)),
            None => None,
        };
        Ok(
            Config {
                listen,
                pipeline: Pipeline {
                    fallback,
                    filter: filter_check,
                    constant: constant_layer,
                    rewrite: rewrite_layer,
                    dns: dns_layer,
                },
            },
        )
    }
}

/// One service as the older, service-keyed configuration writes it: a
/// hostname, its port bindings, and an optional fixed address list that
/// bypasses DNS.
#[derive(Debug)]
pub struct Service {
    /// The service hostname.
    pub name: Vec<u8>,
    /// Port bindings; `default_ports` when the file names none.
    pub ports: Vec<PortBinding>,
    /// Fixed addresses; when non-empty, requests for this name never reach
    /// DNS and are spread over these instead.
    pub forward: Vec<IpAddress>,
}

/// The port bindings a service gets when the file names none.
pub fn default_ports() -> (r: Vec<PortBinding>)
    ensures
        r@ == seq![PortBinding(443, 443)],
{
    let mut v: Vec<PortBinding> = Vec::new();
    v.push(PortBinding(443, 443));
    proof {
        assert(v@ =~= seq![PortBinding(443, 443)]);
    }
    v
}

/// The remote port the services give `(name, from)`: the last matching
/// binding of the last matching service wins.
pub open spec fn service_port_lookup(services: Seq<Service>, name: Seq<u8>, from: u16) -> Option<
    u16,
>
    decreases services.len(),
{
    if services.len() == 0 {
        None
    } else {
        let found: Option<u16> = if services.last().name@ == name {
            constant::binding_lookup(services.last().ports@, from)
        } else {
            None
        };
        match found {
            Some(v) => Some(v),
            None => service_port_lookup(services.drop_last(), name, from),
        }
    }
}

/// The remote-port table of a service list, keyed by name and local port.
pub struct PortMap {
    services: Vec<Service>,
}

impl PortMap {
    /// The services this table reads.
    pub closed spec fn services_spec(&self) -> Seq<Service> {
        self.services@
    }

    /// The remote port bound to `(name, from)`, if any — a binding written
    /// later takes precedence over an earlier one for the same key.
    pub fn get(&self, name: &[u8], from: u16) -> (r: Option<u16>)
        ensures
            r == service_port_lookup(self.services_spec(), name@, from),
    {
        let n = self.services.len();
        let mut current: Option<u16> = None;
        proof {
            assert(self.services@.take(0) =~= Seq::<Service>::empty());
        }
        for i in 0..n
            invariant
                n == self.services@.len(),
                current == service_port_lookup(self.services@.take(i as int), name@, from),
        {
            let service = &self.services[i];
            if bytes_eq(service.name.as_slice(), name) {
                let m = service.ports.len();
                proof {
                    assert(service.ports@.take(0) =~= Seq::<PortBinding>::empty());
                }
                let mut bound: Option<u16> = None;
                for j in 0..m
                    invariant
                        m == service.ports@.len(),
                        bound == constant::binding_lookup(service.ports@.take(j as int), from),
                {
                    if service.ports[j].0 == from {
                        bound = Some(service.ports[j].1);
                    }
                    proof {
                        assert(service.ports@.take(j + 1).drop_last() =~= service.ports@.take(
                            j as int,
                        ));
                        assert(service.ports@.take(j + 1).last() == service.ports@[j as int]);
                    }
                }
                proof {
                    assert(service.ports@.take(m as int) =~= service.ports@);
                }
                if bound.is_some() {
                    current = bound;
                }
            }
            proof {
                assert(self.services@.take(i + 1).drop_last() =~= self.services@.take(i as int));
                assert(self.services@.take(i + 1).last() == self.services@[i as int]);
            }
        }
        proof {
            assert(self.services@.take(n as int) =~= self.services@);
        }
        current
    }
}

/// Keys the services' port bindings by name and local port.
pub fn remote_port_by_service_name_and_local(services: Vec<Service>) -> (r: PortMap)
    ensures
        r.services_spec() == services@,
{
    PortMap { services }
}

/// The fixed addresses the services give `name`: those of the last
/// matching service that has any.
pub open spec fn service_ip_lookup(services: Seq<Service>, name: Seq<u8>) -> Option<
    Seq<IpAddress>,
>
    decreases services.len(),
{
    if services.len() == 0 {
        None
    } else if services.last().name@ == name && services.last().forward@.len() > 0 {
        Some(services.last().forward@)
    } else {
        service_ip_lookup(services.drop_last(), name)
    }
}

/// Whether a later service with the same name also carries fixed
/// addresses, hiding this one.
pub open spec fn shadowed(name: Seq<u8>, rest: Seq<Service>) -> bool {
    exists|j: int|
        0 <= j < rest.len() && (#[trigger] rest[j]).name@ == name && rest[j].forward@.len() > 0
}

/// How many names the services' fixed-address table holds: the services
/// with addresses that no later same-named service hides.
pub open spec fn live_count(services: Seq<Service>) -> int
    decreases services.len(),
{
    if services.len() == 0 {
        0int
    } else {
        (if services.first().forward@.len() > 0 && !shadowed(
            services.first().name@,
            services.drop_first(),
        ) {
            1int
        } else {
            0int
        }) + live_count(services.drop_first())
    }
}

/// The fixed-address table of a service list, keyed by name.
pub struct IpMap {
    services: Vec<Service>,
}

impl IpMap {
    /// The services this table reads.
    pub closed spec fn services_spec(&self) -> Seq<Service> {
        self.services@
    }

    /// The fixed addresses bound to `name`, if any service carries some.
    pub fn get(&self, name: &[u8]) -> (r: Option<&Vec<IpAddress>>)
        ensures
            match r {
                Some(v) => service_ip_lookup(self.services_spec(), name@) == Some(v@),
                None => service_ip_lookup(self.services_spec(), name@) is None,
            },
    {
        let n = self.services.len();
        let mut found: Option<usize> = None;
        proof {
            assert(self.services@.take(0) =~= Seq::<Service>::empty());
        }
        for i in 0..n
            invariant
                n == self.services@.len(),
                match found {
                    Some(ix) => ix < i && service_ip_lookup(self.services@.take(i as int), name@)
                        == Some(self.services@[ix as int].forward@),
                    None => service_ip_lookup(self.services@.take(i as int), name@) is None,
                },
        {
            let service = &self.services[i];
            if bytes_eq(service.name.as_slice(), name) && service.forward.len() > 0 {
                found = Some(i);
            }
            proof {
                assert(self.services@.take(i + 1).drop_last() =~= self.services@.take(i as int));
                assert(self.services@.take(i + 1).last() == self.services@[i as int]);
            }
        }
        proof {
            assert(self.services@.take(n as int) =~= self.services@);
        }
        match found {
            Some(ix) => Some(&self.services[ix].forward),
            None => None,
        }
    }

    /// How many names the table holds.
    pub fn len(&self) -> (r: usize)
        ensures
            r == live_count(self.services_spec()),
    {
        let n = self.services.len();
        let mut count: usize = 0;
        proof {
            assert(self.services@.skip(0) =~= self.services@);
            lemma_live_count_bound(self.services@);
        }
        for i in 0..n
            invariant
                n == self.services@.len(),
                live_count(self.services@) == count + live_count(self.services@.skip(i as int)),
                count <= i,
        {
            proof {
                assert(self.services@.skip(i as int).first() == self.services@[i as int]);
                assert(self.services@.skip(i as int).drop_first() =~= self.services@.skip(i + 1));
                lemma_live_count_bound(self.services@.skip(i + 1));
            }
            let service = &self.services[i];
            if service.forward.len() > 0 {
                let mut hidden = false;
                let mut j = i + 1;
                while j < n
                    invariant
                        i < j <= n == self.services@.len(),
                        hidden == exists|k: int|
                            i < k < j && (#[trigger] self.services@[k]).name@
                                == self.services@[i as int].name@ && self.services@[k].forward@.len()
                                > 0,
                    decreases n - j,
                {
                    if bytes_eq(
                        self.services[j].name.as_slice(),
                        self.services[i].name.as_slice(),
                    ) && self.services[j].forward.len() > 0 {
                        hidden = true;
                    }
                    j += 1;
                }
                proof {
                    let rest = self.services@.skip(i + 1);
                    let nm = self.services@[i as int].name@;
                    assert(forall|k: int|
                        0 <= k < rest.len() ==> #[trigger] rest[k] == self.services@[k + i + 1]);
                    if hidden {
                        let k = choose|k: int|
                            i < k < n && (#[trigger] self.services@[k]).name@ == nm
                                && self.services@[k].forward@.len() > 0;
                        assert(rest[k - i - 1] == self.services@[k]);
                        assert(shadowed(nm, rest));
                    } else {
                        assert(!shadowed(nm, rest)) by {
                            if shadowed(nm, rest) {
                                let k2 = choose|k2: int|
                                    0 <= k2 < rest.len() && (#[trigger] rest[k2]).name@ == nm
                                        && rest[k2].forward@.len() > 0;
                                assert(self.services@[k2 + i + 1].name@ == nm);
                            }
                        };
                    }
                    assert(hidden == shadowed(nm, rest));
                }
                if !hidden {
                    count += 1;
                }
            }
        }
        proof {
            assert(self.services@.skip(n as int) =~= Seq::<Service>::empty());
        }
        count
    }
}

/// A non-negative count no larger than the list itself.
proof fn lemma_live_count_bound(services: Seq<Service>)
    ensures
        0 <= live_count(services) <= services.len(),
    decreases services.len(),
{
    if services.len() > 0 {
        lemma_live_count_bound(services.drop_first());
    }
}

/// Keys the services' fixed addresses by name; a later same-named service
/// with addresses replaces an earlier one.
pub fn forward_addr_by_service_name(services: Vec<Service>) -> (r: IpMap)
    ensures
        r.services_spec() == services@,
{
    IpMap { services }
}

/// Whether `v` holds `p`.
fn contains_port(v: &Vec<u16>, p: u16) -> (r: bool)
    ensures
        r == v@.contains(p),
{
    let n = v.len();
    for i in 0..n
        invariant
            n == v@.len(),
            forall|k: int| 0 <= k < i ==> v@[k] != p,
    {
        if v[i] == p {
            return true;
        }
    }
    false
}

impl Config {
    /// The set of ports the listeners bind, without repetition.
    pub fn listening_ports(&self) -> (r: Vec<u16>)
        ensures
            forall|p: u16|
                r@.contains(p) <==> (exists|i: int|
                    0 <= i < self.listen@.len() && (#[trigger] self.listen@[i]).address.port == p),
            forall|a: int, b: int| 0 <= a < b < r@.len() ==> r@[a] != r@[b],
    {
        let n = self.listen.len();
        let mut ports: Vec<u16> = Vec::new();
        for i in 0..n
            invariant
                n == self.listen@.len(),
                forall|p: u16|
                    ports@.contains(p) <==> (exists|k: int|
                        0 <= k < i && (#[trigger] self.listen@[k]).address.port == p),
                forall|a: int, b: int| 0 <= a < b < ports@.len() ==> ports@[a] != ports@[b],
        {
            let p = self.listen[i].address.port;
            proof {
                broadcast use vstd::seq_lib::lemma_seq_contains_after_push;

            }
            if !contains_port(&ports, p) {
                ports.push(p);
            }
        }
        ports
    }
}

} // verus!
