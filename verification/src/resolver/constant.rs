//! The constant stage: explicit port and address overrides from
//! configuration, bound to the user-visible name as written there.

use vstd::prelude::*;

use crate::net::{IpAddress, SocketAddress};
use crate::text::{bytes_eq, find_byte, parse_u16, parse_u16_spec};

verus! {

/// A port binding in either written form: `local:remote`, or a bare `port`
/// which stands for `port:port`.
#[derive(Debug, Clone, Copy, PartialEq, Eq, Structural)]
pub struct PortBinding(pub u16, pub u16);

/// The port numbers named by the colon-separated segments of `s`, in order;
/// segments that do not parse as a port are passed over.
pub open spec fn parsed_ports(s: Seq<u8>) -> Seq<u16>
    decreases s.len(),
    via parsed_ports_decreases
{
    match find_byte(s, 58) {
        None => match parse_u16_spec(s) {
            Some(v) => seq![v],
            None => Seq::empty(),
        },
        Some(i) => {
            let head: Seq<u16> = match parse_u16_spec(s.take(i)) {
                Some(v) => seq![v],
                None => Seq::empty(),
            };
            head + parsed_ports(s.skip(i + 1))
        },
    }
}

#[via_fn]
proof fn parsed_ports_decreases(s: Seq<u8>) {
    crate::text::lemma_find_byte(s, 58);
}

/// The binding a written form names: none when no segment parses, `p:p`
/// when only one does, and the first two parsed segments otherwise.
pub open spec fn port_binding_spec(s: Seq<u8>) -> Option<PortBinding> {
    let ports = parsed_ports(s);
    if ports.len() == 0 {
        None
    } else if ports.len() == 1 {
        Some(PortBinding(ports[0], ports[0]))
    } else {
        Some(PortBinding(ports[0], ports[1]))
    }
}

impl PortBinding {
    /// Reads a binding from its written form.
    pub fn parse(s: &[u8]) -> (r: Option<PortBinding>)
        ensures
            r == port_binding_spec(s@),
    {
        let n = s.len();
        let mut start: usize = 0;
        let mut first: Option<u16> = None;
        let mut second: Option<u16> = None;
        let ghost mut seen: Seq<u16> = Seq::empty();
        proof {
            assert(s@.skip(0) =~= s@);
        }
        loop
            invariant
                0 <= start <= n == s@.len(),
                parsed_ports(s@) =~= seen + parsed_ports(s@.skip(start as int)),
                first == (if seen.len() > 0 {
                    Some(seen[0])
                } else {
                    None::<u16>
                }),
                second == (if seen.len() > 1 {
                    Some(seen[1])
                } else {
                    None::<u16>
                }),
            decreases n - start,
        {
            let ghost rest = s@.skip(start as int);
            let mut j: usize = start;
            while j < n && s[j] != 58
                invariant
                    start <= j <= n == s@.len(),
                    forall|k: int| start <= k < j ==> s@[k] != 58,
                decreases n - j,
            {
                j += 1;
            }
            let seg = crate::text::copy_range(s, start, j);
            proof {
                crate::text::lemma_find_byte(rest, 58);
                assert(forall|k: int| 0 <= k < rest.len() ==> rest[k] == s@[k + start]);
                if j < n {
                    assert(rest[j - start] == s@[j as int]);
                    assert(find_byte(rest, 58) == Some(j - start));
                    assert(rest.take(j - start) =~= seg@);
                } else {
                    assert(find_byte(rest, 58) is None);
                    assert(rest =~= seg@);
                }
            }
            let parsed = parse_u16(seg.as_slice());
            match parsed {
                Some(v) => {
                    if first.is_none() {
                        first = Some(v);
                    } else if second.is_none() {
                        second = Some(v);
                    }
                    proof {
                        seen = seen.push(v);
                    }
                },
                None => {
                },
            }
            proof {
                if j < n {
                    assert(rest.skip(j - start + 1) =~= s@.skip(j + 1));
                    let ghost head: Seq<u16> = match parse_u16_spec(seg@) {
                        Some(v) => seq![v],
                        None => Seq::<u16>::empty(),
                    };
                    assert(parsed_ports(rest) =~= head + parsed_ports(s@.skip(j + 1)));
                    assert(parsed_ports(s@) =~= seen + parsed_ports(s@.skip(j + 1)));
                } else {
                    assert(parsed_ports(s@) =~= seen);
                }
            }
            if j == n {
                return match (first, second) {
                    (Some(a), Some(b)) => Some(PortBinding(a, b)),
                    (Some(a), None) => Some(PortBinding(a, a)),
                    _ => None,
                };
            }
            start = j + 1;
        }
    }
}

/// One constant rule from configuration: a port override or an address
/// override for a single name.
#[derive(Debug, Clone, PartialEq, Eq)]
pub enum Config {
    /// Rewrites the local port when `(name, from)` matches a binding.
    Port { name: Vec<u8>, ports: Vec<PortBinding> },
    /// Short-circuits resolution of `name` to one of these addresses.
    Ip { name: Vec<u8>, ips: Vec<IpAddress> },
}

/// The remote port of the last binding for `from` in one rule's list, if
/// any — a later binding overrides an earlier one.
pub open spec fn binding_lookup(ports: Seq<PortBinding>, from: u16) -> Option<u16>
    decreases ports.len(),
{
    if ports.len() == 0 {
        None
    } else if ports.last().0 == from {
        Some(ports.last().1)
    } else {
        binding_lookup(ports.drop_last(), from)
    }
}

/// The remote port the rules give `(name, from)`: the last matching binding
/// of the last matching rule wins.
pub open spec fn port_lookup(rules: Seq<Config>, name: Seq<u8>, from: u16) -> Option<u16>
    decreases rules.len(),
{
    if rules.len() == 0 {
        None
    } else {
        let found: Option<u16> = match rules.last() {
            Config::Port { name: n, ports } => if n@ == name {
                binding_lookup(ports@, from)
            } else {
                None
            },
            Config::Ip { .. } => None,
        };
        match found {
            Some(v) => Some(v),
            None => port_lookup(rules.drop_last(), name, from),
        }
    }
}

/// The port a request for `(name, port)` is carried on after this stage:
/// the mapped port when a binding matches, the original port otherwise.
pub open spec fn effective_port(rules: Seq<Config>, name: Seq<u8>, port: u16) -> u16 {
    match port_lookup(rules, name, port) {
        Some(v) => v,
        None => port,
    }
}

/// Every address the rules bind to `name`, in rule order.
pub open spec fn ip_lookup(rules: Seq<Config>, name: Seq<u8>) -> Seq<IpAddress>
    decreases rules.len(),
{
    if rules.len() == 0 {
        Seq::empty()
    } else {
        let head: Seq<IpAddress> = match rules.first() {
            Config::Ip { name: n, ips } => if n@ == name {
                ips@
            } else {
                Seq::empty()
            },
            Config::Port { .. } => Seq::empty(),
        };
        head + ip_lookup(rules.drop_first(), name)
    }
}

/// The constant stage: holds the configured rules and answers lookups over
/// them.
pub struct Layer {
    rules: Vec<Config>,
}

/// What the constant stage does with one request.
#[derive(Debug, PartialEq, Eq, Structural)]
pub enum Step {
    /// An address override matched: resolution short-circuits here.
    Resolved(SocketAddress),
    /// No address override: the inner stages proceed with this port.
    Continue(u16),
}

impl Layer {
    /// The rules this stage was built from.
    pub closed spec fn rules_spec(&self) -> Seq<Config> {
        self.rules@
    }

    /// Keeps the rules as configured; lookups read them in order.
    pub fn new(rules: Vec<Config>) -> (r: Layer)
        ensures
            r.rules_spec() == rules@,
    {
        Layer { rules }
    }

    /// The port this stage hands inward for `(name, port)`.
    pub fn effective_port(&self, name: &[u8], port: u16) -> (r: u16)
        ensures
            r == effective_port(self.rules_spec(), name@, port),
    {
        let n = self.rules.len();
        let mut current: Option<u16> = None;
        proof {
            assert(self.rules@.take(0) =~= Seq::<Config>::empty());
        }
        for i in 0..n
            invariant
                n == self.rules@.len(),
                current == port_lookup(self.rules@.take(i as int), name@, port),
        {
            match &self.rules[i] {
                Config::Port { name: rule_name, ports } => {
                    if bytes_eq(rule_name.as_slice(), name) {
                        let m = ports.len();
                        proof {
                            assert(ports@.take(0) =~= Seq::<PortBinding>::empty());
                        }
                        let mut bound: Option<u16> = None;
                        for j in 0..m
                            invariant
                                m == ports@.len(),
                                bound == binding_lookup(ports@.take(j as int), port),
                        {
                            if ports[j].0 == port {
                                bound = Some(ports[j].1);
                            }
                            proof {
                                assert(ports@.take(j + 1).drop_last() =~= ports@.take(j as int));
                                assert(ports@.take(j + 1).last() == ports@[j as int]);
                            }
                        }
                        proof {
                            assert(ports@.take(m as int) =~= ports@);
                        }
                        if bound.is_some() {
                            current = bound;
                        }
                    }
                },
                Config::Ip { .. } => {
                },
            }
            proof {
                assert(self.rules@.take(i + 1).drop_last() =~= self.rules@.take(i as int));
                assert(self.rules@.take(i + 1).last() == self.rules@[i as int]);
            }
        }
        proof {
            assert(self.rules@.take(n as int) =~= self.rules@);
        }
        match current {
            Some(v) => v,
            None => port,
        }
    }

    /// Every address the rules bind to `name`, in rule order.
    pub fn ips_for(&self, name: &[u8]) -> (r: Vec<IpAddress>)
        ensures
            r@ == ip_lookup(self.rules_spec(), name@),
    {
        let n = self.rules.len();
        let mut out: Vec<IpAddress> = Vec::new();
        proof {
            assert(self.rules@.skip(0) =~= self.rules@);
        }
        for i in 0..n
            invariant
                n == self.rules@.len(),
                ip_lookup(self.rules@, name@) =~= out@ + ip_lookup(
                    self.rules@.skip(i as int),
                    name@,
                ),
        {
            proof {
                assert(self.rules@.skip(i as int).first() == self.rules@[i as int]);
                assert(self.rules@.skip(i as int).drop_first() =~= self.rules@.skip(i + 1));
            }
            match &self.rules[i] {
                Config::Ip { name: rule_name, ips } => {
                    if bytes_eq(rule_name.as_slice(), name) {
                        let m = ips.len();
                        let ghost prefix = out@;
                        for j in 0..m
                            invariant
                                m == ips@.len(),
                                out@ =~= prefix + ips@.take(j as int),
                        {
                            out.push(ips[j]);
                            proof {
                                assert(ips@.take(j + 1) =~= ips@.take(j as int).push(
                                    ips@[j as int],
                                ));
                            }
                        }
                        proof {
                            assert(ips@.take(m as int) =~= ips@);
                        }
                    }
                },
                Config::Port { .. } => {
                },
            }
        }
        proof {
            assert(self.rules@.skip(n as int) =~= Seq::<Config>::empty());
            assert(ip_lookup(self.rules@.skip(n as int), name@) =~= Seq::<IpAddress>::empty());
        }
        out
    }

    /// One constant-stage step: the effective port is looked up first; when
    /// an address override matches (and the port is sound), one of its
    /// addresses is picked at random and resolution short-circuits, with no
    /// inner stage — in particular no DNS — consulted.
    pub fn step(&self, name: &[u8], port: u16) -> (r: Step)
        ensures
            ({
                let p = effective_port(self.rules_spec(), name@, port);
                let ips = ip_lookup(self.rules_spec(), name@);
                match r {
                    Step::Resolved(d) => ips.len() > 0 && p != 0 && ips.contains(d.ip) && d.port
                        == p,
                    Step::Continue(q) => q == p && (ips.len() == 0 || p == 0),
                }
            }),
    {
        let p = self.effective_port(name, port);
        let ips = self.ips_for(name);
        if ips.len() > 0 && p != 0 {
            let ix = crate::resolver::random_below(ips.len());
            let ip = ips[ix];
            proof {
                assert(ip_lookup(self.rules_spec(), name@).contains(ip));
            }
            Step::Resolved(SocketAddress { ip, port: p })
        } else {
            Step::Continue(p)
        }
    }
}

/// Port-map duplication: when bindings collide on the same local port, the
/// later one is the effective value.
pub proof fn lemma_port_binding_later_wins(ports: Seq<PortBinding>, from: u16, i: int)
    requires
        0 <= i < ports.len(),
        ports[i].0 == from,
        forall|j: int| i < j < ports.len() ==> (#[trigger] ports[j]).0 != from,
    ensures
        binding_lookup(ports, from) == Some(ports[i].1),
    decreases ports.len(),
{
    if i == ports.len() - 1 {
    } else {
        assert(ports.last().0 != from);
        lemma_port_binding_later_wins(ports.drop_last(), from, i);
        assert(forall|k: int|
            0 <= k < ports.len() - 1 ==> #[trigger] ports.drop_last()[k] == ports[k]);
    }
}

} // verus!
