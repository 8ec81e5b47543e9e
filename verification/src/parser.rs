//! Protocol parsers.
//!
//! Each parser consumes the whole buffer read from a client so far and either
//! yields the service name, asks for more bytes, or fails for good. Parsers
//! compete: the forwarder hands the growing buffer to every parser that has
//! not failed yet and takes the first name produced.

pub mod http;
pub mod tls;

use vstd::prelude::*;

verus! {

/// A protocol parser over a growing byte buffer.
///
/// `parse` is handed the entire buffer accumulated so far, not a delta.
/// `Ok(Some(name))` yields the service name, `Ok(None)` asks for more bytes,
/// and `Err` means the input is not this parser's protocol; a failed parser
/// is never invoked again on the same connection.
///
/// The trait itself carries no contract and is behavioural surface only:
/// the contracted entry points are the parsers' inherent `parse_step`
/// methods and `AnyParser::parse_step` below, which the forwarder uses.
pub trait Parser<O, E> {
    fn parse(&mut self, input: &[u8]) -> Result<Option<O>, E>;
}

/// What one parser makes of one buffer, as a value: the service name, a
/// request for more bytes, or a sticky failure.
pub enum ParseOutcome {
    Ready(Seq<u8>),
    Incomplete,
    Failed,
}

/// A parser of either kind, dispatched by value so a connection can hold a
/// mixed set of them.
pub enum AnyParser {
    H1(http::Hostname),
    Tls(tls::ServiceName),
}

/// What `p` answers when handed the buffer `b`.
pub open spec fn parse_outcome(p: AnyParser, b: Seq<u8>) -> ParseOutcome {
    match p {
        AnyParser::H1(_) => if !http::is_http_spec(b) {
            ParseOutcome::Failed
        } else {
            match http::find_host(b) {
                Some(v) => ParseOutcome::Ready(v),
                None => ParseOutcome::Incomplete,
            }
        },
        AnyParser::Tls(_) => match tls::tls_probe_of(b) {
            tls::SniProbe::Incomplete => if b.len() > tls::MAX_TLS_WIRE_SIZE {
                ParseOutcome::Failed
            } else {
                ParseOutcome::Incomplete
            },
            tls::SniProbe::Accepted(n) => ParseOutcome::Ready(tls::sni_value(n)),
            tls::SniProbe::Malformed => ParseOutcome::Failed,
        },
    }
}

/// The executable counterpart of `ParseOutcome`.
pub enum ParseStep {
    Ready(Vec<u8>),
    Incomplete,
    Failed,
}

impl AnyParser {
    /// Which kind of parser this is.
    pub open spec fn kind_of(&self) -> crate::config::Kind {
        match self {
            AnyParser::H1(_) => crate::config::Kind::H1,
            AnyParser::Tls(_) => crate::config::Kind::Tls,
        }
    }

    /// A fresh parser of the given kind, owned by one connection.
    pub fn from_kind(kind: &crate::config::Kind) -> (r: AnyParser)
        ensures
            r.kind_of() == kind,
    {
        match kind {
            crate::config::Kind::H1 => AnyParser::H1(http::Hostname),
            crate::config::Kind::Tls => AnyParser::Tls(tls::ServiceName),
        }
    }

    /// One parsing step over the whole buffer read so far.
    pub fn parse_step(&self, input: &[u8]) -> (r: ParseStep)
        ensures
            r is Incomplete <==> parse_outcome(*self, input@) is Incomplete,
            r is Failed <==> parse_outcome(*self, input@) is Failed,
            r matches ParseStep::Ready(v) ==> parse_outcome(*self, input@) == ParseOutcome::Ready(
                v@,
            ),
    {
        match self {
            AnyParser::H1(p) => match p.parse_step(input) {
                Ok(Some(v)) => ParseStep::Ready(v),
                Ok(None) => ParseStep::Incomplete,
                Err(_) => ParseStep::Failed,
            },
            AnyParser::Tls(p) => match p.parse_step(input) {
                Ok(Some(v)) => ParseStep::Ready(v),
                Ok(None) => ParseStep::Incomplete,
                Err(_) => ParseStep::Failed,
            },
        }
    }
}

/// The hardcoded parser set: one fresh parser of each kind, in the order
/// they race.
pub fn get_parsers() -> (r: Vec<AnyParser>)
    ensures
        r@.len() == 2,
        r@[0].kind_of() == crate::config::Kind::H1,
        r@[1].kind_of() == crate::config::Kind::Tls,
{
    let mut v: Vec<AnyParser> = Vec::new();
    v.push(AnyParser::H1(http::Hostname));
    v.push(AnyParser::Tls(tls::ServiceName));
    v
}

/// Parser monotonicity for the HTTP/1 parser, at the parser interface:
/// once it answers with a name for some buffer, it answers with a name
/// for every extension of that buffer — success is never withdrawn.
pub proof fn lemma_h1_parser_monotone(p: AnyParser, b1: Seq<u8>, b2: Seq<u8>)
    requires
        p is H1,
        b1.is_prefix_of(b2),
        parse_outcome(p, b1) is Ready,
    ensures
        parse_outcome(p, b2) is Ready,
{
    http::lemma_h1_monotone(b1, b2);
}

} // verus!
