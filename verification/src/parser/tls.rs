//! The TLS parser: reads the SNI server name out of a ClientHello.
//!
//! The record and handshake syntax belongs to rustls; this module only fixes
//! what is relied on: probing a byte buffer is a function of the bytes alone,
//! and ends in one of three ways — the handshake is still incomplete, it was
//! accepted with an optional server name, or the bytes are not TLS.

use vstd::prelude::*;

verus! {

/// Largest number of bytes a single TLS record occupies on the wire: the
/// maximum payload (16384 plus 2048 bytes of protection overhead) plus the
/// five-byte record header. A handshake that has not been accepted within
/// this many bytes never will be.
pub const MAX_TLS_WIRE_SIZE: usize = 18437;

/// The three ways probing a buffer for a ClientHello can end.
pub enum SniProbe {
    /// More bytes are needed before the ClientHello is complete.
    Incomplete,
    /// The ClientHello was accepted; it named this server, or named none.
    Accepted(Option<Seq<u8>>),
    /// The bytes are not a well-formed TLS handshake.
    Malformed,
}

/// What a TLS record acceptor makes of exactly these bytes. The outcome is
/// a function of the bytes alone; it is pinned down only through the
/// trusted probe below.
pub uninterp spec fn tls_probe_of(b: Seq<u8>) -> SniProbe;

/// The executable counterpart of `SniProbe`.
pub enum TlsProbe {
    NeedMore,
    Ready(Option<Vec<u8>>),
    Malformed,
}

/// Relies on rustls's `server::Acceptor`: feeding a buffer to a fresh
/// acceptor and asking it to accept is deterministic in the buffer, and
/// yields the ClientHello's first `server_name`, a request for more bytes,
/// or a parse failure.
#[verifier::external_body]
fn tls_probe(buf: &[u8]) -> (r: TlsProbe)
    ensures
        r is NeedMore <==> tls_probe_of(buf@) is Incomplete,
        r is Malformed <==> tls_probe_of(buf@) is Malformed,
        r matches TlsProbe::Ready(name) ==> tls_probe_of(buf@) == SniProbe::Accepted(
            name.deep_view(),
        ),
{
    let mut acceptor = rustls::server::Acceptor::default();
    let mut cursor = std::io::Cursor::new(buf);
    loop {
        match acceptor.accept() {
            Ok(Some(a)) => return TlsProbe::Ready(
                a.client_hello().server_name().map(|s| s.as_bytes().to_vec()),
            ),
            Ok(None) => match acceptor.read_tls(&mut cursor) {
                Ok(0) | Err(_) => return TlsProbe::NeedMore,
                Ok(_) => {},
            },
            Err(_) => return TlsProbe::Malformed,
        }
    }
}

/// The name an accepted ClientHello yields: the server name it carried, or
/// the empty name when it carried none.
pub open spec fn sni_value(name: Option<Seq<u8>>) -> Seq<u8> {
    match name {
        Some(s) => s,
        None => Seq::empty(),
    }
}

/// Why the TLS parser gives up on a connection.
#[derive(Clone, Copy, Debug, PartialEq, Eq, Structural)]
pub enum Error {
    /// The handshake was not accepted within `MAX_TLS_WIRE_SIZE` bytes.
    MaxSizeExceeded,
    /// The bytes are not a well-formed TLS handshake.
    Malformed,
}

/// Parses the SNI service name extension out of a TLS ClientHello.
pub struct ServiceName;

impl Default for ServiceName {
    fn default() -> (r: Self)
        ensures
            r == (ServiceName {  }),
    {
        ServiceName {  }
    }
}

impl ServiceName {
    /// One parsing step over the whole buffer read so far: the server name
    /// once the ClientHello is accepted (empty if it named none), a request
    /// for more bytes while the handshake is incomplete and under the size
    /// limit, and a sticky failure otherwise.
    pub fn parse_step(&self, input: &[u8]) -> (r: Result<Option<Vec<u8>>, Error>)
        ensures
            match tls_probe_of(input@) {
                SniProbe::Incomplete => if input@.len() > MAX_TLS_WIRE_SIZE {
                    r == Err::<Option<Vec<u8>>, Error>(Error::MaxSizeExceeded)
                } else {
                    r == Ok::<Option<Vec<u8>>, Error>(None)
                },
                SniProbe::Accepted(name) => r matches Ok(Some(v)) && v@ == sni_value(name),
                SniProbe::Malformed => r == Err::<Option<Vec<u8>>, Error>(Error::Malformed),
            },
    {
        match tls_probe(input) {
            TlsProbe::NeedMore => {
                if input.len() > MAX_TLS_WIRE_SIZE {
                    Err(Error::MaxSizeExceeded)
                } else {
                    Ok(None)
                }
            },
            TlsProbe::Ready(Some(v)) => Ok(Some(v)),
            TlsProbe::Ready(None) => Ok(Some(Vec::new())),
            TlsProbe::Malformed => Err(Error::Malformed),
        }
    }
}

impl super::Parser<Vec<u8>, Error> for ServiceName {
    fn parse(&mut self, input: &[u8]) -> Result<Option<Vec<u8>>, Error> {
        self.parse_step(input)
    }
}

} // verus!
