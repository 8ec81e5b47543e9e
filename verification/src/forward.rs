//! The per-connection forwarder, as a state machine.
//!
//! The program around this crate owns the sockets and the clock; what is
//! decided here is everything in between: how the read-ahead buffer grows,
//! which parsers stay in the race, when a name is settled, which phase the
//! connection is in, and — once an upstream is dialed — that the bytes
//! handed over are exactly the prefix read before the dial followed by
//! everything read after it.

use vstd::prelude::*;

use crate::config::Kind;
use crate::parser::{parse_outcome, AnyParser, ParseOutcome, ParseStep};
use vstd::std_specs::vec::vec_index_mut;

verus! {

/// The wall-clock budget, in seconds, for reading a name, resolving it and
/// dialing the destination. The splice that follows is not under it.
pub const DEADLINE_SECS: u64 = 30;

/// The read-ahead buffer's initial capacity.
pub const INITIAL_BUFFER_CAPACITY: usize = 256;

/// Where one connection stands.
#[derive(Debug, Clone, Copy, PartialEq, Eq, Structural)]
pub enum Phase {
    /// Reading ahead, parsers racing for a name.
    Reading,
    /// A name (possibly empty) is settled; the pipeline is resolving it.
    Resolving,
    /// A destination is known; the upstream dial is under way.
    Dialing,
    /// Both sides connected; bytes flow in both directions.
    Splicing,
    /// The connection was given up: timeout, error, refusal, or no
    /// destination.
    Dropped,
    /// The splice ended; the connection is done.
    Closed,
}

/// What one read brought the connection.
#[derive(Debug, PartialEq, Eq)]
pub enum ReadStep {
    /// A parser produced the service name.
    Found(Vec<u8>),
    /// No parser has the name yet; read more.
    NeedMore,
    /// Every parser failed; the name stays empty and resolution proceeds
    /// with it, so a configured fallback can still act.
    NoParser,
}

/// The per-connection coordinator state: the growing read-ahead buffer and
/// one fresh parser per configured kind, each active until it fails.
pub struct Forwarder {
    buf: Vec<u8>,
    parsers: Vec<AnyParser>,
    active: Vec<bool>,
    phase: Phase,
}

impl Forwarder {
    /// The bytes read from the client so far.
    pub closed spec fn buf_spec(&self) -> Seq<u8> {
        self.buf@
    }

    /// This connection's parsers.
    pub closed spec fn parsers_spec(&self) -> Seq<AnyParser> {
        self.parsers@
    }

    /// Which parsers are still in the race.
    pub closed spec fn active_spec(&self) -> Seq<bool> {
        self.active@
    }

    /// Where the connection stands.
    pub closed spec fn phase_spec(&self) -> Phase {
        self.phase
    }

    /// One activity flag per parser.
    pub open spec fn wf(&self) -> bool {
        self.parsers_spec().len() == self.active_spec().len()
    }

    /// Where the connection stands.
    pub fn phase(&self) -> (r: Phase)
        ensures
            r == self.phase_spec(),
    {
        self.phase
    }

    /// A fresh forwarder for one accepted connection: an empty buffer and
    /// one fresh, active parser per configured kind.
    pub fn new(kinds: &Vec<Kind>) -> (r: Forwarder)
        ensures
            r.wf(),
            r.phase_spec() == Phase::Reading,
            r.buf_spec() == Seq::<u8>::empty(),
            r.parsers_spec().len() == kinds@.len(),
            forall|i: int|
                0 <= i < kinds@.len() ==> (#[trigger] r.parsers_spec()[i]).kind_of() == kinds@[i],
            forall|i: int| 0 <= i < kinds@.len() ==> r.active_spec()[i] == true,
    {
        let mut parsers: Vec<AnyParser> = Vec::new();
        let mut active: Vec<bool> = Vec::new();
        let n = kinds.len();
        for i in 0..n
            invariant
                n == kinds@.len(),
                parsers@.len() == i,
                active@.len() == i,
                forall|k: int|
                    0 <= k < i ==> (#[trigger] parsers@[k]).kind_of() == kinds@[k],
                forall|k: int| 0 <= k < i ==> active@[k] == true,
        {
            parsers.push(AnyParser::from_kind(&kinds[i]));
            active.push(true);
        }
        Forwarder {
            buf: Vec::with_capacity(INITIAL_BUFFER_CAPACITY),
            parsers,
            active,
            phase: Phase::Reading,
        }
    }

    /// Takes one chunk read from the client: the buffer grows by exactly
    /// that chunk, every still-active parser is handed the whole buffer,
    /// the first name wins, a failed parser drops out of the race for
    /// good, and when no parser is left the connection resolves the empty
    /// name.
    pub fn on_read(&mut self, chunk: &[u8]) -> (r: ReadStep)
        requires
            old(self).wf(),
            old(self).phase_spec() == Phase::Reading,
        ensures
            final(self).wf(),
            final(self).buf_spec() == old(self).buf_spec() + chunk@,
            final(self).parsers_spec() == old(self).parsers_spec(),
            final(self).active_spec().len() == old(self).active_spec().len(),
            forall|i: int|
                0 <= i < final(self).active_spec().len() && final(self).active_spec()[i]
                    ==> old(self).active_spec()[i],
            r matches ReadStep::Found(v) ==> final(self).phase_spec() == Phase::Resolving && (
            exists|i: int|
                0 <= i < old(self).parsers_spec().len() && old(self).active_spec()[i]
                    && parse_outcome(
                    #[trigger] old(self).parsers_spec()[i],
                    final(self).buf_spec(),
                ) == ParseOutcome::Ready(v@) && (forall|k: int|
                    0 <= k < i && old(self).active_spec()[k] ==> !(parse_outcome(
                        #[trigger] old(self).parsers_spec()[k],
                        final(self).buf_spec(),
                    ) is Ready))),
            r is NoParser ==> final(self).phase_spec() == Phase::Resolving && (forall|i: int|
                0 <= i < old(self).parsers_spec().len() && old(self).active_spec()[i]
                    ==> parse_outcome(
                    #[trigger] old(self).parsers_spec()[i],
                    final(self).buf_spec(),
                ) is Failed),
            r is NeedMore ==> final(self).phase_spec() == Phase::Reading && (forall|i: int|
                0 <= i < old(self).parsers_spec().len() && old(self).active_spec()[i]
                    ==> !(parse_outcome(
                    #[trigger] old(self).parsers_spec()[i],
                    final(self).buf_spec(),
                ) is Ready)) && (forall|i: int|
                0 <= i < final(self).active_spec().len() ==> final(self).active_spec()[i] == (old(
                    self,
                ).active_spec()[i] && parse_outcome(
                    #[trigger] old(self).parsers_spec()[i],
                    final(self).buf_spec(),
                ) is Incomplete)) && (exists|i: int|
                0 <= i < final(self).active_spec().len() && final(self).active_spec()[i]),
    {
        let m = chunk.len();
        let ghost oldbuf = self.buf@;
        for b in 0..m
            invariant
                m == chunk@.len(),
                self.buf@ =~= oldbuf + chunk@.take(b as int),
                self.parsers@ == old(self).parsers_spec(),
                self.active@ == old(self).active_spec(),
                self.phase == Phase::Reading,
                self.wf(),
        {
            self.buf.push(chunk[b]);
            proof {
                assert(oldbuf + chunk@.take(b + 1) =~= (oldbuf + chunk@.take(b as int)).push(
                    chunk@[b as int],
                ));
            }
        }
        proof {
            assert(chunk@.take(m as int) =~= chunk@);
        }
        let ghost newbuf = self.buf@;
        let n = self.parsers.len();
        let mut live: Option<usize> = None;
        let mut i: usize = 0;
        while i < n
            invariant
                n == self.parsers@.len(),
                self.wf(),
                0 <= i <= n,
                self.buf@ == newbuf,
                newbuf == old(self).buf_spec() + chunk@,
                self.parsers@ == old(self).parsers_spec(),
                self.active@.len() == old(self).active_spec().len(),
                self.phase == Phase::Reading,
                forall|k: int|
                    i <= k < n ==> (#[trigger] self.active@[k]) == old(self).active_spec()[k],
                forall|k: int|
                    0 <= k < i ==> (#[trigger] self.active@[k]) == (old(self).active_spec()[k]
                        && parse_outcome(self.parsers@[k], newbuf) is Incomplete),
                forall|k: int|
                    0 <= k < i && old(self).active_spec()[k] ==> !(parse_outcome(
                        #[trigger] self.parsers@[k],
                        newbuf,
                    ) is Ready),
                match live {
                    Some(w) => w < i && self.active@[w as int],
                    None => forall|k: int| 0 <= k < i ==> !(#[trigger] self.active@[k]),
                },
            decreases n - i,
        {
            let ghost prev_active = self.active@;
            if self.active[i] {
                match self.parsers[i].parse_step(self.buf.as_slice()) {
                    ParseStep::Ready(v) => {
                        self.phase = Phase::Resolving;
                        proof {
                            assert(parse_outcome(self.parsers@[i as int], newbuf)
                                == ParseOutcome::Ready(v@));
                            assert(forall|k: int|
                                0 <= k < i && old(self).active_spec()[k] ==> !(parse_outcome(
                                    #[trigger] self.parsers@[k],
                                    newbuf,
                                ) is Ready));
                        }
                        return ReadStep::Found(v);
                    },
                    ParseStep::Incomplete => {
                        live = Some(i);
                        proof {
                            assert(self.active@[i as int]);
                        }
                    },
                    ParseStep::Failed => {
                        let flag = vec_index_mut(&mut self.active, i);
                        *flag = false;
                        proof {
                            assert(self.active@ =~= prev_active.update(i as int, false));
                            assert(forall|k: int|
                                0 <= k < n && k != i ==> (#[trigger] self.active@[k])
                                    == prev_active[k]);
                            assert(!self.active@[i as int]);
                        }
                    },
                }
            }
            i += 1;
        }
        if live.is_some() {
            ReadStep::NeedMore
        } else {
            self.phase = Phase::Resolving;
            proof {
                assert forall|k: int|
                    0 <= k < n && old(self).active_spec()[k] implies parse_outcome(
                    #[trigger] self.parsers@[k],
                    newbuf,
                ) is Failed by {
                    assert(!self.active@[k]);
                    assert(!(parse_outcome(self.parsers@[k], newbuf) is Incomplete));
                    assert(!(parse_outcome(self.parsers@[k], newbuf) is Ready));
                }
            }
            ReadStep::NoParser
        }
    }

    /// The deadline fired before the splice began: the connection is
    /// dropped, and the resolver is not consulted after this.
    pub fn deadline_expired(&mut self)
        requires
            old(self).phase_spec() == Phase::Reading || old(self).phase_spec() == Phase::Resolving
                || old(self).phase_spec() == Phase::Dialing,
        ensures
            final(self).phase_spec() == Phase::Dropped,
            final(self).buf_spec() == old(self).buf_spec(),
            final(self).parsers_spec() == old(self).parsers_spec(),
            final(self).active_spec() == old(self).active_spec(),
    {
        self.phase = Phase::Dropped;
    }

    /// Reading from the client failed: the connection is dropped.
    pub fn io_failed(&mut self)
        requires
            old(self).phase_spec() == Phase::Reading || old(self).phase_spec() == Phase::Resolving
                || old(self).phase_spec() == Phase::Dialing,
        ensures
            final(self).phase_spec() == Phase::Dropped,
            final(self).buf_spec() == old(self).buf_spec(),
            final(self).parsers_spec() == old(self).parsers_spec(),
            final(self).active_spec() == old(self).active_spec(),
    {
        self.phase = Phase::Dropped;
    }

    /// The pipeline answered with a destination: dial it.
    pub fn resolution_succeeded(&mut self)
        requires
            old(self).phase_spec() == Phase::Resolving,
        ensures
            final(self).phase_spec() == Phase::Dialing,
            final(self).buf_spec() == old(self).buf_spec(),
    {
        self.phase = Phase::Dialing;
    }

    /// The pipeline answered with nothing, or refused the name: the
    /// connection is dropped.
    pub fn resolution_failed(&mut self)
        requires
            old(self).phase_spec() == Phase::Resolving,
        ensures
            final(self).phase_spec() == Phase::Dropped,
            final(self).buf_spec() == old(self).buf_spec(),
    {
        self.phase = Phase::Dropped;
    }

    /// The upstream dial succeeded: the splice starts, and the whole
    /// read-ahead buffer is handed over to be written upstream first.
    pub fn dial_succeeded(&mut self) -> (r: (Splice, Vec<u8>))
        requires
            old(self).phase_spec() == Phase::Dialing,
        ensures
            final(self).phase_spec() == Phase::Splicing,
            final(self).buf_spec() == old(self).buf_spec(),
            r.0.prefix_spec() == old(self).buf_spec(),
            r.0.post_spec() == Seq::<u8>::empty(),
            r.0.sent_spec() == old(self).buf_spec(),
            r.1@ == old(self).buf_spec(),
    {
        self.phase = Phase::Splicing;
        Splice::begin(&self.buf)
    }

    /// The upstream dial failed: the connection is dropped.
    pub fn dial_failed(&mut self)
        requires
            old(self).phase_spec() == Phase::Dialing,
        ensures
            final(self).phase_spec() == Phase::Dropped,
            final(self).buf_spec() == old(self).buf_spec(),
    {
        self.phase = Phase::Dropped;
    }

    /// Either side closed: the connection is done.
    pub fn splice_finished(&mut self)
        requires
            old(self).phase_spec() == Phase::Splicing,
        ensures
            final(self).phase_spec() == Phase::Closed,
    {
        self.phase = Phase::Closed;
    }
}

/// The client-to-upstream half of a splice, as byte accounting: which
/// prefix was read before the dial, what has been read since, and what has
/// been handed over to be written upstream.
///
/// Prefix preservation is this type's invariant: what reaches the
/// upstream is exactly the bytes read before the dial followed by the
/// bytes read after it — no byte lost, none duplicated, order kept. Both
/// `begin` and `forward_chunk` state it in their contracts.
pub struct Splice {
    prefix: Ghost<Seq<u8>>,
    post: Ghost<Seq<u8>>,
    sent: Ghost<Seq<u8>>,
}

impl Splice {
    /// The bytes read from the client before the upstream was dialed.
    pub closed spec fn prefix_spec(&self) -> Seq<u8> {
        self.prefix@
    }

    /// The bytes read from the client after the upstream was dialed.
    pub closed spec fn post_spec(&self) -> Seq<u8> {
        self.post@
    }

    /// Everything handed over to be written to the upstream, in order.
    pub closed spec fn sent_spec(&self) -> Seq<u8> {
        self.sent@
    }

    #[verifier::type_invariant]
    spec fn accounted(self) -> bool {
        self.sent@ == self.prefix@ + self.post@
    }

    /// Starts the accounting: the whole prefix is handed over first,
    /// byte-exact, before anything read later.
    pub fn begin(prefix: &Vec<u8>) -> (r: (Splice, Vec<u8>))
        ensures
            r.0.prefix_spec() == prefix@,
            r.0.post_spec() == Seq::<u8>::empty(),
            r.0.sent_spec() == prefix@,
            r.0.sent_spec() == r.0.prefix_spec() + r.0.post_spec(),
            r.1@ == prefix@,
    {
        proof {
            assert(prefix@ + Seq::<u8>::empty() =~= prefix@);
        }
        let s = Splice {
            prefix: Ghost(prefix@),
            post: Ghost(Seq::empty()),
            sent: Ghost(prefix@),
        };
        let out = crate::text::to_vec_copy(prefix.as_slice());
        (s, out)
    }

    /// Accounts one chunk read from the client after the dial and hands it
    /// over unchanged.
    pub fn forward_chunk(&mut self, chunk: &[u8]) -> (out: Vec<u8>)
        ensures
            out@ == chunk@,
            final(self).prefix_spec() == old(self).prefix_spec(),
            final(self).post_spec() == old(self).post_spec() + chunk@,
            final(self).sent_spec() == old(self).sent_spec() + chunk@,
            final(self).sent_spec() == final(self).prefix_spec() + final(self).post_spec(),
    {
        proof {
            use_type_invariant(&*self);
        }
        let ghost newpost = self.post@ + chunk@;
        let ghost newsent = self.sent@ + chunk@;
        proof {
            assert(newsent =~= self.prefix@ + newpost);
        }
        *self = Splice { prefix: Ghost(self.prefix@), post: Ghost(newpost), sent: Ghost(newsent) };
        crate::text::to_vec_copy(chunk)
    }
}

} // verus!
