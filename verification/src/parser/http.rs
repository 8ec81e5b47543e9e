//! The HTTP/1 parser: reads the `Host` header out of the first request.
//!
//! A buffer is eligible when it starts with a known request method; an
//! eligible buffer is scanned line by line (LF-delimited, CR tolerated) for
//! the first header whose name equals `Host` case-insensitively, and the
//! trimmed value after the first colon is the service name.

use vstd::prelude::*;

use crate::text::{copy_range, eq_ignore_case, find_byte, lemma_find_byte, trim, trim_copy};

verus! {

/// The request methods an HTTP/1 request line may start with.
pub open spec fn http_methods() -> Seq<Seq<u8>> {
    seq![
        seq![71u8, 69u8, 84u8],
        seq![72u8, 69u8, 65u8, 68u8],
        seq![79u8, 80u8, 84u8, 73u8, 79u8, 78u8, 83u8],
        seq![67u8, 79u8, 78u8, 78u8, 69u8, 67u8, 84u8],
        seq![80u8, 79u8, 83u8, 84u8],
        seq![80u8, 85u8, 84u8],
        seq![80u8, 65u8, 84u8, 67u8, 72u8],
        seq![84u8, 82u8, 65u8, 67u8, 69u8],
        seq![68u8, 69u8, 76u8, 69u8, 84u8, 69u8],
    ]
}

/// Whether `b` starts with method `m`, and the byte after the method, once
/// it has arrived, is the space that separates a request line.
pub open spec fn method_eligible(b: Seq<u8>, m: Seq<u8>) -> bool {
    m.is_prefix_of(b) && (b.len() > m.len() ==> b[m.len() as int] == 32)
}

/// Whether the buffer could be the start of an HTTP/1 request.
pub open spec fn is_http_spec(b: Seq<u8>) -> bool {
    exists|i: int| 0 <= i < http_methods().len() && method_eligible(b, #[trigger] http_methods()[i])
}

/// The header name that carries the service name.
pub open spec fn host_name() -> Seq<u8> {
    seq![104u8, 111u8, 115u8, 116u8]
}

/// The value a single header line yields: the line must hold a colon, the
/// bytes before the first colon must equal `Host` ignoring ASCII case, and
/// the value is what follows that colon, trimmed.
pub open spec fn host_line_value(line: Seq<u8>) -> Option<Seq<u8>> {
    match find_byte(line, 58) {
        Some(i) => if eq_ignore_case(line.take(i), host_name()) {
            Some(trim(line.skip(i + 1)))
        } else {
            None
        },
        None => None,
    }
}

/// The value of the first `Host` header among the LF-delimited lines of `b`,
/// the unterminated final line included.
pub open spec fn find_host(b: Seq<u8>) -> Option<Seq<u8>>
    decreases b.len(),
    via find_host_decreases
{
    match find_byte(b, 10) {
        None => host_line_value(b),
        Some(i) => match host_line_value(b.take(i)) {
            Some(v) => Some(v),
            None => find_host(b.skip(i + 1)),
        },
    }
}

#[via_fn]
proof fn find_host_decreases(b: Seq<u8>) {
    lemma_find_byte(b, 10);
}

/// What the HTTP/1 parser answers once the buffer both is eligible and
/// holds a `Host` header.
pub open spec fn h1_ready(b: Seq<u8>) -> bool {
    is_http_spec(b) && find_host(b) is Some
}

/// Whether `b` starts with `m` followed, if anything follows, by a space.
fn method_eligible_exec(b: &[u8], m: &[u8]) -> (r: bool)
    ensures
        r == method_eligible(b@, m@),
{
    if !crate::text::starts_with(b, m) {
        return false;
    }
    b.len() == m.len() || b[m.len()] == 32
}

/// One request method, by its rank in `http_methods`.
fn method_at(i: usize) -> (m: Vec<u8>)
    requires
        i < 9,
    ensures
        m@ == http_methods()[i as int],
{
    let m: Vec<u8> = match i {
        0 => {
            let a: [u8; 3] = [71u8, 69u8, 84u8];
            crate::text::to_vec_copy(a.as_slice())
        },
        1 => {
            let a: [u8; 4] = [72u8, 69u8, 65u8, 68u8];
            crate::text::to_vec_copy(a.as_slice())
        },
        2 => {
            let a: [u8; 7] = [79u8, 80u8, 84u8, 73u8, 79u8, 78u8, 83u8];
            crate::text::to_vec_copy(a.as_slice())
        },
        3 => {
            let a: [u8; 7] = [67u8, 79u8, 78u8, 78u8, 69u8, 67u8, 84u8];
            crate::text::to_vec_copy(a.as_slice())
        },
        4 => {
            let a: [u8; 4] = [80u8, 79u8, 83u8, 84u8];
            crate::text::to_vec_copy(a.as_slice())
        },
        5 => {
            let a: [u8; 3] = [80u8, 85u8, 84u8];
            crate::text::to_vec_copy(a.as_slice())
        },
        6 => {
            let a: [u8; 5] = [80u8, 65u8, 84u8, 67u8, 72u8];
            crate::text::to_vec_copy(a.as_slice())
        },
        7 => {
            let a: [u8; 5] = [84u8, 82u8, 65u8, 67u8, 69u8];
            crate::text::to_vec_copy(a.as_slice())
        },
        _ => {
            let a: [u8; 6] = [68u8, 69u8, 76u8, 69u8, 84u8, 69u8];
            crate::text::to_vec_copy(a.as_slice())
        },
    };
    proof {
        assert(m@ =~= http_methods()[i as int]);
    }
    m
}

/// Whether the buffer could be the start of an HTTP/1 request.
pub fn is_http(buf: &[u8]) -> (r: bool)
    ensures
        r == is_http_spec(buf@),
{
    let mut i: usize = 0;
    while i < 9
        invariant
            0 <= i <= 9,
            forall|k: int| 0 <= k < i ==> !method_eligible(buf@, #[trigger] http_methods()[k]),
        decreases 9 - i,
    {
        let m = method_at(i);
        if method_eligible_exec(buf, m.as_slice()) {
            return true;
        }
        i += 1;
    }
    false
}

/// Index of the first occurrence of `c` at or after nothing — the whole
/// slice is scanned from its start.
fn find_first(b: &[u8], c: u8) -> (r: Option<usize>)
    ensures
        match r {
            Some(j) => find_byte(b@, c) == Some(j as int),
            None => find_byte(b@, c) is None,
        },
{
    let n = b.len();
    let mut j: usize = 0;
    while j < n
        invariant
            0 <= j <= n == b@.len(),
            forall|k: int| 0 <= k < j ==> b@[k] != c,
        decreases n - j,
    {
        if b[j] == c {
            proof {
                lemma_find_byte(b@, c);
            }
            return Some(j);
        }
        j += 1;
    }
    proof {
        lemma_find_byte(b@, c);
    }
    None
}

/// The `Host` value of one header line, if this line carries one.
fn host_line_value_exec(line: &[u8]) -> (r: Option<Vec<u8>>)
    ensures
        match r {
            Some(v) => host_line_value(line@) == Some(v@),
            None => host_line_value(line@) is None,
        },
{
    match find_first(line, 58) {
        None => None,
        Some(ci) => {
            proof {
                lemma_find_byte(line@, 58);
            }
            let named = ci == 4 && (line[0] == 104 || line[0] == 72) && (line[1] == 111 || line[1]
                == 79) && (line[2] == 115 || line[2] == 83) && (line[3] == 116 || line[3] == 84);
            proof {
                assert(named == eq_ignore_case(line@.take(ci as int), host_name()));
            }
            if named {
                let tail = copy_range(line, ci + 1, line.len());
                let value = trim_copy(tail.as_slice());
                proof {
                    assert(tail@ =~= line@.skip(ci + 1));
                }
                Some(value)
            } else {
                None
            }
        },
    }
}

/// The value of the first `Host` header in the buffer, scanning the
/// LF-delimited lines in order.
pub fn try_read_hostname(buf: &[u8]) -> (r: Option<Vec<u8>>)
    ensures
        match r {
            Some(v) => find_host(buf@) == Some(v@),
            None => find_host(buf@) is None,
        },
{
    let n = buf.len();
    let mut start: usize = 0;
    proof {
        assert(buf@.skip(0) =~= buf@);
    }
    loop
        invariant
            0 <= start <= n == buf@.len(),
            find_host(buf@) == find_host(buf@.skip(start as int)),
        decreases n - start,
    {
        let ghost rest = buf@.skip(start as int);
        let mut j: usize = start;
        while j < n && buf[j] != 10
            invariant
                start <= j <= n == buf@.len(),
                forall|k: int| start <= k < j ==> buf@[k] != 10,
            decreases n - j,
        {
            j += 1;
        }
        let line = copy_range(buf, start, j);
        proof {
            lemma_find_byte(rest, 10);
            assert(forall|k: int| 0 <= k < j - start ==> rest[k] == buf@[k + start]);
            if j < n {
                assert(rest[j - start] == buf@[j as int]);
                assert(find_byte(rest, 10) == Some(j - start));
                assert(rest.take(j - start) =~= line@);
            } else {
                assert(find_byte(rest, 10) is None);
                assert(rest =~= line@);
            }
        }
        let value = host_line_value_exec(line.as_slice());
        match value {
            Some(v) => {
                return Some(v);
            },
            None => {
                if j == n {
                    return None;
                }
                proof {
                    assert(rest.skip(j - start + 1) =~= buf@.skip(j + 1));
                }
                start = j + 1;
            },
        }
    }
}

/// Why the HTTP/1 parser gives up on a connection.
#[derive(Clone, Copy, Debug, PartialEq, Eq, Structural)]
pub enum Error {
    /// The buffer does not start like an HTTP/1 request.
    NotHttp1,
}

/// Parses the hostname from HTTP/1 bytes.
pub struct Hostname;

impl Hostname {
    /// One parsing step over the whole buffer read so far: the `Host` value
    /// once it is present, a request for more bytes while it is not, and a
    /// sticky failure when the buffer is not HTTP/1 at all.
    pub fn parse_step(&self, input: &[u8]) -> (r: Result<Option<Vec<u8>>, Error>)
        ensures
            r is Err <==> !is_http_spec(input@),
            r matches Ok(out) ==> (match out {
                Some(v) => find_host(input@) == Some(v@),
                None => find_host(input@) is None,
            }),
    {
        if !is_http(input) {
            Err(Error::NotHttp1)
        } else {
            Ok(try_read_hostname(input))
        }
    }
}

impl super::Parser<Vec<u8>, Error> for Hostname {
    fn parse(&mut self, input: &[u8]) -> Result<Option<Vec<u8>>, Error> {
        self.parse_step(input)
    }
}

/// No request method contains a colon.
proof fn lemma_methods_no_colon(j: int, k: int)
    requires
        0 <= j < http_methods().len(),
        0 <= k < http_methods()[j].len(),
    ensures
        http_methods()[j][k] != 58,
{
}

/// A line that yields a `Host` value keeps yielding one however it grows:
/// the first colon and the name before it are already fixed.
proof fn lemma_host_line_value_prefix(l1: Seq<u8>, l2: Seq<u8>)
    requires
        l1.is_prefix_of(l2),
        host_line_value(l1) is Some,
    ensures
        host_line_value(l2) is Some,
{
    lemma_find_byte(l1, 58);
    lemma_find_byte(l2, 58);
    let ci = find_byte(l1, 58)->Some_0;
    assert(forall|k: int| 0 <= k < l1.len() ==> l1[k] == l2[k]);
    assert(l2[ci] == 58);
    assert(find_byte(l2, 58) == Some(ci));
    assert(l2.take(ci) =~= l1.take(ci));
}

/// A buffer whose lines already yield a `Host` value keeps yielding one
/// however the buffer grows.
proof fn lemma_find_host_monotone(b1: Seq<u8>, b2: Seq<u8>)
    requires
        b1.is_prefix_of(b2),
        find_host(b1) is Some,
    ensures
        find_host(b2) is Some,
    decreases b1.len(),
{
    lemma_find_byte(b1, 10);
    lemma_find_byte(b2, 10);
    assert(forall|k: int| 0 <= k < b1.len() ==> b1[k] == b2[k]);
    match find_byte(b1, 10) {
        Some(i) => {
            assert(b2[i] == 10);
            assert(find_byte(b2, 10) == Some(i));
            assert(b2.take(i) =~= b1.take(i));
            if host_line_value(b1.take(i)) is None {
                assert(b1.skip(i + 1).is_prefix_of(b2.skip(i + 1))) by {
                    assert(b1.skip(i + 1) =~= b2.skip(i + 1).take(b1.skip(i + 1).len() as int));
                }
                lemma_find_host_monotone(b1.skip(i + 1), b2.skip(i + 1));
            }
        },
        None => {
            match find_byte(b2, 10) {
                None => {
                    lemma_host_line_value_prefix(b1, b2);
                },
                Some(j) => {
                    assert(j >= b1.len());
                    assert(b1.is_prefix_of(b2.take(j))) by {
                        assert(b1 =~= b2.take(j).take(b1.len() as int));
                    }
                    lemma_host_line_value_prefix(b1, b2.take(j));
                },
            }
        },
    }
}

/// Parser monotonicity for the HTTP/1 parser: once a buffer parses to a
/// name, every buffer extending it parses to a name as well — a success is
/// never withdrawn by further bytes.
pub proof fn lemma_h1_monotone(b1: Seq<u8>, b2: Seq<u8>)
    requires
        h1_ready(b1),
        b1.is_prefix_of(b2),
    ensures
        h1_ready(b2),
{
    assert(forall|k: int| 0 <= k < b1.len() ==> b1[k] == b2[k]);
    let i = choose|i: int|
        0 <= i < http_methods().len() && method_eligible(b1, #[trigger] http_methods()[i]);
    let m = http_methods()[i];
    assert(m.is_prefix_of(b2)) by {
        assert(m =~= b2.take(m.len() as int));
    }
    if b2.len() > m.len() {
        if b1.len() > m.len() {
            assert(b2[m.len() as int] == b1[m.len() as int]);
        } else {
            // `b1` is exactly the method word, which holds no colon, yet a
            // `Host` line needs one: impossible.
            assert(b1 =~= m);
            lemma_find_host_has_colon(b1);
            let k = choose|k: int| 0 <= k < b1.len() && b1[k] == 58;
            lemma_methods_no_colon(i, k);
            assert(false);
        }
    }
    assert(method_eligible(b2, http_methods()[i]));
    lemma_find_host_monotone(b1, b2);
}

/// A buffer one of whose lines yields a `Host` value holds a colon.
proof fn lemma_find_host_has_colon(b: Seq<u8>)
    requires
        find_host(b) is Some,
    ensures
        exists|k: int| 0 <= k < b.len() && b[k] == 58,
    decreases b.len(),
{
    lemma_find_byte(b, 10);
    match find_byte(b, 10) {
        None => {
            lemma_find_byte(b, 58);
            assert(find_byte(b, 58) is Some);
            let ci = find_byte(b, 58)->Some_0;
            assert(b[ci] == 58);
        },
        Some(i) => {
            match host_line_value(b.take(i)) {
                Some(_) => {
                    lemma_find_byte(b.take(i), 58);
                    let ci = find_byte(b.take(i), 58)->Some_0;
                    assert(b[ci] == 58);
                },
                None => {
                    lemma_find_host_has_colon(b.skip(i + 1));
                    let rest = b.skip(i + 1);
                    let k = choose|k: int| 0 <= k < rest.len() && #[trigger] rest[k] == 58;
                    assert(b[k + i + 1] == 58);
                },
            }
        },
    }
}

} // verus!
