//! The rules of the local agent broker's socket protocol: how a request is
//! framed on the stream (one line of at most 64 KiB) and which protocol
//! versions and operations it accepts. The socket itself, the peer check and
//! the JSON envelope stay with the caller.
use vstd::prelude::*;
use crate::text::{chars_of, str_eq, string_from_chars};

verus! {

/// The largest request the broker reads, in bytes.
pub const MAX_BROKER_MESSAGE: usize = 65536;

/// What the reader does after one read from the stream.
#[derive(Debug, Clone, Copy, PartialEq, Eq, Structural)]
pub enum FrameStep {
    /// Read again: no line end yet and the request is within bounds.
    More,
    /// Stop reading: the line ended, or the stream did.
    Complete,
    /// Refuse: the request already exceeds its bound.
    TooLarge,
}

/// Whether `b` holds a line feed before position `end`.
pub open spec fn has_newline_before(b: Seq<u8>, end: int) -> bool {
    exists|k: int| 0 <= k < end && b[k] == 10
}

/// The position of the first line feed of `b`, where it holds one.
pub open spec fn first_newline(b: Seq<u8>, k: int) -> bool {
    &&& 0 <= k < b.len()
    &&& b[k] == 10
    &&& !has_newline_before(b, k)
}

/// Whether a read ends the request: the stream ended, or the read holds a
/// line feed.
pub open spec fn frame_completes(chunk: Seq<u8>) -> bool {
    chunk.len() == 0 || has_newline_before(chunk, chunk.len() as int)
}

/// The request gathered so far after one more read: the read's bytes before
/// its first line feed where it holds one, else all of them.
pub open spec fn frame_output(out: Seq<u8>, chunk: Seq<u8>) -> Seq<u8> {
    if has_newline_before(chunk, chunk.len() as int) {
        out + chunk.take(choose|k: int| first_newline(chunk, k))
    } else {
        out + chunk
    }
}

fn message(s: &str) -> (r: String)
    ensures
        r@ == s@,
{
    string_from_chars(&chars_of(s))
}

/// Takes one read of `chunk` bytes into the request gathered so far. An
/// empty read is the end of the stream. A read with a line feed adds the
/// bytes before the first one and completes the request; any other read is
/// added whole, and the request is refused once it exceeds its bound.
pub fn frame_chunk(output: &mut Vec<u8>, chunk: &[u8]) -> (r: FrameStep)
    ensures
        final(output)@ == frame_output(old(output)@, chunk@),
        r == FrameStep::Complete <==> frame_completes(chunk@),
        r == FrameStep::TooLarge <==> !frame_completes(chunk@) && final(output)@.len()
            > MAX_BROKER_MESSAGE,
{
    if chunk.len() == 0 {
        return FrameStep::Complete;
    }
    let ghost start = output@;
    let mut i: usize = 0;
    while i < chunk.len()
        invariant
            i <= chunk@.len(),
            !has_newline_before(chunk@, i as int),
            output@ == start + chunk@.take(i as int),
            start == old(output)@,
        decreases chunk@.len() - i,
    {
        if chunk[i] == 10 {
            assert(first_newline(chunk@, i as int));
            assert forall|k: int| #[trigger] first_newline(chunk@, k) implies k == i by {
                if k < i {
                    assert(chunk@[k] == 10);
                } else if k > i {
                    assert(chunk@[i as int] == 10);
                    assert(has_newline_before(chunk@, k));
                }
            }
            assert(has_newline_before(chunk@, chunk@.len() as int)) by {
                assert(chunk@[i as int] == 10);
            }
            let ghost k = choose|k: int| first_newline(chunk@, k);
            assert(k == i);
            return FrameStep::Complete;
        }
        output.push(chunk[i]);
        assert(chunk@.take(i + 1) =~= chunk@.take(i as int).push(chunk@[i as int]));
        assert forall|k: int| 0 <= k < i + 1 implies chunk@[k] != 10 by {
            if k < i {
                assert(!(0 <= k < i && chunk@[k] == 10));
            }
        }
        i = i + 1;
    }
    assert(chunk@.take(chunk@.len() as int) =~= chunk@);
    assert(!has_newline_before(chunk@, chunk@.len() as int));
    if output.len() > MAX_BROKER_MESSAGE {
        FrameStep::TooLarge
    } else {
        FrameStep::More
    }
}

/// The checks on a gathered request once reading stops: it holds at least
/// one byte and no more than the bound.
pub fn finish_frame(output: &[u8]) -> (r: Result<(), String>)
    ensures
        output@.len() == 0 ==> (r matches Err(e) && e@ == "empty agent broker request"@),
        output@.len() > MAX_BROKER_MESSAGE ==> (r matches Err(e) && e@
            == "agent broker request is too large"@),
        r is Ok <==> 0 < output@.len() <= MAX_BROKER_MESSAGE,
{
    if output.len() == 0 {
        return Err(message("empty agent broker request"));
    }
    if output.len() > MAX_BROKER_MESSAGE {
        return Err(message("agent broker request is too large"));
    }
    Ok(())
}

/// The operations the broker serves.
#[derive(Debug, Clone, Copy, PartialEq, Eq, Structural)]
pub enum BrokerOp {
    Ping,
    RequestContext,
    RequestStatus,
    ReadPass,
}

/// Only version 1 of the broker protocol is spoken.
pub fn check_broker_version(version: u32) -> (r: Result<(), String>)
    ensures
        r is Ok <==> version == 1,
        r matches Err(e) ==> e@ == "unsupported Noted broker protocol version"@,
{
    if version != 1 {
        return Err(message("unsupported Noted broker protocol version"));
    }
    Ok(())
}

/// The operation an envelope names; any other name is refused.
pub fn broker_operation(op: &str) -> (r: Result<BrokerOp, String>)
    ensures
        op@ == "ping"@ ==> r == Ok::<BrokerOp, String>(BrokerOp::Ping),
        op@ == "request_context"@ ==> r == Ok::<BrokerOp, String>(BrokerOp::RequestContext),
        op@ == "context_request_status"@ ==> r == Ok::<BrokerOp, String>(
            BrokerOp::RequestStatus,
        ),
        op@ == "read_context_pass"@ ==> r == Ok::<BrokerOp, String>(BrokerOp::ReadPass),
        op@ != "ping"@ && op@ != "request_context"@ && op@ != "context_request_status"@ && op@
            != "read_context_pass"@ ==> (r matches Err(e) && e@
            == "unknown Noted broker operation"@),
{
    proof {
        reveal_strlit("ping");
        reveal_strlit("request_context");
        reveal_strlit("context_request_status");
        reveal_strlit("read_context_pass");
        assert("ping"@.len() == 4);
        assert("request_context"@.len() == 15);
        assert("context_request_status"@.len() == 22);
        assert("read_context_pass"@.len() == 17);
    }
    if str_eq(op, "ping") {
        Ok(BrokerOp::Ping)
    } else if str_eq(op, "request_context") {
        Ok(BrokerOp::RequestContext)
    } else if str_eq(op, "context_request_status") {
        Ok(BrokerOp::RequestStatus)
    } else if str_eq(op, "read_context_pass") {
        Ok(BrokerOp::ReadPass)
    } else {
        Err(message("unknown Noted broker operation"))
    }
}

/// The bytes of a stream up to its first line feed, or all of them where it
/// holds none.
pub open spec fn until_newline(s: Seq<u8>) -> Seq<u8> {
    if has_newline_before(s, s.len() as int) {
        s.take(choose|k: int| first_newline(s, k))
    } else {
        s
    }
}

/// The chunks of a stream, one after the other.
pub open spec fn concat(chunks: Seq<Seq<u8>>) -> Seq<u8>
    decreases chunks.len(),
{
    if chunks.len() == 0 {
        seq![]
    } else {
        chunks[0] + concat(chunks.drop_first())
    }
}

/// What the reader gathers from `chunks`, read one after the other after
/// `out`, each read taken as [`frame_chunk`] takes it until one completes
/// the request.
pub open spec fn gathered(out: Seq<u8>, chunks: Seq<Seq<u8>>) -> Seq<u8>
    decreases chunks.len(),
{
    if chunks.len() == 0 {
        out
    } else if frame_completes(chunks[0]) {
        frame_output(out, chunks[0])
    } else {
        gathered(frame_output(out, chunks[0]), chunks.drop_first())
    }
}

proof fn lemma_first_newline_exists(s: Seq<u8>)
    requires
        has_newline_before(s, s.len() as int),
    ensures
        exists|k: int| first_newline(s, k),
    decreases s.len(),
{
    let j = choose|j: int| 0 <= j < s.len() && s[j] == 10;
    if has_newline_before(s, j) {
        let j2 = choose|j2: int| 0 <= j2 < j && s[j2] == 10;
        assert(has_newline_before(s.take(j), j)) by {
            assert(s.take(j)[j2] == 10);
        }
        lemma_first_newline_exists(s.take(j));
        let k = choose|k: int| first_newline(s.take(j), k);
        assert(first_newline(s, k)) by {
            assert(s[k] == s.take(j)[k]);
            if has_newline_before(s, k) {
                let i = choose|i: int| 0 <= i < k && s[i] == 10;
                assert(s.take(j)[i] == 10);
            }
        }
    } else {
        assert(first_newline(s, j));
    }
}

proof fn lemma_first_newline_unique(s: Seq<u8>, a: int, b: int)
    requires
        first_newline(s, a),
        first_newline(s, b),
    ensures
        a == b,
{
    if a < b {
        assert(s[a] == 10);
    } else if b < a {
        assert(s[b] == 10);
    }
}

/// However a stream is cut into non-empty reads, the reader gathers the
/// same request: the stream's bytes up to its first line feed.
pub proof fn lemma_reads_gather_the_first_line(chunks: Seq<Seq<u8>>)
    requires
        forall|i: int| 0 <= i < chunks.len() ==> (#[trigger] chunks[i]).len() > 0,
    ensures
        gathered(seq![], chunks) == until_newline(concat(chunks)),
{
    lemma_gathered_prefix(seq![], chunks);
    assert(Seq::<u8>::empty() + until_newline(concat(chunks)) =~= until_newline(concat(chunks)));
}

proof fn lemma_gathered_prefix(out: Seq<u8>, chunks: Seq<Seq<u8>>)
    requires
        forall|i: int| 0 <= i < chunks.len() ==> (#[trigger] chunks[i]).len() > 0,
    ensures
        gathered(out, chunks) == out + until_newline(concat(chunks)),
    decreases chunks.len(),
{
    if chunks.len() == 0 {
        assert(concat(chunks) =~= Seq::<u8>::empty());
        assert(out + Seq::<u8>::empty() =~= out);
    } else {
        let c = chunks[0];
        let rest = chunks.drop_first();
        let whole = concat(chunks);
        assert(whole == c + concat(rest));
        assert(c.len() > 0);
        if has_newline_before(c, c.len() as int) {
            lemma_first_newline_exists(c);
            let k = choose|k: int| first_newline(c, k);
            assert(first_newline(whole, k)) by {
                assert(whole[k] == c[k]);
                if has_newline_before(whole, k) {
                    let i = choose|i: int| 0 <= i < k && whole[i] == 10;
                    assert(c[i] == whole[i]);
                }
            }
            assert(has_newline_before(whole, whole.len() as int)) by {
                assert(whole[k] == 10);
            }
            let k2 = choose|k2: int| first_newline(whole, k2);
            lemma_first_newline_unique(whole, k, k2);
            assert(whole.take(k) =~= c.take(k));
        } else {
            assert forall|i: int| 0 <= i < rest.len() implies (#[trigger] rest[i]).len() > 0 by {
                assert(rest[i] == chunks[i + 1]);
            }
            lemma_gathered_prefix(out + c, rest);
            let tail = concat(rest);
            if has_newline_before(tail, tail.len() as int) {
                lemma_first_newline_exists(tail);
                let k = choose|k: int| first_newline(tail, k);
                let n = c.len() as int;
                assert(first_newline(whole, n + k)) by {
                    assert(whole[n + k] == tail[k]);
                    if has_newline_before(whole, n + k) {
                        let i = choose|i: int| 0 <= i < n + k && whole[i] == 10;
                        if i < n {
                            assert(c[i] == whole[i]);
                        } else {
                            assert(tail[i - n] == whole[i]);
                        }
                    }
                }
                assert(has_newline_before(whole, whole.len() as int)) by {
                    assert(whole[n + k] == 10);
                }
                let k2 = choose|k2: int| first_newline(whole, k2);
                lemma_first_newline_unique(whole, n + k, k2);
                let k3 = choose|k3: int| first_newline(tail, k3);
                lemma_first_newline_unique(tail, k, k3);
                assert(whole.take(n + k) =~= c + tail.take(k));
                assert(out + c + tail.take(k) =~= out + whole.take(n + k));
            } else {
                assert(!has_newline_before(whole, whole.len() as int)) by {
                    if has_newline_before(whole, whole.len() as int) {
                        let i = choose|i: int| 0 <= i < whole.len() && whole[i] == 10;
                        if i < c.len() {
                            assert(c[i] == whole[i]);
                        } else {
                            assert(tail[i - c.len()] == whole[i]);
                        }
                    }
                }
                assert(out + c + tail =~= out + whole);
            }
        }
    }
}

} // verus!
