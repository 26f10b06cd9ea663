//! Incremental log tailing: relay every chunk a read returns, and stop at
//! the first empty read with the number of bytes relayed. Called again on a
//! file reader, it goes on from where the reader stands; that rests on the
//! reader's position, which nothing here models.
use vstd::prelude::*;
use std::io::{Read, Write};
use crate::relay_io::{flush_writer, read_into, write_prefix, FlushReport, ReadReport, WriteReport};

verus! {

/// The largest chunk one read hands over.
pub const CHUNK_SIZE: usize = 8192;

/// std's I/O error, carried through unchanged.
#[verifier::external_type_specification]
#[verifier::external_body]
pub struct ExIoError(std::io::Error);

/// std's `io::Error::other` with the message `message`. Nothing is stated
/// of the error's value.
#[verifier::external_body]
fn other_error(message: &str) -> (e: std::io::Error) {
    std::io::Error::other(message)
}

/// What to do after a read.
#[derive(Debug, Clone, Copy, PartialEq, Eq, Structural)]
pub enum PumpAction {
    /// Write the first `len` bytes that were read, then read again.
    Write(usize),
    /// Nothing more is available: flush the writer and report `total` bytes.
    Finish(u64),
    /// The read reported more bytes than the buffer holds: fail.
    TooLong,
    /// Counting the read would take the total beyond `u64`: fail.
    Overflow,
}

/// The progress of one relay of the available bytes.
pub struct Pump {
    /// The number of bytes relayed so far.
    pub total: u64,
}

impl Pump {
    /// A relay that has moved no byte yet.
    pub fn new() -> (p: Pump)
        ensures
            p.total == 0,
    {
        Pump { total: 0 }
    }

    /// Whether a read of `read_len` bytes can be counted without the total
    /// leaving the range of `u64`.
    pub fn fits(&self, read_len: usize) -> (b: bool)
        ensures
            b == (self.total + read_len <= u64::MAX),
    {
        read_len as u64 <= u64::MAX - self.total
    }

    /// The decision after a read reported `read_len` bytes: at an empty
    /// read, finish with the total; a count larger than the buffer, or one
    /// that would take the total beyond `u64`, is refused; otherwise relay
    /// the bytes, count them, and read on.
    pub fn next(&mut self, read_len: usize) -> (action: PumpAction)
        ensures
            read_len == 0 ==> action == PumpAction::Finish(old(self).total),
            read_len > CHUNK_SIZE ==> action == PumpAction::TooLong,
            0 < read_len <= CHUNK_SIZE && old(self).total + read_len > u64::MAX ==> action
                == PumpAction::Overflow,
            0 < read_len <= CHUNK_SIZE && old(self).total + read_len <= u64::MAX ==> action
                == PumpAction::Write(read_len),
            action is Write ==> final(self).total == old(self).total + read_len,
            !(action is Write) ==> final(self).total == old(self).total,
    {
        if read_len == 0 {
            PumpAction::Finish(self.total)
        } else if read_len > CHUNK_SIZE {
            PumpAction::TooLong
        } else if !self.fits(read_len) {
            PumpAction::Overflow
        } else {
            self.total = self.total + read_len as u64;
            PumpAction::Write(read_len)
        }
    }
}

/// One outside call made while relaying: the report the call handed back,
/// and the result it returned.
pub enum RelayStep {
    /// A read.
    Read(ReadReport, Result<usize, std::io::Error>),
    /// A write.
    Write(WriteReport, Result<(), std::io::Error>),
    /// A flush.
    Flush(FlushReport, Result<(), std::io::Error>),
}

/// The report `rep` is that of a read that returned `read`.
pub open spec fn reports_read(rep: ReadReport, read: Result<usize, std::io::Error>) -> bool {
    match read {
        Ok(n) => rep.count() == Some(n),
        Err(_) => rep.count() is None,
    }
}

/// `steps` is a relay, from `total` bytes relayed so far, that ends with
/// `result`: reads follow one another; the bytes of each non-empty read
/// are written out in full before the next read; the first empty read is
/// followed by one flush, and the relay then ends with the total (the sum
/// of the non-empty read lengths) or the flush's error; a failed read or
/// write ends it with that very error; a read that reports more bytes than
/// the buffer holds, or whose count would overflow `u64`, ends it with an
/// error of the relay's own.
pub open spec fn relay_ok(steps: Seq<RelayStep>, total: int, result: Result<u64, std::io::Error>) -> bool
    decreases steps.len(),
{
    if steps.len() == 0 {
        false
    } else {
        match steps[0] {
            RelayStep::Read(rep, read) => {
                let buf = rep.contents();
                reports_read(rep, read) && match read {
                    Err(e) => {
                        steps.len() == 1 && result == Err::<u64, std::io::Error>(e)
                    },
                    Ok(n) => {
                        if n == 0 {
                            steps.len() == 2 && flush_ends(steps[1], total, result)
                        } else if n > CHUNK_SIZE || total + n > u64::MAX {
                            steps.len() == 1 && (result is Err)
                        } else if steps.len() >= 2 && (steps[1] matches RelayStep::Write(wrep, w)
                            && n <= buf.len() && wrep.bytes() == buf.take(n as int)
                            && wrep.succeeded() == (w is Ok)) {
                            match steps[1] {
                                RelayStep::Write(_, Ok(_)) => relay_ok(steps.skip(2), total + n, result),
                                RelayStep::Write(_, Err(e)) => {
                                    steps.len() == 2 && result == Err::<u64, std::io::Error>(e)
                                },
                                _ => false,
                            }
                        } else {
                            false
                        }
                    },
                }
            },
            _ => false,
        }
    }
}

/// `step` is a flush that ends a relay of `total` bytes with `result`: the
/// total if it succeeded, its error if not.
pub open spec fn flush_ends(step: RelayStep, total: int, result: Result<u64, std::io::Error>) -> bool {
    match step {
        RelayStep::Flush(rep, Ok(_)) => rep.succeeded() && result == Ok::<u64, std::io::Error>(
            total as u64,
        ),
        RelayStep::Flush(rep, Err(e)) => !rep.succeeded() && result == Err::<u64, std::io::Error>(e),
        _ => false,
    }
}

/// Copy all currently-available bytes from `reader` to `writer`, as
/// [`relay_ok`] describes, and give alongside the result an account of the
/// calls it made. Each step of the account holds the report that its call
/// handed back, which no other code can make, so every read, write and
/// flush in it was made, with the outcome it records. A call made and left
/// out of the account is not ruled out.
pub fn relay_available<R: Read, W: Write>(reader: &mut R, writer: &mut W) -> (out: (
    Result<u64, std::io::Error>,
    Ghost<Seq<RelayStep>>,
))
    ensures
        relay_ok(out.1@, 0, out.0),
        out.0 matches Ok(t) ==> written(out.1@) == read_bytes(out.1@) && t == read_bytes(
            out.1@,
        ).len(),
{
    let mut buf = [0u8; 8192];
    let mut pump = Pump::new();
    let ghost mut steps: Seq<RelayStep> = Seq::empty();
    assert forall|rest: Seq<RelayStep>, r: Result<u64, std::io::Error>|
        #[trigger] relay_ok(rest, 0, r) implies relay_ok(steps + rest, 0, r) by {
        assert(steps + rest =~= rest);
    }
    loop
        invariant
            forall|rest: Seq<RelayStep>, r: Result<u64, std::io::Error>|
                #[trigger] relay_ok(rest, pump.total as int, r) ==> relay_ok(steps + rest, 0, r),
        decreases u64::MAX - pump.total,
    {
        let (read, read_rep) = read_into(reader, &mut buf);
        let ghost contents = buf@;
        let ghost read_step = RelayStep::Read(read_rep, read);
        let n = match read {
            Ok(n) => n,
            Err(e) => {
                proof {
                    let tail = seq![read_step];
                    assert(relay_ok(tail, pump.total as int, Err::<u64, std::io::Error>(e)));
                }
                return (Err(e), Ghost(steps + seq![read_step]));
            },
        };
        let before = pump.total;
        match pump.next(n) {
            PumpAction::Write(len) => {
                let (written, write_rep) = write_prefix(writer, &buf, len);
                let ghost write_step = RelayStep::Write(write_rep, written);
                match written {
                    Ok(()) => {
                        proof {
                            let pair = seq![read_step, write_step];
                            assert forall|rest: Seq<RelayStep>, r: Result<u64, std::io::Error>|
                                #[trigger] relay_ok(rest, pump.total as int, r) implies relay_ok(
                                (steps + pair) + rest,
                                0,
                                r,
                            ) by {
                                let tail = pair + rest;
                                assert(tail.skip(2) =~= rest);
                                assert(relay_ok(tail, before as int, r));
                                assert(steps + tail =~= (steps + pair) + rest);
                            }
                            steps = steps + pair;
                        }
                    },
                    Err(e) => {
                        proof {
                            let tail = seq![read_step, write_step];
                            assert(relay_ok(tail, before as int, Err::<u64, std::io::Error>(e)));
                        }
                        return (Err(e), Ghost(steps + seq![read_step, write_step]));
                    },
                }
            },
            PumpAction::TooLong => {
                let e = other_error("a read reported more bytes than its buffer holds");
                proof {
                    let tail = seq![read_step];
                    assert(relay_ok(tail, before as int, Err::<u64, std::io::Error>(e)));
                }
                return (Err(e), Ghost(steps + seq![read_step]));
            },
            PumpAction::Overflow => {
                let e = other_error("relayed byte count overflows u64");
                proof {
                    let tail = seq![read_step];
                    assert(relay_ok(tail, before as int, Err::<u64, std::io::Error>(e)));
                }
                return (Err(e), Ghost(steps + seq![read_step]));
            },
            PumpAction::Finish(total) => {
                let (flushed, flush_rep) = flush_writer(writer);
                let ghost flush_step = RelayStep::Flush(flush_rep, flushed);
                let ghost tail = seq![read_step, flush_step];
                let result = match flushed {
                    Ok(()) => Ok(total),
                    Err(e) => Err(e),
                };
                assert(relay_ok(tail, pump.total as int, result));
                proof {
                    if let Ok(t) = result {
                        lemma_relay_exhausts(steps + tail, t);
                    }
                }
                return (result, Ghost(steps + tail));
            },
        }
    }
}

/// Copy all currently-available bytes from `reader` to `writer`, flushing
/// `writer` afterwards. Returns the number of bytes copied (0 at EOF).
///
/// Its result is that of [`relay_available`]. The contract says only that
/// some account of calls in the shape of [`relay_ok`] ends with this
/// result, which holds of every result; what is stated of the relay stands
/// on [`relay_available`] and on [`Pump::next`].
pub fn pump_available<R: Read, W: Write>(reader: &mut R, writer: &mut W) -> (r: Result<
    u64,
    std::io::Error,
>)
    ensures
        exists|steps: Seq<RelayStep>| relay_ok(steps, 0, r),
{
    let (r, Ghost(steps)) = relay_available(reader, writer);
    r
}

/// The sum of the counts that the successful reads of `steps` reported.
pub open spec fn relayed(steps: Seq<RelayStep>) -> int
    decreases steps.len(),
{
    if steps.len() == 0 {
        0
    } else {
        match steps[0] {
            RelayStep::Read(_, Ok(n)) => n + relayed(steps.drop_first()),
            _ => relayed(steps.drop_first()),
        }
    }
}

/// The bytes that the writes of `steps` handed over, in order.
pub open spec fn written(steps: Seq<RelayStep>) -> Seq<u8>
    decreases steps.len(),
{
    if steps.len() == 0 {
        seq![]
    } else {
        match steps[0] {
            RelayStep::Write(rep, _) => rep.bytes() + written(steps.drop_first()),
            _ => written(steps.drop_first()),
        }
    }
}

/// A relay that succeeds from `total` bytes ends with `total` plus the sum
/// of the counts its reads reported, and has written that many bytes.
pub proof fn lemma_relay_ok_total(steps: Seq<RelayStep>, total: int, t: u64)
    requires
        0 <= total <= u64::MAX,
        relay_ok(steps, total, Ok(t)),
    ensures
        t == total + relayed(steps),
        written(steps).len() == relayed(steps),
    decreases steps.len(),
{
    match steps[0] {
        RelayStep::Read(_, Ok(n)) => {
            let d = steps.drop_first();
            if n == 0 {
                assert(d.drop_first().len() == 0);
                assert(relayed(d.drop_first()) == 0);
                assert(written(d.drop_first()) =~= Seq::<u8>::empty());
                assert(d[0] is Flush);
                assert(relayed(d) == 0);
                assert(written(d).len() == 0);
                assert(relayed(steps) == 0);
            } else {
                let rest = steps.skip(2);
                assert(d.drop_first() =~= rest);
                lemma_relay_ok_total(rest, total + n, t);
                match d[0] {
                    RelayStep::Write(wrep, _) => {
                        assert(wrep.bytes().len() == n);
                        assert(written(d) == wrep.bytes() + written(rest));
                        assert(relayed(d) == relayed(rest));
                    },
                    _ => {},
                }
            }
        },
        _ => {},
    }
}

/// Law: every byte is counted once. When a relay succeeds with `t`, `t` is
/// the sum of the counts its reads reported, and the bytes it wrote number
/// exactly `t`.
pub proof fn lemma_relay_total(steps: Seq<RelayStep>, t: u64)
    requires
        relay_ok(steps, 0, Ok(t)),
    ensures
        t == relayed(steps),
        written(steps).len() == t,
{
    lemma_relay_ok_total(steps, 0, t);
}

/// The bytes that the successful reads of `steps` reported, in order: the
/// first `n` bytes of the buffer after each read that reported `n` bytes.
pub open spec fn read_bytes(steps: Seq<RelayStep>) -> Seq<u8>
    decreases steps.len(),
{
    if steps.len() == 0 {
        seq![]
    } else {
        match steps[0] {
            RelayStep::Read(rep, _) => match rep.count() {
                Some(n) => rep.contents().take(n as int) + read_bytes(steps.drop_first()),
                None => read_bytes(steps.drop_first()),
            },
            _ => read_bytes(steps.drop_first()),
        }
    }
}

/// A relay that succeeds from `total` bytes ends with a read that reported
/// no byte and a successful flush, wrote exactly what its reads reported,
/// and ends with `total` plus their number.
pub proof fn lemma_relay_ok_shape(steps: Seq<RelayStep>, total: int, t: u64)
    requires
        0 <= total <= u64::MAX,
        relay_ok(steps, total, Ok(t)),
    ensures
        steps.len() >= 2,
        steps[steps.len() - 2] matches RelayStep::Read(rep, _) && rep.count() == Some(0usize),
        steps.last() matches RelayStep::Flush(rep, _) && rep.succeeded(),
        written(steps) == read_bytes(steps),
        t == total + read_bytes(steps).len(),
    decreases steps.len(),
{
    match steps[0] {
        RelayStep::Read(rep, Ok(n)) => {
            let d = steps.drop_first();
            if n == 0 {
                assert(d.drop_first().len() == 0);
                assert(read_bytes(d.drop_first()) =~= Seq::<u8>::empty());
                assert(written(d.drop_first()) =~= Seq::<u8>::empty());
                assert(d[0] is Flush);
                assert(read_bytes(d) =~= Seq::<u8>::empty());
                assert(written(d) =~= Seq::<u8>::empty());
                assert(rep.contents().take(0) =~= Seq::<u8>::empty());
                assert(read_bytes(steps) =~= Seq::<u8>::empty());
            } else {
                let rest = steps.skip(2);
                assert(d.drop_first() =~= rest);
                lemma_relay_ok_shape(rest, total + n, t);
                assert(steps[steps.len() - 2] == rest[rest.len() - 2]);
                assert(steps.last() == rest.last());
                match d[0] {
                    RelayStep::Write(wrep, _) => {
                        assert(written(d) == wrep.bytes() + written(rest));
                        assert(read_bytes(d) == read_bytes(rest));
                        assert(wrep.bytes() == rep.contents().take(n as int));
                    },
                    _ => {},
                }
            }
        },
        _ => {},
    }
}

/// Law: a successful relay exhausts the reader and relays all it read. When
/// a relay ends with `Ok(t)`, its last read is a read that was made and
/// reported no byte, followed by a flush that succeeded; the bytes it wrote
/// are exactly the bytes its reads reported, in order; and `t` is their
/// number.
pub proof fn lemma_relay_exhausts(steps: Seq<RelayStep>, t: u64)
    requires
        relay_ok(steps, 0, Ok(t)),
    ensures
        steps.len() >= 2,
        steps[steps.len() - 2] matches RelayStep::Read(rep, _) && rep.count() == Some(0usize),
        steps.last() matches RelayStep::Flush(rep, _) && rep.succeeded(),
        written(steps) == read_bytes(steps),
        t == read_bytes(steps).len(),
{
    lemma_relay_ok_shape(steps, 0, t);
}

} // verus!
