//! The outside calls a relay makes, each handing back, beside its result, a
//! report of what came of it. A report is had only from the call it reports
//! on: its fields are private to this module and what it says is closed, so
//! an account of a relay made of reports lists only calls that were made.
use vstd::prelude::*;
use std::io::{Read, Write};

verus! {

/// What one read reported.
pub struct ReadReport {
    count: Ghost<Option<usize>>,
    contents: Ghost<Seq<u8>>,
}

impl ReadReport {
    /// The number of bytes the read reported, `None` if it failed.
    pub closed spec fn count(self) -> Option<usize> {
        self.count@
    }

    /// The contents of the buffer after the read.
    pub closed spec fn contents(self) -> Seq<u8> {
        self.contents@
    }
}

/// What one write handed over, and whether it succeeded.
pub struct WriteReport {
    bytes: Ghost<Seq<u8>>,
    succeeded: Ghost<bool>,
}

impl WriteReport {
    /// The bytes handed to the writer.
    pub closed spec fn bytes(self) -> Seq<u8> {
        self.bytes@
    }

    /// Whether the write succeeded.
    pub closed spec fn succeeded(self) -> bool {
        self.succeeded@
    }
}

/// Whether one flush succeeded.
pub struct FlushReport {
    succeeded: Ghost<bool>,
}

impl FlushReport {
    /// Whether the flush succeeded.
    pub closed spec fn succeeded(self) -> bool {
        self.succeeded@
    }
}

/// std's `Read::read` into `buf`. Nothing is stated of its outcome: how
/// many bytes it reports, and what it leaves in `buf`, depend on the
/// reader. The report records the count it returned and the buffer after it.
#[verifier::external_body]
pub(crate) fn read_into<R: Read>(reader: &mut R, buf: &mut [u8; 8192]) -> (out: (
    Result<usize, std::io::Error>,
    ReadReport,
))
    ensures
        out.0 matches Ok(n) ==> out.1.count() == Some(n),
        out.0 is Err ==> out.1.count() is None,
        out.1.contents() == final(buf)@,
{
    let r = reader.read(buf);
    let count = match &r {
        Ok(n) => Some(*n),
        Err(_) => None,
    };
    (r, ReadReport { count: Ghost(count), contents: Ghost(buf@) })
}

/// std's `Write::write_all` of the first `len` bytes of `buf`. Nothing is
/// stated of what the writer does with them. The report records the bytes
/// handed over and whether the call succeeded.
#[verifier::external_body]
pub(crate) fn write_prefix<W: Write>(writer: &mut W, buf: &[u8; 8192], len: usize) -> (out: (
    Result<(), std::io::Error>,
    WriteReport,
))
    requires
        len <= 8192,
    ensures
        out.1.bytes() == buf@.take(len as int),
        out.1.succeeded() == (out.0 is Ok),
{
    let r = writer.write_all(&buf[..len]);
    let ok = r.is_ok();
    (r, WriteReport { bytes: Ghost(buf@.take(len as int)), succeeded: Ghost(ok) })
}

/// std's `Write::flush`. Nothing is stated of its outcome. The report
/// records whether it succeeded.
#[verifier::external_body]
pub(crate) fn flush_writer<W: Write>(writer: &mut W) -> (out: (
    Result<(), std::io::Error>,
    FlushReport,
))
    ensures
        out.1.succeeded() == (out.0 is Ok),
{
    let r = writer.flush();
    let ok = r.is_ok();
    (r, FlushReport { succeeded: Ghost(ok) })
}

} // verus!
