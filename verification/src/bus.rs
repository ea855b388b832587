//! Abstract two-wire register bus, the transport the NVM controller drives.
//!
//! The driver core never performs I/O itself: it is generic over an
//! implementation of [`NvmBus`], exactly two primitives wide — write one byte
//! to an 8-bit register address, and write/read an 8-byte burst at a buffer
//! register. Each bus value carries a ghost history of the transactions it
//! has completed, and every contract of the controller is stated as "on
//! success, the history grew by exactly this register sequence".

use vstd::prelude::*;

verus! {

/// One completed transaction on the serial bus, oldest first in a history.
pub enum BusOp {
    /// One byte written to a register address.
    WriteReg { reg: u8, value: u8 },
    /// One byte read back from a register address.
    ReadReg { reg: u8, value: u8 },
    /// An 8-byte burst written to a buffer register.
    WriteBuf { reg: u8, data: Seq<u8> },
    /// An 8-byte burst read back from a buffer register.
    ReadBuf { reg: u8, data: Seq<u8> },
}

/// Register-bus port. Implementations perform the actual I/O (an I2C adapter,
/// a simulated device); the driver is verified against the history each
/// method promises to append.
///
/// A failed transaction aborts whatever operation was in progress; nothing is
/// promised about the history in that case.
pub trait NvmBus: Sized {
    type BusError;

    /// Ghost history of the transactions this bus has completed. The
    /// default body lets implementations that live outside any proof (a
    /// real I2C adapter, a test double) leave the ghost state implicit; an
    /// implementation verified against this trait defines it.
    open spec fn log(&self) -> Seq<BusOp> {
        Seq::empty()
    }

    /// Write one byte to an 8-bit register address.
    fn write_register(&mut self, reg: u8, value: u8) -> (r: Result<(), Self::BusError>)
        ensures
            r is Ok ==> final(self).log() == old(self).log().push(
                (BusOp::WriteReg { reg, value }),
            ),
    ;

    /// Read one byte back from an 8-bit register address.
    fn read_register(&mut self, reg: u8) -> (r: Result<u8, Self::BusError>)
        ensures
            r matches Ok(v) ==> final(self).log() == old(self).log().push(
                (BusOp::ReadReg { reg, value: v }),
            ),
    ;

    /// Write an 8-byte burst to a buffer register.
    fn write_buffer(&mut self, reg: u8, data: &[u8; 8]) -> (r: Result<(), Self::BusError>)
        ensures
            r is Ok ==> final(self).log() == old(self).log().push(
                (BusOp::WriteBuf { reg, data: data@ }),
            ),
    ;

    /// Read an 8-byte burst back from a buffer register.
    fn read_buffer(&mut self, reg: u8) -> (r: Result<[u8; 8], Self::BusError>)
        ensures
            r matches Ok(d) ==> final(self).log() == old(self).log().push(
                (BusOp::ReadBuf { reg, data: d@ }),
            ),
    ;
}

/// Failure of a driver operation.
#[derive(Debug)]
pub enum Error<E> {
    /// The underlying bus transaction failed.
    Bus(E),
    /// The device did not clear the request flag within the polling budget.
    Timeout,
}

/// `post` is `pre` with zero or more transactions appended.
pub open spec fn log_extends(post: Seq<BusOp>, pre: Seq<BusOp>) -> bool {
    &&& pre.len() <= post.len()
    &&& post.take(pre.len() as int) == pre
}

/// The transactions `post` appended to `pre`.
pub open spec fn log_delta(post: Seq<BusOp>, pre: Seq<BusOp>) -> Seq<BusOp> {
    post.skip(pre.len() as int)
}

/// Growing a history is transitive, and the transactions added over two steps
/// are the two deltas in order.
pub proof fn lemma_log_extends_trans(c: Seq<BusOp>, b: Seq<BusOp>, a: Seq<BusOp>)
    requires
        log_extends(c, b),
        log_extends(b, a),
    ensures
        log_extends(c, a),
        log_delta(c, a) == log_delta(b, a) + log_delta(c, b),
{
    assert forall|i: int| 0 <= i < b.len() implies c[i] == b[i] by {
        assert(b[i] == c.take(b.len() as int)[i]);
    }
    assert(c.take(a.len() as int) =~= a);
    assert(log_delta(c, a) =~= log_delta(b, a) + log_delta(c, b));
}

/// Pushing one transaction extends the history by exactly that transaction.
pub proof fn lemma_log_push(pre: Seq<BusOp>, op: BusOp)
    ensures
        log_extends(pre.push(op), pre),
        log_delta(pre.push(op), pre) == seq![op],
{
    assert(pre.push(op).take(pre.len() as int) =~= pre);
    assert(log_delta(pre.push(op), pre) =~= seq![op]);
}

} // verus!
