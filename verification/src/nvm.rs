//! NVM programming protocol of the sink controller.
//!
//! The chip's 40-byte non-volatile configuration is organized as 5 sectors
//! of 8 bytes, programmed through a password-gated register state machine:
//! unlock, then per micro-operation select an opcode in control register 1,
//! pulse the request flag in control register 0 and poll until the device
//! clears it, and finally re-lock. Every operation's contract pins the exact
//! register sequence it appends to the bus history.

use vstd::prelude::*;

use crate::bus::{
    lemma_log_extends_trans, lemma_log_push, log_delta, log_extends, BusOp, Error, NvmBus,
};

verus! {

// Register addresses, fixed by the hardware.
pub const REG_NVM_PASSWORD: u8 = 0x95;
pub const REG_NVM_CTRL0: u8 = 0x96;
pub const REG_NVM_CTRL1: u8 = 0x97;
pub const REG_RW_BUFFER: u8 = 0x53;

/// Factory password that opens the NVM for programming.
pub const NVM_DEFAULT_PASSWORD: u8 = 0x47;

// Flags of NVM control register 0; its low three bits select a sector.
pub const CTRL0_POWER: u8 = 0x80;
pub const CTRL0_ENABLE: u8 = 0x40;
pub const CTRL0_REQUEST: u8 = 0x10;
pub const CTRL0_SECTOR_MASK: u8 = 0x07;

// Opcodes written to NVM control register 1.
pub const OPCODE_READ_SECTOR: u8 = 0x00;
pub const OPCODE_LOAD_PLR: u8 = 0x01;
pub const OPCODE_LOAD_SER: u8 = 0x02;
pub const OPCODE_ERASE_SECTORS: u8 = 0x05;
pub const OPCODE_WRITE_SECTOR: u8 = 0x06;

// Per-sector erase flags, OR'd into control register 1 with the LoadSer
// opcode.
pub const ERASE_SECTOR_0: u8 = 0x08;
pub const ERASE_SECTOR_1: u8 = 0x10;
pub const ERASE_SECTOR_2: u8 = 0x20;
pub const ERASE_SECTOR_3: u8 = 0x40;
pub const ERASE_SECTOR_4: u8 = 0x80;
pub const ERASE_ALL_SECTORS: u8 = ERASE_SECTOR_0 | ERASE_SECTOR_1 | ERASE_SECTOR_2
    | ERASE_SECTOR_3 | ERASE_SECTOR_4;

/// Number of NVM sectors.
pub const SECTOR_COUNT: u8 = 5;

/// Polling budget of one request handshake: an unresponsive device makes the
/// operation fail with [`Error::Timeout`] instead of hanging.
pub const MAX_POLL_ATTEMPTS: u32 = 100;

/// Byte written to control register 0 to trigger a micro-operation on
/// `sector`.
pub open spec fn request_command(sector: u8) -> u8 {
    sector | CTRL0_POWER | CTRL0_ENABLE | CTRL0_REQUEST
}

/// A poll of control register 0 that read the request flag still set.
pub open spec fn is_pending_poll(op: BusOp) -> bool {
    match op {
        BusOp::ReadReg { reg, value } => reg == REG_NVM_CTRL0 && value & CTRL0_REQUEST != 0,
        _ => false,
    }
}

/// A poll of control register 0 that read the request flag clear.
pub open spec fn is_final_poll(op: BusOp) -> bool {
    match op {
        BusOp::ReadReg { reg, value } => reg == REG_NVM_CTRL0 && value & CTRL0_REQUEST == 0,
        _ => false,
    }
}

/// A completed poll phase: at most the polling budget of reads of control
/// register 0, all but the last still pending, the last one clear.
pub open spec fn is_poll_seq(s: Seq<BusOp>) -> bool {
    &&& 1 <= s.len() <= MAX_POLL_ATTEMPTS
    &&& forall|i: int| 0 <= i < s.len() - 1 ==> is_pending_poll(#[trigger] s[i])
    &&& is_final_poll(s.last())
}

/// One completed request handshake for `sector`: the trigger write followed
/// by a successful poll phase.
pub open spec fn is_request_seq(s: Seq<BusOp>, sector: u8) -> bool {
    &&& s.len() >= 2
    &&& s[0] == (BusOp::WriteReg { reg: REG_NVM_CTRL0, value: request_command(sector) })
    &&& is_poll_seq(s.skip(1))
}

/// A request handshake that exhausted the whole polling budget without the
/// device ever clearing the request flag.
pub open spec fn is_exhausted_request_seq(s: Seq<BusOp>, sector: u8) -> bool {
    &&& s.len() == 1 + MAX_POLL_ATTEMPTS
    &&& s[0] == (BusOp::WriteReg { reg: REG_NVM_CTRL0, value: request_command(sector) })
    &&& forall|i: int| 1 <= i < s.len() ==> is_pending_poll(#[trigger] s[i])
}

/// Polling is bounded: a completed request handshake holds at most the
/// polling budget of reads after its trigger write, and an exhausted one
/// holds exactly the budget, so no operation spins forever on an
/// unresponsive device.
pub proof fn lemma_request_polling_bounded(s: Seq<BusOp>, sector: u8)
    requires
        is_request_seq(s, sector) || is_exhausted_request_seq(s, sector),
    ensures
        s.len() <= 1 + MAX_POLL_ATTEMPTS,
{
}

/// The unlock sequence: factory password, clear control register 0, then
/// power up and enable the NVM interface.
pub open spec fn is_unlock_seq(s: Seq<BusOp>) -> bool {
    s == seq![
        (BusOp::WriteReg { reg: REG_NVM_PASSWORD, value: NVM_DEFAULT_PASSWORD }),
        (BusOp::WriteReg { reg: REG_NVM_CTRL0, value: 0x00 }),
        (BusOp::WriteReg { reg: REG_NVM_CTRL0, value: CTRL0_POWER | CTRL0_ENABLE }),
    ]
}

/// The lock sequence: drop power and request, clear the opcode register,
/// clear the password.
pub open spec fn is_lock_seq(s: Seq<BusOp>) -> bool {
    s == seq![
        (BusOp::WriteReg { reg: REG_NVM_CTRL0, value: CTRL0_ENABLE }),
        (BusOp::WriteReg { reg: REG_NVM_CTRL1, value: 0x00 }),
        (BusOp::WriteReg { reg: REG_NVM_PASSWORD, value: 0x00 }),
    ]
}

/// One sector read: select the read opcode, complete a request handshake for
/// `sector`, then burst-read `data` from the buffer register.
pub open spec fn is_read_sector_seq(s: Seq<BusOp>, sector: u8, data: Seq<u8>) -> bool {
    &&& s.len() >= 4
    &&& s[0] == (BusOp::WriteReg { reg: REG_NVM_CTRL1, value: OPCODE_READ_SECTOR })
    &&& is_request_seq(s.subrange(1, s.len() - 1), sector)
    &&& s.last() == (BusOp::ReadBuf { reg: REG_RW_BUFFER, data })
}

/// Decomposition witness for [`is_write_sector_seq`]: `k` is the position of
/// the write-sector opcode between the two handshakes.
pub open spec fn is_write_sector_seq_at(s: Seq<BusOp>, sector: u8, data: Seq<u8>, k: int) -> bool {
    &&& 2 < k < s.len()
    &&& s[0] == (BusOp::WriteBuf { reg: REG_RW_BUFFER, data })
    &&& s[1] == (BusOp::WriteReg { reg: REG_NVM_CTRL1, value: OPCODE_LOAD_PLR })
    &&& is_request_seq(s.subrange(2, k), 0)
    &&& s[k] == (BusOp::WriteReg { reg: REG_NVM_CTRL1, value: OPCODE_WRITE_SECTOR })
    &&& is_request_seq(s.skip(k + 1), sector)
}

/// One sector program: burst-write `data` to the buffer register, load it
/// into the partial-load register, then program it into `sector`, each step
/// synchronized by a request handshake.
pub open spec fn is_write_sector_seq(s: Seq<BusOp>, sector: u8, data: Seq<u8>) -> bool {
    exists|k: int| is_write_sector_seq_at(s, sector, data, k)
}

/// Decomposition witness for [`is_erase_seq`]: `k` is the position of the
/// erase opcode between the two handshakes.
pub open spec fn is_erase_seq_at(s: Seq<BusOp>, k: int) -> bool {
    &&& 1 < k < s.len()
    &&& s[0] == (BusOp::WriteReg {
        reg: REG_NVM_CTRL1,
        value: OPCODE_LOAD_SER | ERASE_ALL_SECTORS,
    })
    &&& is_request_seq(s.subrange(1, k), 0)
    &&& s[k] == (BusOp::WriteReg { reg: REG_NVM_CTRL1, value: OPCODE_ERASE_SECTORS })
    &&& is_request_seq(s.skip(k + 1), 0)
}

/// Whole-image erase: load the erase mask naming all five sectors, then the
/// erase opcode, each step synchronized by a request handshake.
pub open spec fn is_erase_seq(s: Seq<BusOp>) -> bool {
    exists|k: int| is_erase_seq_at(s, k)
}

/// `s` is the back-to-back sector reads of `img[lo]`, `img[lo + 1]`, ...
/// up to the end of `img`, in ascending sector order.
pub open spec fn is_read_chunks(s: Seq<BusOp>, img: Seq<Seq<u8>>, lo: int) -> bool
    decreases img.len() - lo,
{
    if lo < 0 || lo >= img.len() {
        s.len() == 0
    } else {
        exists|k: int|
            #![trigger s.subrange(0, k)]
            {
                &&& 0 < k <= s.len()
                &&& is_read_sector_seq(s.subrange(0, k), lo as u8, img[lo])
                &&& is_read_chunks(s.skip(k), img, lo + 1)
            }
    }
}

/// `s` is the back-to-back sector programs of `img[lo]`, `img[lo + 1]`, ...
/// up to the end of `img`, in ascending sector order.
pub open spec fn is_write_chunks(s: Seq<BusOp>, img: Seq<Seq<u8>>, lo: int) -> bool
    decreases img.len() - lo,
{
    if lo < 0 || lo >= img.len() {
        s.len() == 0
    } else {
        exists|k: int|
            #![trigger s.subrange(0, k)]
            {
                &&& 0 < k <= s.len()
                &&& is_write_sector_seq(s.subrange(0, k), lo as u8, img[lo])
                &&& is_write_chunks(s.skip(k), img, lo + 1)
            }
    }
}

/// A full image read: the five sector reads in ascending order, returning
/// the five 8-byte sectors of `img`.
pub open spec fn is_read_sectors_seq(s: Seq<BusOp>, img: Seq<Seq<u8>>) -> bool {
    &&& img.len() == SECTOR_COUNT
    &&& is_read_chunks(s, img, 0)
}

/// A full image write: a whole-image erase followed by the five sector
/// programs in ascending order.
pub open spec fn is_write_sectors_seq(s: Seq<BusOp>, img: Seq<Seq<u8>>) -> bool {
    &&& img.len() == SECTOR_COUNT
    &&& exists|k: int|
        #![trigger s.subrange(0, k)]
        {
            &&& 0 < k <= s.len()
            &&& is_erase_seq(s.subrange(0, k))
            &&& is_write_chunks(s.skip(k), img, 0)
        }
}

/// Appending one more sector read to a run of back-to-back sector reads
/// gives a run for the image extended by the sector just read.
proof fn lemma_read_chunks_snoc(s: Seq<BusOp>, t: Seq<BusOp>, img: Seq<Seq<u8>>, d: Seq<u8>, lo: int)
    requires
        0 <= lo <= img.len(),
        img.len() < 256,
        is_read_chunks(s, img, lo),
        is_read_sector_seq(t, img.len() as u8, d),
    ensures
        is_read_chunks(s + t, img.push(d), lo),
    decreases img.len() - lo,
{
    if lo == img.len() {
        assert(s + t =~= t);
        assert(t.subrange(0, t.len() as int) =~= t);
        assert(t.skip(t.len() as int) =~= Seq::<BusOp>::empty());
        assert(is_read_chunks(t.skip(t.len() as int), img.push(d), lo + 1));
        assert(img.push(d)[lo] == d);
        assert(is_read_sector_seq((s + t).subrange(0, t.len() as int), lo as u8, img.push(d)[lo]));
        assert(is_read_chunks(s + t, img.push(d), lo));
    } else {
        let k = choose|k: int|
            #![trigger s.subrange(0, k)]
            {
                &&& 0 < k <= s.len()
                &&& is_read_sector_seq(s.subrange(0, k), lo as u8, img[lo])
                &&& is_read_chunks(s.skip(k), img, lo + 1)
            };
        assert((s + t).subrange(0, k) =~= s.subrange(0, k));
        assert((s + t).skip(k) =~= s.skip(k) + t);
        lemma_read_chunks_snoc(s.skip(k), t, img, d, lo + 1);
        assert(is_read_sector_seq((s + t).subrange(0, k), lo as u8, img.push(d)[lo]));
        assert(is_read_chunks((s + t).skip(k), img.push(d), lo + 1));
        assert(is_read_chunks(s + t, img.push(d), lo));
    }
}

/// Appending one more sector program to a run of back-to-back sector
/// programs gives a run for the image extended by the sector just written.
proof fn lemma_write_chunks_snoc(
    s: Seq<BusOp>,
    t: Seq<BusOp>,
    img: Seq<Seq<u8>>,
    d: Seq<u8>,
    lo: int,
)
    requires
        0 <= lo <= img.len(),
        img.len() < 256,
        is_write_chunks(s, img, lo),
        is_write_sector_seq(t, img.len() as u8, d),
        t.len() > 0,
    ensures
        is_write_chunks(s + t, img.push(d), lo),
    decreases img.len() - lo,
{
    if lo == img.len() {
        assert(s + t =~= t);
        assert(t.subrange(0, t.len() as int) =~= t);
        assert(t.skip(t.len() as int) =~= Seq::<BusOp>::empty());
        assert(is_write_chunks(t.skip(t.len() as int), img.push(d), lo + 1));
        assert(img.push(d)[lo] == d);
        assert(is_write_sector_seq((s + t).subrange(0, t.len() as int), lo as u8, img.push(d)[lo]));
        assert(is_write_chunks(s + t, img.push(d), lo));
    } else {
        let k = choose|k: int|
            #![trigger s.subrange(0, k)]
            {
                &&& 0 < k <= s.len()
                &&& is_write_sector_seq(s.subrange(0, k), lo as u8, img[lo])
                &&& is_write_chunks(s.skip(k), img, lo + 1)
            };
        assert((s + t).subrange(0, k) =~= s.subrange(0, k));
        assert((s + t).skip(k) =~= s.skip(k) + t);
        lemma_write_chunks_snoc(s.skip(k), t, img, d, lo + 1);
        assert(is_write_sector_seq((s + t).subrange(0, k), lo as u8, img.push(d)[lo]));
        assert(is_write_chunks((s + t).skip(k), img.push(d), lo + 1));
        assert(is_write_chunks(s + t, img.push(d), lo));
    }
}

/// An open NVM programming session.
///
/// A session exists only between a successful [`STUSB4500Nvm::unlock`] and
/// the consuming [`STUSB4500Nvm::lock`]; it owns the bus for its whole
/// lifetime, so no other traffic can interleave with the programming
/// sequence. Its view is the bus history.
pub struct STUSB4500Nvm<B: NvmBus> {
    bus: B,
}

impl<B: NvmBus> View for STUSB4500Nvm<B> {
    type V = Seq<BusOp>;

    closed spec fn view(&self) -> Seq<BusOp> {
        self.bus.log()
    }
}

impl<B: NvmBus> STUSB4500Nvm<B> {
    fn write_reg(&mut self, reg: u8, value: u8) -> (r: Result<(), Error<B::BusError>>)
        ensures
            r is Ok ==> final(self)@ == old(self)@.push((BusOp::WriteReg { reg, value })),
            r matches Err(e) ==> e is Bus,
    {
        match self.bus.write_register(reg, value) {
            Ok(()) => Ok(()),
            Err(e) => Err(Error::Bus(e)),
        }
    }

    fn read_reg(&mut self, reg: u8) -> (r: Result<u8, Error<B::BusError>>)
        ensures
            r matches Ok(v) ==> final(self)@ == old(self)@.push(
                (BusOp::ReadReg { reg, value: v }),
            ),
            r matches Err(e) ==> e is Bus,
    {
        match self.bus.read_register(reg) {
            Ok(v) => Ok(v),
            Err(e) => Err(Error::Bus(e)),
        }
    }

    fn write_buf(&mut self, reg: u8, data: &[u8; 8]) -> (r: Result<(), Error<B::BusError>>)
        ensures
            r is Ok ==> final(self)@ == old(self)@.push((BusOp::WriteBuf { reg, data: data@ })),
            r matches Err(e) ==> e is Bus,
    {
        match self.bus.write_buffer(reg, data) {
            Ok(()) => Ok(()),
            Err(e) => Err(Error::Bus(e)),
        }
    }

    fn read_buf(&mut self, reg: u8) -> (r: Result<[u8; 8], Error<B::BusError>>)
        ensures
            r matches Ok(d) ==> final(self)@ == old(self)@.push(
                (BusOp::ReadBuf { reg, data: d@ }),
            ),
            r matches Err(e) ==> e is Bus,
    {
        match self.bus.read_buffer(reg) {
            Ok(d) => Ok(d),
            Err(e) => Err(Error::Bus(e)),
        }
    }

    /// Trigger the micro-operation selected by control register 1 on
    /// `sector`, then poll until the device clears the request flag, up to
    /// the polling budget.
    #[verifier::loop_isolation(false)]
    fn issue_request_with_sector(&mut self, sector: u8) -> (r: Result<(), Error<B::BusError>>)
        requires
            sector < SECTOR_COUNT,
        ensures
            r is Ok ==> log_extends(final(self)@, old(self)@) && is_request_seq(
                log_delta(final(self)@, old(self)@),
                sector,
            ),
            r matches Err(e) && e is Timeout ==> log_extends(final(self)@, old(self)@)
                && is_exhausted_request_seq(log_delta(final(self)@, old(self)@), sector),
    {
        let cmd: u8 = sector | CTRL0_POWER | CTRL0_ENABLE | CTRL0_REQUEST;
        match self.write_reg(REG_NVM_CTRL0, cmd) {
            Ok(()) => {},
            Err(e) => {
                return Err(e);
            },
        }
        let ghost l0 = old(self)@;
        let ghost l1 = self@;
        proof {
            lemma_log_push(l0, (BusOp::WriteReg { reg: REG_NVM_CTRL0, value: cmd }));
            assert(self@.take(l1.len() as int) =~= l1);
        }
        let mut attempts: u32 = 0;
        loop
            invariant
                attempts < MAX_POLL_ATTEMPTS,
                l1 == l0.push((BusOp::WriteReg { reg: REG_NVM_CTRL0, value: request_command(sector) })),
                log_extends(self@, l1),
                log_delta(self@, l1).len() == attempts,
                forall|i: int| 0 <= i < attempts ==> is_pending_poll(
                    #[trigger] log_delta(self@, l1)[i],
                ),
            decreases MAX_POLL_ATTEMPTS - attempts,
        {
            let ghost lp = self@;
            let v: u8 = match self.read_reg(REG_NVM_CTRL0) {
                Ok(v) => v,
                Err(e) => {
                    return Err(e);
                },
            };
            proof {
                lemma_log_push(lp, (BusOp::ReadReg { reg: REG_NVM_CTRL0, value: v }));
                lemma_log_extends_trans(self@, lp, l1);
                assert(log_delta(self@, l1) =~= log_delta(lp, l1).push(
                    (BusOp::ReadReg { reg: REG_NVM_CTRL0, value: v }),
                ));
            }
            if v & CTRL0_REQUEST == 0 {
                proof {
                    let polls = log_delta(self@, l1);
                    assert(is_final_poll(polls.last()));
                    assert(is_poll_seq(polls));
                    lemma_log_extends_trans(self@, l1, l0);
                    assert(log_delta(self@, l0) =~= seq![
                        (BusOp::WriteReg { reg: REG_NVM_CTRL0, value: request_command(sector) }),
                    ] + polls);
                    assert(log_delta(self@, l0).skip(1) =~= polls);
                    assert(is_request_seq(log_delta(self@, l0), sector));
                }
                return Ok(());
            }
            if attempts == MAX_POLL_ATTEMPTS - 1 {
                proof {
                    let polls = log_delta(self@, l1);
                    lemma_log_extends_trans(self@, l1, l0);
                    let d = log_delta(self@, l0);
                    assert(d =~= seq![
                        (BusOp::WriteReg { reg: REG_NVM_CTRL0, value: request_command(sector) }),
                    ] + polls);
                    assert forall|i: int| 1 <= i < d.len() implies is_pending_poll(d[i]) by {
                        assert(d[i] == polls[i - 1]);
                    }
                    assert(is_exhausted_request_seq(d, sector));
                }
                return Err(Error::Timeout);
            }
            attempts = attempts + 1;
        }
    }

    /// Request handshake for operations whose sector argument the hardware
    /// ignores; sector zero is always named.
    fn issue_request(&mut self) -> (r: Result<(), Error<B::BusError>>)
        ensures
            r is Ok ==> log_extends(final(self)@, old(self)@) && is_request_seq(
                log_delta(final(self)@, old(self)@),
                0,
            ),
    {
        self.issue_request_with_sector(0)
    }

    /// Unlock the NVM for programming with the factory password, taking
    /// exclusive ownership of the bus for the lifetime of the session.
    pub fn unlock(bus: B) -> (r: Result<STUSB4500Nvm<B>, Error<B::BusError>>)
        ensures
            r matches Ok(nvm) ==> log_extends(nvm@, bus.log()) && is_unlock_seq(
                log_delta(nvm@, bus.log()),
            ),
            r matches Err(e) ==> e is Bus,
    {
        let ghost l0 = bus.log();
        let mut b = bus;
        match b.write_register(REG_NVM_PASSWORD, NVM_DEFAULT_PASSWORD) {
            Ok(()) => {},
            Err(e) => {
                return Err(Error::Bus(e));
            },
        }
        match b.write_register(REG_NVM_CTRL0, 0x00) {
            Ok(()) => {},
            Err(e) => {
                return Err(Error::Bus(e));
            },
        }
        match b.write_register(REG_NVM_CTRL0, CTRL0_POWER | CTRL0_ENABLE) {
            Ok(()) => {},
            Err(e) => {
                return Err(Error::Bus(e));
            },
        }
        proof {
            assert(b.log().take(l0.len() as int) =~= l0);
            assert(log_delta(b.log(), l0) =~= seq![
                (BusOp::WriteReg { reg: REG_NVM_PASSWORD, value: NVM_DEFAULT_PASSWORD }),
                (BusOp::WriteReg { reg: REG_NVM_CTRL0, value: 0x00 }),
                (BusOp::WriteReg { reg: REG_NVM_CTRL0, value: CTRL0_POWER | CTRL0_ENABLE }),
            ]);
        }
        Ok(STUSB4500Nvm { bus: b })
    }

    /// Read the 8 bytes of one sector through the indirect buffer register.
    fn read_sector(&mut self, sector: u8) -> (r: Result<[u8; 8], Error<B::BusError>>)
        requires
            sector < SECTOR_COUNT,
        ensures
            r matches Ok(data) ==> log_extends(final(self)@, old(self)@) && is_read_sector_seq(
                log_delta(final(self)@, old(self)@),
                sector,
                data@,
            ),
    {
        let ghost l0 = self@;
        match self.write_reg(REG_NVM_CTRL1, OPCODE_READ_SECTOR) {
            Ok(()) => {},
            Err(e) => {
                return Err(e);
            },
        }
        let ghost l1 = self@;
        match self.issue_request_with_sector(sector) {
            Ok(()) => {},
            Err(e) => {
                return Err(e);
            },
        }
        let ghost l2 = self@;
        let data: [u8; 8] = match self.read_buf(REG_RW_BUFFER) {
            Ok(d) => d,
            Err(e) => {
                return Err(e);
            },
        };
        proof {
            let w = (BusOp::WriteReg { reg: REG_NVM_CTRL1, value: OPCODE_READ_SECTOR });
            let rb = (BusOp::ReadBuf { reg: REG_RW_BUFFER, data: data@ });
            lemma_log_push(l0, w);
            lemma_log_push(l2, rb);
            lemma_log_extends_trans(l2, l1, l0);
            lemma_log_extends_trans(self@, l2, l0);
            let dreq = log_delta(l2, l1);
            let d = log_delta(self@, l0);
            assert(d =~= seq![w] + dreq + seq![rb]);
            assert(d.subrange(1, d.len() - 1) =~= dreq);
            assert(d.last() == rb);
            assert(is_read_sector_seq(d, sector, data@));
        }
        Ok(data)
    }

    /// Program the 8 bytes of `data` into one sector: load the bytes through
    /// the buffer register into the partial-load register, then program the
    /// sector from it.
    fn write_sector(&mut self, sector: u8, data: &[u8; 8]) -> (r: Result<(), Error<B::BusError>>)
        requires
            sector < SECTOR_COUNT,
        ensures
            r is Ok ==> log_extends(final(self)@, old(self)@) && is_write_sector_seq(
                log_delta(final(self)@, old(self)@),
                sector,
                data@,
            ),
    {
        let ghost l0 = self@;
        match self.write_buf(REG_RW_BUFFER, data) {
            Ok(()) => {},
            Err(e) => {
                return Err(e);
            },
        }
        let ghost l1 = self@;
        match self.write_reg(REG_NVM_CTRL1, OPCODE_LOAD_PLR) {
            Ok(()) => {},
            Err(e) => {
                return Err(e);
            },
        }
        let ghost l2 = self@;
        match self.issue_request() {
            Ok(()) => {},
            Err(e) => {
                return Err(e);
            },
        }
        let ghost l3 = self@;
        match self.write_reg(REG_NVM_CTRL1, OPCODE_WRITE_SECTOR) {
            Ok(()) => {},
            Err(e) => {
                return Err(e);
            },
        }
        let ghost l4 = self@;
        match self.issue_request_with_sector(sector) {
            Ok(()) => {},
            Err(e) => {
                return Err(e);
            },
        }
        proof {
            let wb = (BusOp::WriteBuf { reg: REG_RW_BUFFER, data: data@ });
            let wplr = (BusOp::WriteReg { reg: REG_NVM_CTRL1, value: OPCODE_LOAD_PLR });
            let wws = (BusOp::WriteReg { reg: REG_NVM_CTRL1, value: OPCODE_WRITE_SECTOR });
            lemma_log_push(l0, wb);
            lemma_log_push(l1, wplr);
            lemma_log_push(l3, wws);
            lemma_log_extends_trans(l2, l1, l0);
            lemma_log_extends_trans(l3, l2, l0);
            lemma_log_extends_trans(l4, l3, l0);
            lemma_log_extends_trans(self@, l4, l0);
            let dreq0 = log_delta(l3, l2);
            let dreqs = log_delta(self@, l4);
            let d = log_delta(self@, l0);
            assert(d =~= seq![wb, wplr] + dreq0 + seq![wws] + dreqs);
            let k = 2 + dreq0.len() as int;
            assert(d.subrange(2, k) =~= dreq0);
            assert(d[k] == wws);
            assert(d.skip(k + 1) =~= dreqs);
            assert(is_write_sector_seq_at(d, sector, data@, k));
            assert(is_write_sector_seq(d, sector, data@));
        }
        Ok(())
    }

    /// Erase the whole image: all five per-sector erase flags are always
    /// named, never a subset.
    fn erase_sectors(&mut self) -> (r: Result<(), Error<B::BusError>>)
        ensures
            r is Ok ==> log_extends(final(self)@, old(self)@) && is_erase_seq(
                log_delta(final(self)@, old(self)@),
            ),
    {
        let ghost l0 = self@;
        match self.write_reg(REG_NVM_CTRL1, OPCODE_LOAD_SER | ERASE_ALL_SECTORS) {
            Ok(()) => {},
            Err(e) => {
                return Err(e);
            },
        }
        let ghost l1 = self@;
        match self.issue_request() {
            Ok(()) => {},
            Err(e) => {
                return Err(e);
            },
        }
        let ghost l2 = self@;
        match self.write_reg(REG_NVM_CTRL1, OPCODE_ERASE_SECTORS) {
            Ok(()) => {},
            Err(e) => {
                return Err(e);
            },
        }
        let ghost l3 = self@;
        match self.issue_request() {
            Ok(()) => {},
            Err(e) => {
                return Err(e);
            },
        }
        proof {
            let wser = (BusOp::WriteReg {
                reg: REG_NVM_CTRL1,
                value: OPCODE_LOAD_SER | ERASE_ALL_SECTORS,
            });
            let wer = (BusOp::WriteReg { reg: REG_NVM_CTRL1, value: OPCODE_ERASE_SECTORS });
            lemma_log_push(l0, wser);
            lemma_log_push(l2, wer);
            lemma_log_extends_trans(l2, l1, l0);
            lemma_log_extends_trans(l3, l2, l0);
            lemma_log_extends_trans(self@, l3, l0);
            let dreq0 = log_delta(l2, l1);
            let dreq1 = log_delta(self@, l3);
            let d = log_delta(self@, l0);
            assert(d =~= seq![wser] + dreq0 + seq![wer] + dreq1);
            let k = 1 + dreq0.len() as int;
            assert(d.subrange(1, k) =~= dreq0);
            assert(d[k] == wer);
            assert(d.skip(k + 1) =~= dreq1);
            assert(is_erase_seq_at(d, k));
            assert(is_erase_seq(d));
        }
        Ok(())
    }

    /// Read the whole 40-byte NVM image, sector 0 through 4 in ascending
    /// order.
    #[verifier::loop_isolation(false)]
    pub fn read_sectors(&mut self) -> (r: Result<[[u8; 8]; 5], Error<B::BusError>>)
        ensures
            r matches Ok(img) ==> log_extends(final(self)@, old(self)@) && is_read_sectors_seq(
                log_delta(final(self)@, old(self)@),
                img.deep_view(),
            ),
    {
        let mut buf: [[u8; 8]; 5] = [[0u8; 8]; 5];
        proof {
            assert(self@.take(old(self)@.len() as int) =~= old(self)@);
            assert(log_delta(self@, old(self)@) =~= Seq::<BusOp>::empty());
            assert(buf.deep_view().take(0) =~= Seq::<Seq<u8>>::empty());
        }
        let mut i: u8 = 0;
        while i < SECTOR_COUNT
            invariant
                i <= SECTOR_COUNT,
                log_extends(self@, old(self)@),
                is_read_chunks(log_delta(self@, old(self)@), buf.deep_view().take(i as int), 0),
            decreases SECTOR_COUNT - i,
        {
            let ghost lp = self@;
            let ghost prev_img = buf.deep_view().take(i as int);
            let data: [u8; 8] = match self.read_sector(i) {
                Ok(d) => d,
                Err(e) => {
                    return Err(e);
                },
            };
            buf[i as usize] = data;
            proof {
                lemma_log_extends_trans(self@, lp, old(self)@);
                lemma_read_chunks_snoc(
                    log_delta(lp, old(self)@),
                    log_delta(self@, lp),
                    prev_img,
                    data@,
                    0,
                );
                assert(buf.deep_view().take(i as int + 1) =~~= prev_img.push(data@));
                assert(is_read_chunks(
                    log_delta(self@, old(self)@),
                    buf.deep_view().take(i as int + 1),
                    0,
                ));
            }
            i = i + 1;
        }
        proof {
            assert(buf.deep_view().take(SECTOR_COUNT as int) =~~= buf.deep_view());
        }
        Ok(buf)
    }

    /// Write the whole 40-byte NVM image: erase everything, then program
    /// sector 0 through 4 in ascending order. A failure partway leaves the
    /// device erased or partially programmed; nothing is rolled back.
    #[verifier::loop_isolation(false)]
    pub fn write_sectors(&mut self, sectors: [[u8; 8]; 5]) -> (r: Result<(), Error<B::BusError>>)
        ensures
            r is Ok ==> log_extends(final(self)@, old(self)@) && is_write_sectors_seq(
                log_delta(final(self)@, old(self)@),
                sectors.deep_view(),
            ),
    {
        match self.erase_sectors() {
            Ok(()) => {},
            Err(e) => {
                return Err(e);
            },
        }
        let ghost l1 = self@;
        let ghost de = log_delta(self@, old(self)@);
        proof {
            assert(self@.take(l1.len() as int) =~= l1);
            assert(log_delta(self@, l1) =~= Seq::<BusOp>::empty());
            assert(sectors.deep_view().take(0) =~= Seq::<Seq<u8>>::empty());
        }
        let mut i: u8 = 0;
        while i < SECTOR_COUNT
            invariant
                i <= SECTOR_COUNT,
                log_extends(self@, l1),
                is_write_chunks(log_delta(self@, l1), sectors.deep_view().take(i as int), 0),
            decreases SECTOR_COUNT - i,
        {
            let ghost lp = self@;
            let ghost prev_img = sectors.deep_view().take(i as int);
            match self.write_sector(i, &sectors[i as usize]) {
                Ok(()) => {},
                Err(e) => {
                    return Err(e);
                },
            }
            proof {
                lemma_log_extends_trans(self@, lp, l1);
                assert(sectors.deep_view()[i as int] =~= sectors@[i as int]@);
                lemma_write_chunks_snoc(
                    log_delta(lp, l1),
                    log_delta(self@, lp),
                    prev_img,
                    sectors.deep_view()[i as int],
                    0,
                );
                assert(sectors.deep_view().take(i as int + 1) =~= prev_img.push(
                    sectors.deep_view()[i as int],
                ));
                assert(is_write_chunks(
                    log_delta(self@, l1),
                    sectors.deep_view().take(i as int + 1),
                    0,
                ));
            }
            i = i + 1;
        }
        proof {
            assert(sectors.deep_view().take(SECTOR_COUNT as int) =~= sectors.deep_view());
            lemma_log_extends_trans(self@, l1, old(self)@);
            let d = log_delta(self@, old(self)@);
            let k = de.len() as int;
            assert(d.subrange(0, k) =~= de);
            assert(d.skip(k) =~= log_delta(self@, l1));
            assert(is_erase_seq(d.subrange(0, k)));
            assert(is_write_chunks(d.skip(k), sectors.deep_view(), 0));
            assert(is_write_sectors_seq(d, sectors.deep_view()));
        }
        Ok(())
    }

    /// Re-lock the NVM, consuming the session and handing the bus back.
    pub fn lock(self) -> (r: Result<B, Error<B::BusError>>)
        ensures
            r matches Ok(bus) ==> log_extends(bus.log(), self@) && is_lock_seq(
                log_delta(bus.log(), self@),
            ),
            r matches Err(e) ==> e is Bus,
    {
        let ghost l0 = self@;
        let STUSB4500Nvm { bus } = self;
        let mut b = bus;
        match b.write_register(REG_NVM_CTRL0, CTRL0_ENABLE) {
            Ok(()) => {},
            Err(e) => {
                return Err(Error::Bus(e));
            },
        }
        match b.write_register(REG_NVM_CTRL1, 0x00) {
            Ok(()) => {},
            Err(e) => {
                return Err(Error::Bus(e));
            },
        }
        match b.write_register(REG_NVM_PASSWORD, 0x00) {
            Ok(()) => {},
            Err(e) => {
                return Err(Error::Bus(e));
            },
        }
        proof {
            assert(b.log().take(l0.len() as int) =~= l0);
            assert(log_delta(b.log(), l0) =~= seq![
                (BusOp::WriteReg { reg: REG_NVM_CTRL0, value: CTRL0_ENABLE }),
                (BusOp::WriteReg { reg: REG_NVM_CTRL1, value: 0x00 }),
                (BusOp::WriteReg { reg: REG_NVM_PASSWORD, value: 0x00 }),
            ]);
        }
        Ok(b)
    }
}

} // verus!
