use stusb4500::bus::{Error, NvmBus};
use stusb4500::nvm::{
    STUSB4500Nvm, MAX_POLL_ATTEMPTS, REG_NVM_CTRL0, REG_NVM_CTRL1, REG_NVM_PASSWORD, REG_RW_BUFFER,
};

const DEFAULT_NVM_DATA: [[u8; 8]; 5] = [
    [0x00, 0x00, 0xB0, 0xAB, 0x00, 0x45, 0x00, 0x00],
    [0x10, 0x40, 0x9C, 0x1C, 0xFF, 0x01, 0x3C, 0xDF],
    [0x02, 0x40, 0x0F, 0x00, 0x32, 0x00, 0xFC, 0xF1],
    [0x00, 0x19, 0x56, 0xAF, 0xF5, 0x35, 0x5F, 0x00],
    [0x00, 0x4B, 0x90, 0x21, 0x43, 0x00, 0x40, 0xFB],
];

#[derive(Debug, Clone, PartialEq)]
enum SimOp {
    WriteReg(u8, u8),
    ReadReg(u8, u8),
    WriteBuf(u8, [u8; 8]),
    ReadBuf(u8, [u8; 8]),
}

/// Simulated STUSB4500 NVM interface: executes the register state machine
/// the datasheet describes and records every bus transaction.
#[derive(Debug)]
struct SimBus {
    mem: [[u8; 8]; 5],
    buffer: [u8; 8],
    plr: [u8; 8],
    password: u8,
    ctrl0: u8,
    ctrl1: u8,
    ops: Vec<SimOp>,
    /// Device never clears the request flag.
    stuck_request: bool,
    /// Fail the transaction with this index.
    fail_at: Option<usize>,
}

impl SimBus {
    fn new() -> SimBus {
        SimBus {
            mem: [[0xFF; 8]; 5],
            buffer: [0; 8],
            plr: [0; 8],
            password: 0,
            ctrl0: 0,
            ctrl1: 0,
            ops: Vec::new(),
            stuck_request: false,
            fail_at: None,
        }
    }

    fn check_fail(&self) -> Result<(), u8> {
        if self.fail_at == Some(self.ops.len()) {
            Err(0xEE)
        } else {
            Ok(())
        }
    }

    /// Execute the micro-operation selected by ctrl1 when the request flag
    /// is pulsed in ctrl0.
    fn pulse(&mut self, ctrl0: u8) {
        let sector = (ctrl0 & 0x07) as usize;
        match self.ctrl1 & 0x07 {
            0x00 => {
                // read sector into the indirect buffer
                if sector < 5 {
                    self.buffer = self.mem[sector];
                }
            }
            0x01 => {
                // load the partial-load register from the buffer
                self.plr = self.buffer;
            }
            0x02 => {
                // load the sector-erase mask; latched in ctrl1 already
            }
            0x05 => {
                // erase the sectors named by the mask in ctrl1 bits 7:3
                let mask = self.ctrl1 >> 3;
                for s in 0..5 {
                    if mask & (1 << s) != 0 {
                        self.mem[s] = [0xFF; 8];
                    }
                }
            }
            0x06 => {
                // program the sector from the partial-load register
                if sector < 5 {
                    self.mem[sector] = self.plr;
                }
            }
            _ => {}
        }
    }

    fn read_count(&self) -> usize {
        self.ops
            .iter()
            .filter(|op| matches!(op, SimOp::ReadReg(_, _)))
            .count()
    }
}

impl NvmBus for SimBus {
    type BusError = u8;

    fn write_register(&mut self, reg: u8, value: u8) -> Result<(), u8> {
        self.check_fail()?;
        self.ops.push(SimOp::WriteReg(reg, value));
        match reg {
            REG_NVM_PASSWORD => self.password = value,
            REG_NVM_CTRL1 => self.ctrl1 = value,
            REG_NVM_CTRL0 => {
                self.ctrl0 = value;
                if value & 0x10 != 0 && !self.stuck_request {
                    if self.password == 0x47 {
                        self.pulse(value);
                    }
                    self.ctrl0 = value & !0x10;
                }
            }
            _ => {}
        }
        Ok(())
    }

    fn read_register(&mut self, reg: u8) -> Result<u8, u8> {
        self.check_fail()?;
        let v = match reg {
            REG_NVM_PASSWORD => self.password,
            REG_NVM_CTRL0 => self.ctrl0,
            REG_NVM_CTRL1 => self.ctrl1,
            _ => 0,
        };
        self.ops.push(SimOp::ReadReg(reg, v));
        Ok(v)
    }

    fn write_buffer(&mut self, reg: u8, data: &[u8; 8]) -> Result<(), u8> {
        self.check_fail()?;
        self.ops.push(SimOp::WriteBuf(reg, *data));
        if reg == REG_RW_BUFFER {
            self.buffer = *data;
        }
        Ok(())
    }

    fn read_buffer(&mut self, reg: u8) -> Result<[u8; 8], u8> {
        self.check_fail()?;
        let d = if reg == REG_RW_BUFFER { self.buffer } else { [0; 8] };
        self.ops.push(SimOp::ReadBuf(reg, d));
        Ok(d)
    }
}

fn sample_image() -> [[u8; 8]; 5] {
    let mut img = [[0u8; 8]; 5];
    for (i, sector) in img.iter_mut().enumerate() {
        for (j, byte) in sector.iter_mut().enumerate() {
            *byte = (0x10 * (i as u8 + 1)) ^ (j as u8);
        }
    }
    img
}

#[test]
fn unlock_writes_the_password_sequence() {
    let sim = SimBus::new();
    let nvm = STUSB4500Nvm::unlock(sim).unwrap();
    let sim = nvm.lock().unwrap();
    assert_eq!(
        &sim.ops[..3],
        &[
            SimOp::WriteReg(REG_NVM_PASSWORD, 0x47),
            SimOp::WriteReg(REG_NVM_CTRL0, 0x00),
            SimOp::WriteReg(REG_NVM_CTRL0, 0xC0),
        ]
    );
}

#[test]
fn lock_clears_control_and_password() {
    let sim = SimBus::new();
    let nvm = STUSB4500Nvm::unlock(sim).unwrap();
    let sim = nvm.lock().unwrap();
    let n = sim.ops.len();
    assert_eq!(
        &sim.ops[n - 3..],
        &[
            SimOp::WriteReg(REG_NVM_CTRL0, 0x40),
            SimOp::WriteReg(REG_NVM_CTRL1, 0x00),
            SimOp::WriteReg(REG_NVM_PASSWORD, 0x00),
        ]
    );
    assert_eq!(sim.password, 0x00);
}

#[test]
fn write_then_read_round_trips_every_sector() {
    let sim = SimBus::new();
    let mut nvm = STUSB4500Nvm::unlock(sim).unwrap();
    let img = sample_image();
    nvm.write_sectors(img).unwrap();
    let back = nvm.read_sectors().unwrap();
    let sim = nvm.lock().unwrap();
    assert_eq!(back, img);
    assert_eq!(sim.mem, img);
}

#[test]
fn factory_default_image_survives_a_lock_cycle() {
    let sim = SimBus::new();
    let mut nvm = STUSB4500Nvm::unlock(sim).unwrap();
    nvm.write_sectors(DEFAULT_NVM_DATA).unwrap();
    let sim = nvm.lock().unwrap();

    let mut nvm = STUSB4500Nvm::unlock(sim).unwrap();
    let back = nvm.read_sectors().unwrap();
    nvm.lock().unwrap();
    assert_eq!(back, DEFAULT_NVM_DATA);
}

#[test]
fn erase_precedes_programming() {
    let sim = SimBus::new();
    let mut nvm = STUSB4500Nvm::unlock(sim).unwrap();
    nvm.write_sectors(sample_image()).unwrap();
    let sim = nvm.lock().unwrap();
    // right after the three unlock writes: erase-mask load, then its
    // request pulse
    assert_eq!(sim.ops[3], SimOp::WriteReg(REG_NVM_CTRL1, 0xFA));
    assert_eq!(sim.ops[4], SimOp::WriteReg(REG_NVM_CTRL0, 0xD0));
    assert!(sim
        .ops
        .iter()
        .any(|op| *op == SimOp::WriteReg(REG_NVM_CTRL1, 0x05)));
    assert!(sim
        .ops
        .iter()
        .any(|op| *op == SimOp::WriteReg(REG_NVM_CTRL1, 0x06)));
}

#[test]
fn read_uses_the_read_opcode_and_buffer() {
    let sim = SimBus::new();
    let mut nvm = STUSB4500Nvm::unlock(sim).unwrap();
    let img = nvm.read_sectors().unwrap();
    let sim = nvm.lock().unwrap();
    // a fresh simulated device holds an erased image
    assert_eq!(img, [[0xFF; 8]; 5]);
    assert_eq!(sim.ops[3], SimOp::WriteReg(REG_NVM_CTRL1, 0x00));
    assert_eq!(sim.ops[4], SimOp::WriteReg(REG_NVM_CTRL0, 0xD0));
    // five buffer reads, one per sector, in ascending order
    let bursts: Vec<&SimOp> = sim
        .ops
        .iter()
        .filter(|op| matches!(op, SimOp::ReadBuf(_, _)))
        .collect();
    assert_eq!(bursts.len(), 5);
    // the request pulse of sector 4 names the sector in the low bits
    assert!(sim
        .ops
        .iter()
        .any(|op| *op == SimOp::WriteReg(REG_NVM_CTRL0, 0xD4)));
}

#[test]
fn stuck_request_flag_times_out_within_the_polling_budget() {
    let mut sim = SimBus::new();
    sim.stuck_request = true;
    // unlock performs no handshake, so it still succeeds
    let mut nvm = STUSB4500Nvm::unlock(sim).unwrap();
    let err = nvm.write_sectors(sample_image()).unwrap_err();
    assert!(matches!(err, Error::Timeout));
    let sim = nvm.lock().unwrap();
    // the driver polled exactly its budget, then gave up instead of hanging
    assert_eq!(sim.read_count(), MAX_POLL_ATTEMPTS as usize);
}

#[test]
fn bus_errors_propagate() {
    let mut sim = SimBus::new();
    sim.fail_at = Some(0);
    match STUSB4500Nvm::unlock(sim) {
        Err(Error::Bus(code)) => assert_eq!(code, 0xEE),
        _ => panic!("unlock must fail when the first transaction fails"),
    }

    let mut sim = SimBus::new();
    sim.fail_at = Some(7);
    let mut nvm = STUSB4500Nvm::unlock(sim).unwrap();
    let err = nvm.write_sectors(sample_image()).unwrap_err();
    assert!(matches!(err, Error::Bus(0xEE)));
}
