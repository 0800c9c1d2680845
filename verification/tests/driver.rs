//! The driver against a simulated controller and card.

use sdmmc::bench::points::{
    fails, note_resumption, phase_after, stage_begun, stage_completed, sync_terminal, wait_begun,
    wait_ended,
};
use sdmmc::bench::stage::{Stage, StageEvent};
use sdmmc::bench::wake::WakeEvent;
use sdmmc::bench::read::IoMode;
use sdmmc::bench::write_measure::WriteMeasurements;
use sdmmc::bench::write_seen::{WriteEvent, WriteRecorder};
use sdmmc::blocks::{BlockEnd, BlockRequest};
use sdmmc::clock::SwitchClock;
use sdmmc::cmd::Command;
use sdmmc::completion::{IdmacCompletion, IdmacStatus};
use sdmmc::dma::IdmacDescriptor;
use sdmmc::enable::{AHBDataWidth, EnableOutcome};
use sdmmc::error::SdMmcError;
use sdmmc::init::Init;
use sdmmc::io::{Machine, Notice, Op, Reply, Step, Until};
use sdmmc::ready::reports_wait;
use sdmmc::regs::{updated, Cmd, IdSts, RIntSts, Reg};
use sdmmc::send::SendCmd;
use sdmmc::status::R1CardStatus;
use sdmmc::sdmmc::{SdMmc, Started, Startup};
use sdmmc::transfer::{Loudness, StartLog, WaitMode};
use std::collections::HashMap;

const STAGING: u64 = 0x4000_0000;
const CHAIN: u64 = 0x5000_0000;

struct Sim {
    regs: HashMap<usize, u32>,
    card: Vec<u8>,
    staging: Vec<u8>,
    user: Vec<u8>,
    chain: Vec<IdmacDescriptor>,
    response: [u32; 4],
    time: u64,
    completion: IdmacCompletion,
    error_flag: bool,
    commands: Vec<u32>,
    descriptors_held: i32,
    buffers_held: i32,
    notices: Vec<Notice>,
    // What the card reports.
    if_cond: u32,
    ocr: u32,
    rca: u32,
    csd: [u32; 4],
    cid: [u32; 4],
    select_status: u32,
    status: u32,
    // What goes wrong.
    silent: Vec<u32>,
    app_cmd_ignored: bool,
    data_error: u32,
    descriptors_kept: bool,
    stuck_start: bool,
    stuck_busy: bool,
    stuck_reset: bool,
    lost_chain: bool,
    no_buffer: bool,
    no_descriptors: bool,
    far_descriptors: bool,
    no_irq: bool,
    no_events: bool,
    deaf: Option<Reg>,
    interrupts: bool,
    hcon: u32,
}

impl Sim {
    fn new(blocks: usize) -> Sim {
        let mut card = vec![0u8; blocks * 512];
        for (i, byte) in card.iter_mut().enumerate() {
            *byte = (i * 7 + i / 512) as u8;
        }
        Sim {
            regs: HashMap::new(),
            card,
            staging: vec![0; 16384],
            user: Vec::new(),
            chain: Vec::new(),
            response: [0; 4],
            time: 0,
            completion: IdmacCompletion::new(),
            error_flag: false,
            commands: Vec::new(),
            descriptors_held: 0,
            buffers_held: 0,
            notices: Vec::new(),
            if_cond: 0x1aa,
            ocr: 0xc0ff_8000,
            rca: 0x1234_0500,
            // CSD version 2 with C_SIZE 1: 2048 blocks.
            csd: csd_with(1, 1),
            cid: [0x0059_c480, 0x4000_0001, 0x4142_4344, 0x0353_4453],
            select_status: 0x700,
            status: 0x900,
            silent: Vec::new(),
            app_cmd_ignored: false,
            data_error: 0,
            descriptors_kept: false,
            stuck_start: false,
            stuck_busy: false,
            stuck_reset: false,
            lost_chain: false,
            no_buffer: false,
            no_descriptors: false,
            far_descriptors: false,
            no_irq: false,
            no_events: false,
            deaf: None,
            interrupts: false,
            hcon: 0x80,
        }
    }

    fn get(&self, reg: Reg) -> u32 {
        match reg {
            Reg::HCon => self.hcon,
            _ => *self.regs.get(&reg.offset()).unwrap_or(&0),
        }
    }

    fn set(&mut self, reg: Reg, word: u32) {
        if self.deaf.map(|deaf| deaf.offset()) == Some(reg.offset()) {
            return;
        }
        match reg {
            Reg::RIntSts | Reg::IdSts => {
                let old = self.get(reg);
                self.regs.insert(reg.offset(), old & !word);
            }
            Reg::Cmd => self.command(word),
            Reg::DbAddr if self.lost_chain => {}
            Reg::BMod if !self.stuck_reset => {
                self.regs.insert(reg.offset(), word & !1);
            }
            Reg::Ctrl if !self.stuck_reset => {
                self.regs.insert(reg.offset(), word & !7);
            }
            _ => {
                self.regs.insert(reg.offset(), word);
            }
        }
    }

    fn raise(&mut self, reg: Reg, bits: u32) {
        let word = self.get(reg) | bits;
        self.regs.insert(reg.offset(), word);
    }

    fn command(&mut self, word: u32) {
        self.commands.push(word);
        if self.stuck_start {
            self.regs.insert(Reg::Cmd.offset(), word);
            return;
        }
        self.regs.insert(Reg::Cmd.offset(), word & 0x7fff_ffff);
        if word & 0x0020_0000 != 0 {
            return;
        }
        let index = word & 0x3f;
        if self.silent.contains(&index) {
            return;
        }
        let arg = self.get(Reg::CmdArg) as usize;
        self.response = match index {
            2 => self.cid,
            3 => [self.rca, 0, 0, 0],
            7 => [self.select_status, 0, 0, 0],
            8 => [self.if_cond, 0, 0, 0],
            9 => self.csd,
            13 => [self.status, 0, 0, 0],
            41 => [self.ocr, 0, 0, 0],
            55 => [if self.app_cmd_ignored { 0x100 } else { 0x120 }, 0, 0, 0],
            _ => [0x900, 0, 0, 0],
        };
        self.raise(Reg::RIntSts, 0x4);
        match index {
            51 => {
                self.raise(Reg::RIntSts, 0x28);
                self.regs.insert(Reg::Status.offset(), 2 << 17);
            }
            17 | 18 | 24 | 25 => self.transfer(index, arg),
            _ => {}
        }
    }

    fn transfer(&mut self, index: u32, block: usize) {
        if self.no_events {
            return;
        }
        if self.data_error != 0 {
            self.raise(Reg::RIntSts, self.data_error);
            self.interrupt();
            return;
        }
        let count = self.get(Reg::BytCnt) as usize;
        let mut moved = 0;
        for descriptor in &mut self.chain {
            let size = descriptor.des1.bs1() as usize;
            let place = (descriptor.des2 as u64 - STAGING) as usize;
            let disk = block * 512 + moved;
            if index < 24 {
                self.staging[place..place + size].copy_from_slice(&self.card[disk..disk + size]);
            } else {
                self.card[disk..disk + size].copy_from_slice(&self.staging[place..place + size]);
            }
            moved += size;
            if !self.descriptors_kept {
                descriptor.des0.0 &= 0x7fff_ffff;
            }
        }
        assert_eq!(moved, count);
        self.raise(Reg::RIntSts, 0x8);
        if index == 18 || index == 25 {
            self.raise(Reg::RIntSts, 0x4000);
        }
        self.raise(Reg::IdSts, if index < 24 { 0x102 } else { 0x101 });
        if self.stuck_busy && index >= 24 {
            self.regs.insert(Reg::Status.offset(), 0x200);
            self.status = 0xe00;
        }
        self.interrupt();
    }

    fn interrupt(&mut self) {
        if !self.interrupts {
            return;
        }
        let (r, i) = (self.get(Reg::RIntSts), self.get(Reg::IdSts));
        let actions = SdMmc::dma_irq_handler(&mut self.completion, RIntSts(r), IdSts(i));
        self.error_flag |= actions.error;
        if let Some(word) = actions.clear_idsts {
            self.set(Reg::IdSts, word);
        }
        if let Some(word) = actions.clear_rintsts {
            self.set(Reg::RIntSts, word);
        }
    }

    fn perform(&mut self, op: Op) -> Reply {
        match op {
            Op::Read(reg) | Op::Poll(reg) | Op::Peek(reg) => Reply::Word(self.get(reg)),
            Op::Write(reg, word) => {
                self.set(reg, word);
                Reply::Done
            }
            Op::Acknowledge(reg) => {
                let word = self.get(reg);
                self.set(reg, word);
                Reply::Word(word)
            }
            Op::Update { reg, clear, set } => {
                let word = updated(self.get(reg), clear, set);
                self.set(reg, word);
                Reply::Done
            }
            Op::Now => {
                self.time += 50_000;
                Reply::Time(self.time)
            }
            Op::BusyWait(nanoseconds) => {
                self.time += nanoseconds;
                Reply::Done
            }
            Op::Response => Reply::Response(self.response),
            Op::FifoRead(_) | Op::FifoWrite(_) => {
                self.regs.insert(Reg::Status.offset(), 0);
                Reply::Done
            }
            Op::ClearFlags => {
                self.error_flag = false;
                Reply::Done
            }
            Op::BeginTransfer => Reply::Generation(self.completion.begin_transfer()),
            Op::Observe(generation) => {
                let recorded = self.completion.snapshot_bits(generation);
                Reply::Status(IdmacStatus::idmac_completion_status(
                    self.get(Reg::RIntSts),
                    self.get(Reg::IdSts),
                    recorded,
                    self.error_flag,
                ))
            }
            Op::Await { until, generation, timeout } => {
                let recorded = self.completion.snapshot_bits(generation);
                let status = IdmacStatus::idmac_completion_status(
                    self.get(Reg::RIntSts),
                    self.get(Reg::IdSts),
                    recorded,
                    self.error_flag,
                );
                let timed_out = !until.reached(status);
                if timed_out {
                    self.time += timeout;
                }
                Reply::Flag(timed_out)
            }
            Op::AllocDescriptors(count) => {
                if self.no_descriptors {
                    return Reply::Failed;
                }
                self.descriptors_held += 1;
                self.chain = (0..count).map(|_| IdmacDescriptor::new()).collect();
                Reply::Address(if self.far_descriptors { 1 << 40 } else { CHAIN })
            }
            Op::StoreDescriptor(index, descriptor) => {
                self.chain[index] = descriptor;
                Reply::Done
            }
            Op::LoadDes0(index) | Op::PeekDes0(index) => {
                Reply::Word(self.chain[index].des0.0)
            }
            Op::Report(notice) => {
                self.notices.push(notice);
                Reply::Done
            }
            Op::FreeDescriptors => {
                self.descriptors_held -= 1;
                Reply::Done
            }
            Op::AllocBuffer { size, align } => {
                assert_eq!((size, align), (16384, 4));
                if self.no_buffer {
                    return Reply::Failed;
                }
                self.buffers_held += 1;
                Reply::Address(STAGING)
            }
            Op::FreeBuffer { .. } => {
                self.buffers_held -= 1;
                Reply::Done
            }
            Op::RegisterIrq => Reply::Flag(!self.no_irq),
            Op::CopyIn { offset, len } => {
                self.staging[..len].copy_from_slice(&self.user[offset..offset + len]);
                Reply::Done
            }
            Op::CopyOut { offset, len } => {
                self.user[offset..offset + len].copy_from_slice(&self.staging[..len]);
                Reply::Done
            }
            Op::Fence | Op::Delay(_) | Op::Yield => Reply::Done,
        }
    }

    fn run<M: Machine<Act = Op, Event = Reply>>(&mut self, start: Step<M, M::Out>) -> M::Out {
        let mut at = start;
        for _ in 0..5_000_000 {
            match at {
                Step::Done(out) => return out,
                Step::Next(machine) => {
                    let reply = self.perform(machine.request());
                    at = machine.step(reply);
                }
            }
        }
        panic!("the machine does not end");
    }

    fn start(&mut self) -> Result<Started, SdMmcError> {
        self.run(Step::Next(Startup::new()))
    }

    fn driver(&mut self) -> SdMmc {
        SdMmc::new(self.start().unwrap())
    }

    fn request(
        &mut self,
        driver: &mut SdMmc,
        begin: Step<BlockRequest, BlockEnd>,
    ) -> Result<(), SdMmcError> {
        let end = self.run(begin);
        driver.complete(end)
    }
}

fn csd_with(structure: u32, c_size: u32) -> [u32; 4] {
    // C_SIZE stands in bits 69 to 48, the structure in bits 127 and 126.
    let mut word: u128 = 0;
    word |= (structure as u128) << 126;
    word |= (c_size as u128) << 48;
    [word as u32, (word >> 32) as u32, (word >> 64) as u32, (word >> 96) as u32]
}

#[test]
fn startup_identifies_the_card() {
    let mut sim = Sim::new(2048);
    let started = sim.start().unwrap();
    assert_eq!(started.card.num_blocks, 2048);
    assert_eq!(started.card.rca, 0x1234);
    assert!(started.card.ocr_ccs);
    assert!(started.card.scr_read);
    assert!(matches!(started.engine.outcome, EnableOutcome::Enabled { .. }));
    let driver = SdMmc::new(started);
    assert_eq!(driver.num_blocks(), 2048);
    assert_eq!(driver.relative_card_address(), 0x1234);
    assert!(driver.is_high_capacity());
    assert!(!driver.is_faulted());
    assert_eq!(driver.dma_buffer().unwrap().size, 16384);
    let indices: Vec<u32> = sim.commands.iter().map(|word| word & 0x3f).collect();
    assert_eq!(indices, [0, 0, 0, 8, 55, 41, 2, 3, 9, 7, 55, 51, 0, 0, 0]);
}

#[test]
fn startup_survives_a_silent_reset_command() {
    let mut sim = Sim::new(2048);
    sim.silent.push(0);
    assert!(sim.start().is_ok());
}

#[test]
fn startup_rejects_unsupported_cards() {
    let mut sim = Sim::new(2048);
    sim.if_cond = 0x155;
    assert_eq!(sim.start().unwrap_err(), SdMmcError::UnsupportedCard);
    let mut sim = Sim::new(2048);
    sim.silent.push(8);
    assert_eq!(sim.start().unwrap_err(), SdMmcError::UnsupportedCard);
    let mut sim = Sim::new(2048);
    sim.ocr = 0x80ff_8000;
    assert_eq!(sim.start().unwrap_err(), SdMmcError::UnsupportedCard);
    let mut sim = Sim::new(2048);
    sim.csd = csd_with(0, 1);
    assert_eq!(sim.start().unwrap_err(), SdMmcError::UnsupportedCard);
}

#[test]
fn startup_gives_up_on_a_card_that_never_powers_up() {
    let mut sim = Sim::new(2048);
    sim.ocr = 0x00ff_8000;
    assert_eq!(sim.start().unwrap_err(), SdMmcError::InitializationFailed);
    let mut sim = Sim::new(2048);
    sim.rca = 0x0000_0500;
    assert_eq!(sim.start().unwrap_err(), SdMmcError::InitializationFailed);
}

#[test]
fn startup_reports_a_failed_selection() {
    let mut sim = Sim::new(2048);
    sim.select_status = 0x8000_0700;
    assert!(matches!(sim.start().unwrap_err(), SdMmcError::CardStatus(_)));
    let mut sim = Sim::new(2048);
    sim.silent.push(2);
    assert_eq!(sim.start().unwrap_err(), SdMmcError::CommandTimeout);
}

#[test]
fn identification_ends_with_the_card() {
    let mut sim = Sim::new(2048);
    let card = sim.run(Step::Next(Init::new())).unwrap();
    assert_eq!(card.cid.mid(), 0x03);
    assert_eq!(card.cid.oid(), 0x5344);
}

#[test]
fn engine_that_cannot_be_used_leaves_the_card_usable() {
    let mut sim = Sim::new(2048);
    sim.no_irq = true;
    let started = sim.start().unwrap();
    assert_eq!(started.engine.outcome, EnableOutcome::IrqRefused);
    assert_eq!(sim.buffers_held, 0);
    let mut driver = SdMmc::new(started);
    sim.user = vec![0; 512];
    let begin = driver.read_block(3);
    assert_eq!(sim.request(&mut driver, begin), Err(SdMmcError::DmaUnavailable));
}

#[test]
fn engine_failures_are_told_apart() {
    let mut sim = Sim::new(2048);
    sim.no_buffer = true;
    assert_eq!(sim.start().unwrap().engine.outcome, EnableOutcome::AllocationFailed);
    let mut sim = Sim::new(2048);
    sim.hcon = 3 << 7;
    assert_eq!(sim.start().unwrap().engine.outcome, EnableOutcome::UnsupportedWidth(3));
    let mut sim = Sim::new(2048);
    sim.deaf = Some(Reg::BMod);
    let end = sim.start().unwrap().engine;
    assert_eq!(end.outcome, EnableOutcome::BusMode);
    assert_eq!(end.state.buffer, None);
    assert_eq!(sim.buffers_held, 0);
    let mut sim = Sim::new(2048);
    sim.deaf = Some(Reg::IntMask);
    let end = sim.start().unwrap().engine;
    assert!(matches!(end.outcome, EnableOutcome::Enabled { controller_interrupts: false, .. }));
    let mut sim = Sim::new(2048);
    let driver = sim.driver();
    let end = sim.run(Step::Next(driver.try_enable_idmac(usize::MAX, AHBDataWidth::Bits32)));
    assert_eq!(end.outcome, EnableOutcome::InvalidLayout);
    let mut sim = Sim::new(2048);
    let driver = sim.driver();
    sim.stuck_reset = true;
    let end = sim.run(Step::Next(driver.try_enable_idmac(16384, AHBDataWidth::Bits32)));
    assert_eq!(end.outcome, EnableOutcome::ResetFailed);
    let mut sim = Sim::new(2048);
    let mut driver = sim.driver();
    let enable = driver.try_enable_idmac(16384, AHBDataWidth::Bits64);
    let end = sim.run(Step::Next(enable));
    assert!(end.width_corrected);
    driver.enabled(end);
    assert!(driver.dma_buffer().is_some());
}

#[test]
fn read_gives_back_what_was_written() {
    for asynchronous in [false, true] {
        for blocks in [1usize, 2, 3, 4, 5, 31, 32, 33, 64, 65, 100] {
            let mut sim = Sim::new(2048);
            sim.interrupts = asynchronous;
            let mut driver = sim.driver();
            let data: Vec<u8> = (0..blocks * 512).map(|i| (i * 31 + blocks) as u8).collect();
            let before = sim.card.clone();
            sim.user = data.clone();
            let begin = if asynchronous {
                driver.write_blocks_async(700, data.len())
            } else {
                driver.write_blocks(700, data.len())
            };
            assert_eq!(sim.request(&mut driver, begin), Ok(()));
            assert_eq!(sim.card[700 * 512..(700 + blocks) * 512], data[..]);
            assert_eq!(sim.card[..700 * 512], before[..700 * 512]);
            assert_eq!(sim.card[(700 + blocks) * 512..], before[(700 + blocks) * 512..]);
            sim.user = vec![0; data.len()];
            let begin = if asynchronous {
                driver.read_blocks_async(700, data.len())
            } else {
                driver.read_blocks(700, data.len())
            };
            assert_eq!(sim.request(&mut driver, begin), Ok(()));
            assert_eq!(sim.user, data);
            assert_eq!(sim.descriptors_held, 0);
            assert!(!driver.is_faulted());
        }
    }
}

#[test]
fn chunks_follow_the_plan() {
    let mut sim = Sim::new(2048);
    let mut driver = sim.driver();
    sim.commands.clear();
    sim.user = vec![0; 66 * 512];
    let begin = driver.read_blocks(0, 66 * 512);
    assert_eq!(sim.request(&mut driver, begin), Ok(()));
    let indices: Vec<u32> = sim.commands.iter().map(|word| word & 0x3f).collect();
    assert_eq!(indices, [18, 18, 17, 17]);
    sim.commands.clear();
    let begin = driver.write_blocks(0, 33 * 512);
    assert_eq!(sim.request(&mut driver, begin), Ok(()));
    let indices: Vec<u32> = sim.commands.iter().map(|word| word & 0x3f).collect();
    assert_eq!(indices, [25, 24]);
    sim.commands.clear();
    let begin = driver.write_block_async(5);
    assert_eq!(sim.request(&mut driver, begin), Ok(()));
    let indices: Vec<u32> = sim.commands.iter().map(|word| word & 0x3f).collect();
    assert_eq!(indices, [24, 13]);
}

#[test]
fn bad_ranges_are_refused_without_a_command() {
    let mut sim = Sim::new(2048);
    let mut driver = sim.driver();
    sim.commands.clear();
    sim.user = vec![0; 2048];
    for (block, len, error) in [
        (0u32, 0usize, SdMmcError::InvalidParameter),
        (0, 511, SdMmcError::InvalidParameter),
        (2047, 1024, SdMmcError::OutOfRange),
        (2048, 512, SdMmcError::OutOfRange),
        (u32::MAX, 512, SdMmcError::OutOfRange),
    ] {
        let begin = driver.read_blocks(block, len);
        assert_eq!(sim.request(&mut driver, begin), Err(error));
        let begin = driver.write_blocks_async(block, len);
        assert_eq!(sim.request(&mut driver, begin), Err(error));
    }
    assert!(sim.commands.is_empty());
    assert!(!driver.is_faulted());
    let begin = driver.read_block(2047);
    assert_eq!(sim.request(&mut driver, begin), Ok(()));
}

#[test]
fn failed_transfer_faults_the_driver() {
    for asynchronous in [false, true] {
        let mut sim = Sim::new(2048);
        sim.interrupts = asynchronous;
        let mut driver = sim.driver();
        sim.user = vec![0; 512];
        sim.data_error = 0x80;
        let begin = if asynchronous {
            driver.read_block_async(1)
        } else {
            driver.read_block(1)
        };
        assert_eq!(sim.request(&mut driver, begin), Err(SdMmcError::Hardware));
        assert!(driver.is_faulted());
        assert_eq!(sim.descriptors_held, 0);
        sim.data_error = 0;
        sim.commands.clear();
        let begin = driver.read_block(1);
        assert_eq!(sim.request(&mut driver, begin), Err(SdMmcError::DriverFaulted));
        assert!(sim.commands.is_empty());
        assert!(driver.release_dma_buffer().is_some());
    }
}

#[test]
fn engine_that_does_not_stop_keeps_its_memory() {
    let mut sim = Sim::new(2048);
    let mut driver = sim.driver();
    sim.user = vec![0; 512];
    sim.data_error = 0x80;
    sim.stuck_reset = true;
    let begin = driver.write_block(1);
    assert_eq!(sim.request(&mut driver, begin), Err(SdMmcError::RecoveryFailed));
    assert!(driver.is_faulted());
    assert_eq!(sim.descriptors_held, 1);
    assert_eq!(driver.release_dma_buffer(), None);
}

#[test]
fn transfer_errors_are_told_apart() {
    let mut sim = Sim::new(2048);
    let mut driver = sim.driver();
    sim.user = vec![0; 512];
    sim.no_descriptors = true;
    let begin = driver.read_block(1);
    assert_eq!(sim.request(&mut driver, begin), Err(SdMmcError::DmaAllocation));
    assert!(!driver.is_faulted());
    sim.no_descriptors = false;
    sim.far_descriptors = true;
    let begin = driver.read_block(1);
    assert_eq!(sim.request(&mut driver, begin), Err(SdMmcError::DmaAddress));
    assert_eq!(sim.descriptors_held, 0);
    assert!(!driver.is_faulted());
    sim.far_descriptors = false;
    sim.regs.insert(Reg::Status.offset(), 0x200);
    let begin = driver.read_block(1);
    assert_eq!(sim.request(&mut driver, begin), Err(SdMmcError::DataBusy));
    sim.regs.insert(Reg::Status.offset(), 0);
    sim.regs.insert(Reg::Cmd.offset(), 0x8000_0000);
    let begin = driver.read_block(1);
    assert_eq!(sim.request(&mut driver, begin), Err(SdMmcError::CommandBusy));
    sim.regs.insert(Reg::Cmd.offset(), 0);
    assert!(!driver.is_faulted());
    sim.lost_chain = true;
    let begin = driver.read_block(1);
    assert_eq!(sim.request(&mut driver, begin), Err(SdMmcError::DescriptorPublication));
    assert!(driver.is_faulted());

    let mut sim = Sim::new(2048);
    let mut driver = sim.driver();
    sim.user = vec![0; 512];
    sim.stuck_start = true;
    let begin = driver.read_block(1);
    assert_eq!(sim.request(&mut driver, begin), Err(SdMmcError::CommandStartTimeout));

    let mut sim = Sim::new(2048);
    let mut driver = sim.driver();
    sim.user = vec![0; 512];
    sim.descriptors_kept = true;
    let begin = driver.read_block(1);
    assert_eq!(sim.request(&mut driver, begin), Err(SdMmcError::TerminalValidation));

    let mut sim = Sim::new(2048);
    let mut driver = sim.driver();
    sim.user = vec![0; 512];
    sim.no_events = true;
    let begin = driver.read_block(1);
    assert_eq!(sim.request(&mut driver, begin), Err(SdMmcError::DataTimeout));
    assert!(driver.is_faulted());

    let mut sim = Sim::new(2048);
    let mut driver = sim.driver();
    sim.user = vec![0; 512];
    sim.silent.push(17);
    let begin = driver.read_block_async(1);
    assert_eq!(sim.request(&mut driver, begin), Err(SdMmcError::CommandTimeout));
}

#[test]
fn card_that_stays_busy_faults_the_driver() {
    for asynchronous in [false, true] {
        let mut sim = Sim::new(2048);
        let mut driver = sim.driver();
        sim.user = vec![0; 512];
        sim.stuck_busy = true;
        let begin = if asynchronous {
            driver.write_block_async(1)
        } else {
            driver.write_block(1)
        };
        assert_eq!(sim.request(&mut driver, begin), Err(SdMmcError::CardBusyTimeout));
        assert!(driver.is_faulted());
    }
}

#[test]
fn cancelled_read_is_aborted_and_faults_the_driver() {
    let mut sim = Sim::new(2048);
    let mut driver = sim.driver();
    sim.user = vec![0; 32 * 512];
    let mut at = driver.read_blocks_async(0, 32 * 512);
    let request = loop {
        match at {
            Step::Done(_) => panic!("ended before it could be cancelled"),
            Step::Next(request) => {
                if request.suspended() {
                    break request;
                }
                let reply = sim.perform(request.request());
                at = request.step(reply);
            }
        }
    };
    let abort = driver.cancel(request).unwrap();
    let result = sim.run(Step::Next(abort));
    driver.cancelled(result);
    assert_eq!(result, Ok(()));
    assert!(driver.is_faulted());
    assert_eq!(sim.descriptors_held, 0);
    assert_eq!(sim.get(Reg::IntMask), 0);
    assert_eq!(sim.get(Reg::IdIntEn), 0);
    assert_eq!(sim.get(Reg::Ctrl) & 0x0200_0010, 0);
    let begin = driver.read_block(0);
    assert_eq!(sim.request(&mut driver, begin), Err(SdMmcError::DriverFaulted));
}

#[test]
fn cancelled_inquiry_has_nothing_under_way() {
    let mut sim = Sim::new(2048);
    let mut driver = sim.driver();
    sim.user = vec![0; 512];
    sim.stuck_busy = true;
    sim.commands.clear();
    let mut at = driver.write_block_async(9);
    let request = loop {
        match at {
            Step::Done(_) => panic!("ended before it could be cancelled"),
            Step::Next(request) => {
                if request.suspended() && sim.commands.len() == 2 {
                    break request;
                }
                let reply = sim.perform(request.request());
                at = request.step(reply);
            }
        }
    };
    assert_eq!(driver.cancel(request), None);
    assert!(driver.is_faulted());
    assert!(!driver.is_reset_failed());
    assert_eq!(sim.descriptors_held, 0);
    assert_eq!(sim.get(Reg::Cmd) & 0x8000_0000, 0);
    let indices: Vec<u32> = sim.commands.iter().map(|word| word & 0x3f).collect();
    assert_eq!(indices, [24, 13]);
    sim.commands.clear();
    let begin = driver.write_block(9);
    assert_eq!(sim.request(&mut driver, begin), Err(SdMmcError::DriverFaulted));
    assert!(sim.commands.is_empty());
}

#[test]
fn cancelled_transfer_that_does_not_stop_keeps_its_memory() {
    let mut sim = Sim::new(2048);
    let mut driver = sim.driver();
    sim.user = vec![0; 512];
    let mut at: Step<BlockRequest, BlockEnd> = Step::Next(driver.read_dma_chunk_async(4));
    let request = loop {
        match at {
            Step::Done(_) => panic!("ended before it could be cancelled"),
            Step::Next(request) => {
                if request.suspended() {
                    break request;
                }
                let reply = sim.perform(request.request());
                at = request.step(reply);
            }
        }
    };
    sim.stuck_reset = true;
    let abort = driver.cancel(request).unwrap();
    let result = sim.run(Step::Next(abort));
    driver.cancelled(result);
    assert_eq!(result, Err(SdMmcError::RecoveryFailed));
    assert!(driver.is_faulted());
    assert!(driver.is_reset_failed());
    assert_eq!(sim.descriptors_held, 1);
    assert_eq!(driver.release_dma_buffer(), None);
}

#[test]
fn unchecked_read_reads_its_block() {
    let mut sim = Sim::new(2048);
    let mut driver = sim.driver();
    sim.user = vec![0; 512];
    sim.commands.clear();
    let begin = Step::Next(driver.read_dma_chunk_async(2047));
    assert_eq!(sim.request(&mut driver, begin), Ok(()));
    assert_eq!(sim.user[..], sim.card[2047 * 512..]);
    assert_eq!(sim.commands.len(), 1);
    assert_eq!(sim.commands[0] & 0x3f, 17);
}

#[test]
fn enabling_again_keeps_the_fault() {
    let mut sim = Sim::new(2048);
    let mut driver = sim.driver();
    sim.user = vec![0; 512];
    sim.data_error = 0x80;
    sim.stuck_reset = true;
    let begin = driver.read_block(1);
    assert_eq!(sim.request(&mut driver, begin), Err(SdMmcError::RecoveryFailed));
    sim.data_error = 0;
    sim.stuck_reset = false;
    let end = sim.run(Step::Next(driver.try_enable_idmac(16384, AHBDataWidth::Bits32)));
    assert!(matches!(end.outcome, EnableOutcome::Enabled { .. }));
    driver.enabled(end);
    assert!(driver.is_faulted());
    assert!(driver.is_reset_failed());
    let begin = driver.read_block(1);
    assert_eq!(sim.request(&mut driver, begin), Err(SdMmcError::DriverFaulted));
}

#[test]
fn error_of_the_card_status_is_reported() {
    let mut sim = Sim::new(2048);
    let mut driver = sim.driver();
    sim.user = vec![0; 512];
    sim.status = 0x0400_0900;
    let begin = driver.write_block_async(1);
    let failed = R1CardStatus::from_raw(0x0400_0900);
    assert_eq!(sim.request(&mut driver, begin), Err(SdMmcError::CardStatus(failed)));
    assert!(driver.is_faulted());
    assert_eq!(sim.descriptors_held, 0);
}

#[test]
fn points_of_a_call_come_in_order() {
    for asynchronous in [false, true] {
        let mut sim = Sim::new(2048);
        sim.interrupts = asynchronous;
        let driver = sim.driver();
        sim.user = vec![0; 512];
        let mut at = if asynchronous {
            driver.write_block_async(3)
        } else {
            driver.write_block(3)
        };
        let mut stages = Vec::new();
        let mut terminals = 0;
        let mut waits = Vec::new();
        let mut ends = Vec::new();
        while let Step::Next(request) = at {
            let reply = sim.perform(request.request());
            at = request.step(reply);
            let next = phase_after(&at);
            stages.extend(stage_completed(request.phase, next));
            stages.extend(stage_begun(request.phase, next));
            terminals += sync_terminal(request, reply, next, 1, 5).into_iter().count();
            waits.extend(wait_begun(request.phase, next));
            ends.extend(wait_ended(request.phase, next, fails(&at), 4, 9));
        }
        assert_eq!(
            stages,
            [
                Stage::PrepareStart,
                Stage::PrepareEnd,
                Stage::CmdWrite,
                Stage::SubmitEnd,
                Stage::CommandSeen,
                Stage::TerminalSeen,
                Stage::ValidationEnd,
                Stage::CleanupStart,
                Stage::CleanupEnd,
            ]
        );
        assert_eq!(terminals, if asynchronous { 0 } else { 1 });
        assert_eq!(waits, [if asynchronous { WaitMode::Async } else { WaitMode::Sync }]);
        assert_eq!(
            ends,
            [WriteEvent::BusyEnd {
                asynchronous,
                started_ns: 4,
                now: 9,
                attempts: 1,
                r1: if asynchronous { 0x900 } else { 0 },
                success: true,
            }]
        );
    }
    assert_eq!(
        Stage::PrepareEnd.event(3, 7),
        StageEvent::Reached { stage: Stage::PrepareEnd, now: 7 }
    );
    assert_eq!(
        Stage::CmdWrite.event(3, 7),
        StageEvent::ReachedBy { stage: Stage::CmdWrite, generation: 3, now: 7 }
    );
    let status = IdmacStatus::idmac_completion_status(0xc, 0x102, None, false);
    assert_eq!(
        note_resumption(Until::CommandDone, 2, false, 30, 50, status),
        WakeEvent::CommandWait { generation: 2, timed_out: false, elapsed_ns: 20 }
    );
    assert_eq!(
        note_resumption(Until::Terminal(Cmd(0)), 2, true, 30, 50, status),
        WakeEvent::Resume {
            generation: 2,
            now: 50,
            timed_out: true,
            elapsed_ns: 20,
            rintsts: 0xc,
            idsts: 0x102,
        }
    );
}

#[test]
fn observed_writes_count() {
    for asynchronous in [false, true] {
        let mut sim = Sim::new(2048);
        sim.interrupts = asynchronous;
        let driver = sim.driver();
        sim.user = vec![0; 512];
        let mut at = if asynchronous {
            driver.write_block_async(3)
        } else {
            driver.write_block(3)
        };
        let mut clock = 100;
        let mut recorder = WriteRecorder::begin(clock);
        let mut started = 0;
        let mut generation = 0;
        while let Step::Next(request) = at {
            let op = request.request();
            let reply = sim.perform(op);
            at = request.step(reply);
            clock += 1;
            if let Op::BeginTransfer = op {
                generation = reply.generation();
                recorder = recorder.record(WriteEvent::Started { generation, now: clock });
            }
            if let (Op::Write(Reg::Cmd, _), true) = (op, asynchronous) {
                let irq = WriteEvent::Irq { generation, now: clock, rintsts: 0xc, idsts: 0x101 };
                recorder = recorder.record(irq);
            }
            if let Op::Await { until: Until::Terminal(_), .. } = op {
                recorder = recorder.record(WriteEvent::Resume {
                    generation,
                    now: clock,
                    timed_out: false,
                    rintsts: 0xc,
                    idsts: 0x101,
                });
            }
            let next = phase_after(&at);
            if let Some(event) = sync_terminal(request, reply, next, generation, clock) {
                recorder = recorder.record(event);
            }
            if wait_begun(request.phase, next).is_some() {
                started = clock;
            }
            if let Some(event) = wait_ended(request.phase, next, fails(&at), started, clock) {
                recorder = recorder.record(event);
            }
        }
        let seen = recorder.finish(clock + 1).seen;
        let mode = if asynchronous { IoMode::Async } else { IoMode::Sync };
        assert_eq!(seen.busy_attempts, 1);
        assert_eq!(seen.validate(mode), None);
        assert!(WriteMeasurements::new().add(mode, seen).is_ok());
    }
}

#[test]
fn polled_wait_counts_its_looks() {
    let mut sim = Sim::new(2048);
    let driver = sim.driver();
    sim.user = vec![0; 512];
    sim.stuck_busy = true;
    let mut at = driver.write_block(3);
    let mut looks = 0;
    let mut reported = Vec::new();
    while let Step::Next(request) = at {
        let op = request.request();
        let waiting = wait_ended(request.phase, None, false, 0, 0).is_some();
        if waiting && matches!(op, Op::Read(Reg::Status) | Op::Poll(Reg::Status)) {
            looks += 1;
            if looks == 3 {
                sim.regs.insert(Reg::Status.offset(), 0);
            }
        }
        let reply = sim.perform(op);
        at = request.step(reply);
        reported.extend(wait_ended(request.phase, phase_after(&at), fails(&at), 4, 9));
    }
    assert_eq!(
        reported,
        [WriteEvent::BusyEnd {
            asynchronous: false,
            started_ns: 4,
            now: 9,
            attempts: 3,
            r1: 0,
            success: true,
        }]
    );
}

#[test]
fn starts_are_announced() {
    let mut sim = Sim::new(2048);
    let mut driver = sim.driver();
    assert!(sim.notices.is_empty());
    sim.user = vec![0; 512];
    sim.descriptors_kept = true;
    let begin = driver.read_block(7);
    assert!(sim.request(&mut driver, begin).is_err());
    let cmd = Cmd(*sim.commands.last().unwrap());
    assert_eq!(cmd.cmd_index(), 17);
    let dbaddr = CHAIN as u32;
    let owned = Notice::Started { cmd, fsm: 0, desc_own: true, dbaddr };
    assert_eq!(sim.notices, [owned]);
    assert_eq!(IdSts(0x0000_6102).fsm(), 3);

    let mut sim = Sim::new(2048);
    let mut driver = sim.driver();
    sim.user = vec![0; 33 * 512];
    let begin = driver.write_blocks(7, 33 * 512);
    assert_eq!(sim.request(&mut driver, begin), Ok(()));
    let indexes: Vec<u32> = sim
        .notices
        .iter()
        .map(|notice| match notice {
            Notice::Started { cmd, .. } => cmd.cmd_index(),
            Notice::BusModeStatus { .. } => 0,
        })
        .collect();
    assert_eq!(indexes, [25, 24]);

    let mut log = StartLog::new();
    assert_eq!(log.announce(), Loudness::Warning);
    assert_eq!(log.announce(), Loudness::Debug);
    assert_eq!(log.announce(), Loudness::Debug);
}

#[test]
fn abnormal_bus_mode_is_reported() {
    let mut sim = Sim::new(2048);
    sim.deaf = Some(Reg::IdSts);
    sim.regs.insert(Reg::IdSts.offset(), 0x4);
    let started = sim.start().unwrap();
    assert_eq!(started.engine.outcome, EnableOutcome::Abnormal);
    assert_eq!(sim.notices, [Notice::BusModeStatus { idsts: 0x4 }]);
}

#[test]
fn some_waits_are_reported() {
    let reported: Vec<usize> = (1..=70).filter(|&sequence| reports_wait(sequence)).collect();
    assert_eq!(reported, [1, 2, 3, 4, 5, 6, 7, 8, 16, 32, 64]);
    assert!(reports_wait(1 << 20) && !reports_wait((1 << 20) + 2));
    assert!(!reports_wait(usize::MAX));
}

#[test]
fn app_command_must_be_announced() {
    let mut sim = Sim::new(2048);
    sim.app_cmd_ignored = true;
    // Without the announcement ACMD41 is never sent.
    assert_eq!(sim.start().unwrap_err(), SdMmcError::InitializationFailed);
    assert!(sim.commands.iter().all(|word| word & 0x3f != 41));
}

#[test]
fn status_inquiry_reports_what_the_card_says() {
    let mut sim = Sim::new(2048);
    sim.driver();
    let status = Command::SendStatus(0x1234_0000).request();
    assert_eq!(sim.run(Step::Next(SendCmd::new(status, None))).unwrap()[0], 0x900);
    assert_eq!(sim.get(Reg::CmdArg), 0x1234_0000);
    sim.status = 0x0400_0900;
    let failed = R1CardStatus::from_raw(0x0400_0900);
    let result = sim.run(Step::Next(SendCmd::new(status, None)));
    assert_eq!(result, Err(SdMmcError::CardStatus(failed)));
    sim.app_cmd_ignored = true;
    let announce = Command::AppCmd(0).request();
    let result = sim.run(Step::Next(SendCmd::new(announce, None)));
    let plain = R1CardStatus::from_raw(0x100);
    assert_eq!(result, Err(SdMmcError::AppCommandRejected(plain)));
}

#[test]
fn command_ends_at_its_deadline() {
    let mut sim = Sim::new(2048);
    sim.driver();
    sim.silent.push(13);
    let status = Command::SendStatus(0).request();
    let started = sim.time;
    let result = sim.run(Step::Next(SendCmd::new(status, Some(started + 10_000_000))));
    assert_eq!(result, Err(SdMmcError::CommandTimeout));
    assert!(sim.time < started + 20_000_000);
    sim.regs.insert(Reg::Cmd.offset(), 0x8000_0000);
    let result = sim.run(Step::Next(SendCmd::new(status, Some(sim.time + 1_000_000))));
    assert_eq!(result, Err(SdMmcError::CommandBusy));
}

#[test]
fn selected_card_that_stays_busy_is_reported() {
    let mut sim = Sim::new(2048);
    sim.driver();
    let select = Command::SelectCard(0x1234_0000).request();
    assert!(sim.run(Step::Next(SendCmd::new(select, None))).is_ok());
    sim.regs.insert(Reg::Status.offset(), 0x200);
    let started = sim.time;
    let result = sim.run(Step::Next(SendCmd::new(select, Some(started + 10_000_000))));
    assert_eq!(result, Err(SdMmcError::CardBusyTimeout));
}

#[test]
fn smooth_request_ends_soon() {
    for asynchronous in [false, true] {
        for blocks in [1usize, 2, 32, 33, 100] {
            for write in [false, true] {
                let mut sim = Sim::new(2048);
                sim.interrupts = asynchronous;
                let mut driver = sim.driver();
                let len = blocks * 512;
                sim.user = vec![0; len];
                let mut at = match (write, asynchronous) {
                    (false, false) => driver.read_blocks(3, len),
                    (false, true) => driver.read_blocks_async(3, len),
                    (true, false) => driver.write_blocks(3, len),
                    (true, true) => driver.write_blocks_async(3, len),
                };
                let mut replies = 0;
                let end = loop {
                    match at {
                        Step::Done(end) => break end,
                        Step::Next(request) => {
                            replies += 1;
                            let reply = sim.perform(request.request());
                            at = request.step(reply);
                        }
                    }
                };
                assert_eq!(driver.complete(end), Ok(()));
                assert!(replies <= blocks * 128 + 100);
            }
        }
    }
}

/// Lets whatever is waited for come only at a second look, and counts the replies and
/// the operations that wait.
struct Slow {
    before: [Option<Op>; 2],
    replies: usize,
    delays: usize,
}

impl Slow {
    fn new() -> Slow {
        Slow { before: [None; 2], replies: 0, delays: 0 }
    }

    fn perform(&mut self, sim: &mut Sim, op: Op) -> Reply {
        let [second, first] = self.before;
        let after_clock = first == Some(Op::Now);
        let cmd_seen = matches!(first, Some(Op::Read(Reg::Cmd) | Op::Poll(Reg::Cmd)));
        let reply = match op {
            Op::Read(Reg::Cmd) if !cmd_seen => Reply::Word(0x8000_0000),
            Op::Read(Reg::Status) if after_clock => Reply::Word(0x200),
            Op::Read(Reg::RIntSts) if after_clock => Reply::Word(0),
            Op::Read(Reg::BMod) if after_clock => Reply::Word(1),
            Op::Observe(_) if after_clock && !matches!(second, Some(Op::Observe(_))) => {
                Reply::Status(IdmacStatus {
                    rintsts: RIntSts(0),
                    idsts: IdSts(0),
                    error_flag: false,
                })
            }
            _ => sim.perform(op),
        };
        match op {
            Op::Yield => sim.status = 0x900,
            Op::BusyWait(_) => sim.ocr |= 0x8000_0000,
            _ => {}
        }
        let cmd = Cmd(sim.commands.last().copied().unwrap_or(0));
        self.delays += match op {
            Op::Poll(_) | Op::Yield | Op::BusyWait(_) => 1,
            Op::Observe(_) => {
                let over = reply.status().idmac_command_done_or_error()
                    && reply.status().idmac_terminal_events_or_error(cmd);
                usize::from(!over)
            }
            _ => 0,
        };
        self.replies += 1;
        self.before = [first, Some(op)];
        reply
    }

    fn run<M>(&mut self, sim: &mut Sim, start: Step<M, M::Out>) -> M::Out
    where
        M: Machine<Act = Op, Event = Reply>,
    {
        let mut at = start;
        loop {
            match at {
                Step::Done(out) => return out,
                Step::Next(machine) => at = machine.step(self.perform(sim, machine.request())),
            }
        }
    }
}

#[test]
fn slow_card_is_identified() {
    let mut sim = Sim::new(2048);
    sim.ocr = 0x40ff_8000;
    let mut slow = Slow::new();
    let card = slow.run(&mut sim, Step::Next(Init::new())).unwrap();
    assert_eq!((card.num_blocks, card.rca), (2048, 0x1234));
    assert_eq!(sim.commands.iter().filter(|word| **word & 0x3f == 41).count(), 2);
    assert!(slow.delays > 10);
    assert!(slow.replies <= 755 + 128 * slow.delays);
}

#[test]
fn slow_engine_is_enabled() {
    let mut sim = Sim::new(2048);
    let driver = sim.driver();
    let mut slow = Slow::new();
    let enable = driver.try_enable_idmac(16384, AHBDataWidth::Bits32);
    let end = slow.run(&mut sim, Step::Next(enable));
    assert_eq!(
        end.outcome,
        EnableOutcome::Enabled {
            engine_interrupts: true,
            controller_interrupts: true,
            quiet: true,
        }
    );
    assert_eq!(end.state.buffer.unwrap().size, 16384);
    assert!(!end.state.faulted);
    assert_eq!(slow.delays, 1);
    assert!(slow.replies <= 34 + 128);
}

#[test]
fn slow_requests_succeed() {
    for asynchronous in [false, true] {
        for blocks in [1usize, 33] {
            for write in [false, true] {
                let mut sim = Sim::new(2048);
                let mut driver = sim.driver();
                sim.interrupts = asynchronous;
                sim.status = 0xe00;
                let len = blocks * 512;
                sim.user = vec![7; len];
                let begin = match (write, asynchronous) {
                    (false, false) => driver.read_blocks(3, len),
                    (false, true) => driver.read_blocks_async(3, len),
                    (true, false) => driver.write_blocks(3, len),
                    (true, true) => driver.write_blocks_async(3, len),
                };
                let mut slow = Slow::new();
                let end = slow.run(&mut sim, begin);
                assert_eq!(driver.complete(end), Ok(()));
                assert!(!driver.is_faulted());
                assert_eq!(sim.user, sim.card[3 * 512..3 * 512 + len]);
                assert!(slow.delays > 1);
                assert!(slow.replies <= blocks * 160 + 130 + 128 * slow.delays);
            }
        }
    }
}

#[test]
fn suspended_engine_is_resumed() {
    let mut sim = Sim::new(2048);
    let mut driver = sim.driver();
    sim.user = vec![0; 512];
    let mut at = driver.read_block(5);
    let mut resumed = false;
    let mut submitted = false;
    let end = loop {
        match at {
            Step::Done(end) => break end,
            Step::Next(request) => {
                let op = request.request();
                let reply = match op {
                    // The first look after the submission finds no descriptor.
                    Op::Read(Reg::IdSts) if submitted && !resumed => Reply::Word(0x210),
                    _ => sim.perform(op),
                };
                match op {
                    Op::Write(Reg::Cmd, _) => submitted = true,
                    Op::Write(Reg::PldMnd, 1) => resumed = true,
                    _ => {}
                }
                at = request.step(reply);
            }
        }
    };
    assert!(resumed);
    assert_eq!(driver.complete(end), Ok(()));
    assert_eq!(sim.user, sim.card[5 * 512..6 * 512]);
}

#[test]
fn waits_last_as_long_as_they_allow() {
    let prepare: [(fn(&mut Sim), bool, SdMmcError, u64); 7] = [
        (
            |sim| {
                sim.regs.insert(Reg::Status.offset(), 0x200);
            },
            false,
            SdMmcError::DataBusy,
            100_000,
        ),
        (
            |sim| {
                sim.regs.insert(Reg::Cmd.offset(), 0x8000_0000);
            },
            false,
            SdMmcError::CommandBusy,
            100_000,
        ),
        (|sim| sim.stuck_start = true, false, SdMmcError::CommandStartTimeout, 100_000_000),
        (|sim| sim.silent.push(24), false, SdMmcError::CommandTimeout, 2_000_000_000),
        (|sim| sim.silent.push(24), true, SdMmcError::CommandTimeout, 2_000_000_000),
        (|sim| sim.no_events = true, true, SdMmcError::DataTimeout, 5_000_000_000),
        (|sim| sim.stuck_busy = true, true, SdMmcError::CardBusyTimeout, 5_000_000_000),
    ];
    for (fault, asynchronous, error, allowed) in prepare {
        let mut sim = Sim::new(2048);
        sim.interrupts = asynchronous;
        let mut driver = sim.driver();
        sim.user = vec![0; 512];
        fault(&mut sim);
        let begin = if asynchronous {
            driver.write_block_async(1)
        } else {
            driver.write_block(1)
        };
        let started = sim.time;
        assert_eq!(sim.request(&mut driver, begin), Err(error));
        assert!(sim.time - started >= allowed);
    }
}

#[test]
fn clock_divider_changes_only_while_the_clock_is_off() {
    let mut sim = Sim::new(2048);
    sim.driver();
    let mut at: Step<SwitchClock, bool> = Step::Next(SwitchClock::new(2));
    let mut enabled = true;
    loop {
        match at {
            Step::Done(done) => {
                assert!(done);
                break;
            }
            Step::Next(machine) => {
                let op = machine.request();
                if let Op::Write(Reg::ClkEna, word) = op {
                    enabled = word != 0;
                }
                if let Op::Write(Reg::ClkDiv, word) = op {
                    assert!(!enabled);
                    assert_eq!(word, 2);
                }
                at = machine.step(sim.perform(op));
            }
        }
    }
    assert!(enabled);
    sim.deaf = Some(Reg::ClkDiv);
    assert!(!sim.run(Step::Next(SwitchClock::new(1))));
}
