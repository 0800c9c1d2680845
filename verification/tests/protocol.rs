//! Words, records and rules of the protocol.

use sdmmc::block_driver::{admit_write, check_request, disk_outcome, DiskError};
use sdmmc::blocks::{chunk_blocks, chunk_request, validate_block_buffer, Direction};
use sdmmc::card::{join_response, Cid, CsdV2, ManufacturingDate, ProductRevision};
use sdmmc::clock::card_clock_hz;
use sdmmc::cmd::{Command, CommandKind, DataPhase, DataXfer};
use sdmmc::completion::{IdmacCompletion, IdmacStatus, IrqActions};
use sdmmc::dma::{chain_descriptor, descriptor_count, layout_is_valid, IdmacDescriptor};
use sdmmc::enable::{
    idmac_controller_interrupt_mask, idmac_controller_interrupt_mask_matches, AHBDataWidth,
};
use sdmmc::error::{validate_r1_response, SdMmcError};
use sdmmc::init::{
    high_capacity, if_cond_accepted, power_up_complete, rca_arg, relative_address, scr_bus_widths,
};
use sdmmc::ready::is_programmed;
use sdmmc::regs::{Cmd, IdSts, IntMask, RIntSts, Status};
use sdmmc::status::R1CardStatus;
use sdmmc::words::{load_word, store_word};

#[test]
fn command_flags() {
    let has = |kind: CommandKind, bits: u32| kind.build_word().0 & bits != 0;
    assert!(has(CommandKind::AllSendCid, Cmd::RESPONSE_LENGTH));
    assert!(has(CommandKind::SendCsd, Cmd::RESPONSE_LENGTH));
    assert!(!has(CommandKind::SendStatus, Cmd::RESPONSE_LENGTH));
    assert!(has(CommandKind::SendStatus, Cmd::CHECK_RESPONSE_CRC));
    assert!(!has(CommandKind::SdSendOpCond, Cmd::CHECK_RESPONSE_CRC));
    assert!(!has(CommandKind::GoIdleState, Cmd::CHECK_RESPONSE_CRC));
    assert!(has(CommandKind::GoIdleState, Cmd::SEND_INITIALIZATION));
    assert!(!has(CommandKind::AppCmd, Cmd::SEND_INITIALIZATION));
    assert!(has(CommandKind::ResetClock, Cmd::UPDATE_CLOCK));
    assert!(!has(CommandKind::SelectCard, Cmd::UPDATE_CLOCK));
    assert!(has(CommandKind::WriteSingleBlock, Cmd::USE_HOLD_REG));
    assert!(!has(CommandKind::ResetClock, Cmd::USE_HOLD_REG));
}

#[test]
fn command_words() {
    let start = 0x8000_0000u32;
    let words = [
        (CommandKind::GoIdleState, 0xa000_8000u32),
        (CommandKind::AllSendCid, 0xa000_01c2),
        (CommandKind::SendRelativeAddr, 0xa000_0143),
        (CommandKind::SelectCard, 0xa000_0147),
        (CommandKind::SendIfCond, 0xa000_0148),
        (CommandKind::SendCsd, 0xa000_01c9),
        (CommandKind::SendStatus, 0xa000_014d),
        (CommandKind::ReadSingleBlock, 0xa000_0351),
        (CommandKind::ReadMultipleBlocks, 0xa000_1352),
        (CommandKind::WriteSingleBlock, 0xa000_0758),
        (CommandKind::WriteMultipleBlocks, 0xa000_1759),
        (CommandKind::SdSendOpCond, 0xa000_0069),
        (CommandKind::SendScr, 0xa000_0373),
        (CommandKind::AppCmd, 0xa000_0177),
        (CommandKind::ResetClock, 0x8020_0000),
    ];
    for (kind, word) in words {
        let built = kind.build_word().0 | start;
        assert_eq!(built & !0x2000, word, "{kind:?}");
    }
}

#[test]
fn commands_carry_argument_and_buffer() {
    let mut buffer = [0u8; 512];
    let (word, arg, data) = Command::ReadSingleBlock(77, &mut buffer).build();
    assert_eq!(word.cmd_index(), 17);
    assert!(word.data_expected());
    assert_eq!(arg, 77);
    assert!(matches!(data, Some(DataXfer::Read(bytes)) if bytes.len() == 512));
    let source = [1u8; 1024];
    let (word, arg, data) = Command::WriteMultipleBlocks(5, &source).build();
    assert!(word.read_write() && word.send_auto_stop());
    assert_eq!(arg, 5);
    assert!(matches!(data, Some(DataXfer::Write(bytes)) if bytes == source));
    let (word, arg, data) = Command::SendIfCond(0x1aa).build();
    assert!(!word.data_expected());
    assert_eq!(arg, 0x1aa);
    assert!(data.is_none());
    assert_eq!(Command::AppCmd(3).cmd_index(), 55);
    let request = Command::WriteSingleBlock(9, &source[..512]).request();
    assert_eq!(request.kind, CommandKind::WriteSingleBlock);
    assert_eq!(request.data, DataPhase::Write(512));
    assert_eq!(request.arg, 9);
}

#[test]
fn responses_of_the_first_format() {
    for kind in [
        CommandKind::SelectCard,
        CommandKind::AppCmd,
        CommandKind::ReadSingleBlock,
        CommandKind::ReadMultipleBlocks,
        CommandKind::WriteSingleBlock,
        CommandKind::WriteMultipleBlocks,
        CommandKind::SendScr,
        CommandKind::SendStatus,
    ] {
        assert!(kind.has_r1_response(), "{kind:?}");
    }
    for kind in [
        CommandKind::GoIdleState,
        CommandKind::AllSendCid,
        CommandKind::SendRelativeAddr,
        CommandKind::SendIfCond,
        CommandKind::SendCsd,
        CommandKind::SdSendOpCond,
        CommandKind::ResetClock,
    ] {
        assert!(!kind.has_r1_response(), "{kind:?}");
    }
    assert!(CommandKind::AppCmd.requires_app_cmd_accepted());
    assert!(!CommandKind::SelectCard.requires_app_cmd_accepted());
}

#[test]
fn response_verdicts() {
    assert_eq!(validate_r1_response(0x900, false), Ok(()));
    assert_eq!(validate_r1_response(0x920, true), Ok(()));
    let failed = R1CardStatus::from_raw(0x8000_0900);
    assert_eq!(validate_r1_response(0x8000_0900, false), Err(SdMmcError::CardStatus(failed)));
    assert_eq!(validate_r1_response(0x8000_0900, true), Err(SdMmcError::CardStatus(failed)));
    let plain = R1CardStatus::from_raw(0x900);
    assert_eq!(validate_r1_response(0x900, true), Err(SdMmcError::AppCommandRejected(plain)));
}

#[test]
fn statuses_as_text() {
    assert_eq!(
        R1CardStatus::from_raw(0x8008_0920).describe(),
        "R1CardStatus { raw: 0x80080920, error_bits: 0x80080000, errors: [\"OUT_OF_RANGE\", \
         \"ERROR\"], current_state: Transfer, ready_for_data: true, app_cmd: true, \
         exception_event: false }"
    );
    assert_eq!(
        R1CardStatus::from_raw(12 << 9).describe(),
        "R1CardStatus { raw: 0x00001800, error_bits: 0x00000000, errors: [], current_state: \
         Reserved(12), ready_for_data: false, app_cmd: false, exception_event: false }"
    );
}

#[test]
fn commands_as_text() {
    let mut buffer = [0u8; 512];
    assert_eq!(Command::GoIdleState.describe(), "GoIdleState");
    assert_eq!(Command::SelectCard(65536).describe(), "SelectCard(65536)");
    assert_eq!(Command::SdSendOpCond(0).describe(), "SdSendOpCond(0)");
    assert_eq!(Command::SendStatus(7).describe(), "SendStatus(7)");
    assert_eq!(Command::ReadMultipleBlocks(10, &mut buffer).describe(), "ReadMultipleBlocks(10)");
    assert_eq!(Command::SendScr(&mut buffer).describe(), "SendScr");
    assert_eq!(Command::ResetClock.describe(), "ResetClock");
}

#[test]
fn identification_as_text() {
    let response = [0x0059_c480, 0x4000_0001, 0x4142_4344, 0x0353_4453];
    let cid = Cid::from_response(response);
    assert_eq!(join_response(response), 0x0353_4453_4142_4344_4000_0001_0059_c480);
    assert_eq!(
        cid.describe(),
        "Cid { mid: 3, oid: \"SD\", pnm: \"SABCD\", prv: 4.0, psn: 256, mdt: 04/3436, crc: 64 }"
            .replace("04/3436", &cid.mdt().describe())
    );
    let odd = Cid(0x03ff_feff_4142_4344_4000_0001_0059_c480);
    assert_eq!(
        odd.describe(),
        format!(
            "Cid {{ mid: 3, oid: \"Invalid OEM ID\", pnm: \"Invalid Product Name\", prv: 4.0, \
             psn: 256, mdt: {}, crc: 64 }}",
            cid.mdt().describe()
        )
    );
    let quotes = Cid(0x0322_5c0a_4142_4344_4000_0001_0059_c480);
    assert!(quotes.describe().contains("oid: \"\\\"\\\\\", pnm: \"\\nABCD\""));
    assert_eq!(ProductRevision(0x8f).describe(), "8.15");
    assert_eq!(ManufacturingDate(0x0f25).describe(), "05/2242");
    assert_eq!(ManufacturingDate(0x018c).describe(), "12/2024");
    assert_eq!(ManufacturingDate(0x018c).year(), 24);
    assert_eq!(ManufacturingDate(0x018c).calendar_year(), 2024);
}

#[test]
fn capacity_of_a_card() {
    let csd = CsdV2((1u128 << 126) | (0x3b37u128 << 48));
    assert_eq!(csd.csd_structure(), 1);
    assert_eq!(csd.c_size(), 0x3b37);
    assert_eq!(csd.num_blocks(), 15_523_840);
    assert_eq!(CsdV2(0).num_blocks(), 1024);
    assert_eq!(CsdV2(u128::MAX).num_blocks(), 1 << 32);
}

#[test]
fn fields_of_a_card_description() {
    let csd = CsdV2(0x400e_0032_5b59_0000_3b37_7f80_0a40_4041);
    assert_eq!((csd.csd_structure(), csd.taac(), csd.nsac()), (1, 0x0e, 0));
    assert_eq!((csd.tran_speed(), csd.ccc(), csd.read_bl_len()), (0x32, 0x5b5, 9));
    assert!(!csd.read_blk_partial() && !csd.dsr_imp());
    assert!(!csd.write_blk_misaligned() && !csd.read_blk_misaligned());
    assert_eq!(csd.c_size(), 0x3b37);
    assert!(csd.erase_blk_en() && !csd.wp_grp_enable());
    assert_eq!((csd.sector_size(), csd.wp_grp_size()), (0x7f, 0));
    assert_eq!((csd.r2w_factor(), csd.write_bl_len()), (2, 9));
    assert!(!csd.write_blk_partial() && !csd.file_format_grp() && csd.copy());
    assert!(!csd.perm_write_protect() && !csd.tmp_write_protect());
    assert_eq!((csd.file_format(), csd.crc()), (0, 0x20));
    let flags = |bit: u32| {
        let csd = CsdV2(1 << bit);
        [
            csd.read_blk_partial(),
            csd.write_blk_misaligned(),
            csd.read_blk_misaligned(),
            csd.dsr_imp(),
            csd.erase_blk_en(),
            csd.wp_grp_enable(),
            csd.write_blk_partial(),
            csd.file_format_grp(),
            csd.copy(),
            csd.perm_write_protect(),
            csd.tmp_write_protect(),
        ]
    };
    for (place, bit) in [79, 78, 77, 76, 46, 31, 21, 15, 14, 13, 12].into_iter().enumerate() {
        let set = flags(bit);
        for (other, value) in set.into_iter().enumerate() {
            assert_eq!(value, other == place);
        }
    }
}

#[test]
fn descriptors_of_a_chain() {
    assert_eq!(descriptor_count(0), 0);
    assert_eq!(descriptor_count(512), 1);
    assert_eq!(descriptor_count(4096), 1);
    assert_eq!(descriptor_count(4097), 2);
    assert_eq!(descriptor_count(16384), 4);
    let only = chain_descriptor(0, 512, 0x4000_0000, 0x5000_0000);
    assert!(only.des0.own() && only.des0.fs() && only.des0.ld() && !only.des0.ch());
    assert_eq!(only.des1.bs1(), 512);
    assert_eq!(only.des2, 0x4000_0000);
    assert_eq!(only.des3, 0);
    let first = chain_descriptor(0, 16384, 0x4000_0000, 0x5000_0000);
    assert!(first.des0.fs() && !first.des0.ld() && first.des0.dic() && first.des0.ch());
    assert_eq!(first.des1.bs1(), 4096);
    assert_eq!(first.des3, 0x5000_0010);
    let last = chain_descriptor(3, 16000, 0x4000_0000, 0x5000_0000);
    assert!(!last.des0.fs() && last.des0.ld() && !last.des0.dic());
    assert_eq!(last.des1.bs1(), 3712);
    assert_eq!(last.des2, 0x4000_3000);
    assert_eq!(last.des3, 0);
}

#[test]
fn control_word_of_a_descriptor() {
    let mut descriptor = IdmacDescriptor::new();
    descriptor.set_desc0_control_descriptor(true, false, false, true, true, false, true);
    assert_eq!(descriptor.des0.0, 0x8000_001a);
    descriptor.set_desc0_control_descriptor(false, true, true, false, false, true, false);
    assert_eq!(descriptor.des0.0, 0x4000_0024);
    descriptor.set_des1_buffer1_size(0x1fff);
    assert_eq!(descriptor.des1.bs1(), 0x1fff);
    descriptor.set_des2_buffer1_address(0xdead_bee0);
    descriptor.set_des3_next_descriptor_address(0x1234_5670);
    assert_eq!((descriptor.des2, descriptor.des3), (0xdead_bee0, 0x1234_5670));
    assert!(layout_is_valid(16384, 4));
    assert!(!layout_is_valid(usize::MAX, 8));
}

#[test]
fn interrupts_are_recorded_per_transfer() {
    let mut completion = IdmacCompletion::new();
    assert_eq!(completion.current_generation(), 0);
    completion.record_irq(RIntSts(0x8), IdSts(0x2));
    let first = completion.begin_transfer();
    assert_eq!(completion.snapshot_bits(first), None);
    completion.record_irq(RIntSts(0x8), IdSts(0x2));
    completion.record_irq(RIntSts(0x4000), IdSts(0x100));
    assert_eq!(completion.snapshot_bits(first), Some((0x4008, 0x102)));
    let second = completion.begin_transfer();
    assert_ne!(first, second);
    assert_eq!(completion.snapshot_bits(second), None);
    assert_eq!(completion.snapshot_bits(first), None);
}

#[test]
fn generations_wrap_around() {
    let mut completion = IdmacCompletion::new();
    completion.generation = usize::MAX;
    let generation = completion.begin_transfer();
    assert_eq!(generation, 0);
    assert_eq!(completion.begin_transfer(), 1);
}

#[test]
fn status_joins_registers_and_records() {
    let cmd = CommandKind::ReadMultipleBlocks.build_word();
    let status = IdmacStatus::idmac_completion_status(0x4, 0x0, Some((0x4008, 0x2)), false);
    assert_eq!(status.rintsts.0, 0x400c);
    assert_eq!(status.idsts.0, 0x2);
    assert!(status.idmac_command_done_or_error());
    assert!(status.idmac_terminal_events_or_error(cmd));
    assert!(!status.idmac_status_has_error());
    let without_stop = IdmacStatus::idmac_completion_status(0xc, 0x2, None, false);
    assert!(!without_stop.idmac_terminal_events_or_error(cmd));
    let single = CommandKind::ReadSingleBlock.build_word();
    assert!(without_stop.idmac_terminal_events_or_error(single));
    let flagged = IdmacStatus::idmac_completion_status(0, 0, None, true);
    assert!(flagged.idmac_command_done_or_error() && flagged.idmac_terminal_events_or_error(cmd));
}

#[test]
fn interrupt_handler_keeps_command_done() {
    let actions = IrqActions::decide(RIntSts(0xc), IdSts(0x102));
    assert!(actions.notify && !actions.error);
    assert_eq!(actions.clear_rintsts.unwrap() & 0x4, 0);
    assert_eq!(actions.clear_rintsts.unwrap() & 0x8, 0x8);
    assert_eq!(actions.clear_idsts.unwrap() & 0x2, 0x2);
    let failed = IrqActions::decide(RIntSts(0x80), IdSts(0));
    assert!(failed.error && failed.notify);
    let nothing = IrqActions::decide(RIntSts(0), IdSts(0));
    assert!(!nothing.error && !nothing.notify);
    assert_eq!((nothing.clear_idsts, nothing.clear_rintsts), (None, None));
}

#[test]
fn interrupt_handler_silences_what_is_enabled() {
    let mask = idmac_controller_interrupt_mask().0;
    for bit in 0..16 {
        let found = 1u32 << bit | 0x4;
        let actions = IrqActions::decide(RIntSts(found), IdSts(0));
        if found & mask != 0 {
            assert!(actions.notify);
            assert_eq!(found & !actions.clear_rintsts.unwrap() & mask, 0);
        }
    }
    assert_eq!(IrqActions::decide(RIntSts(0), IdSts(0x337)).clear_idsts, Some(0x337));
    let requests = IrqActions::decide(RIntSts(0x34), IdSts(0));
    assert!(!requests.notify && !requests.error);
    assert_eq!(requests.clear_rintsts, Some(0x30));
}

#[test]
fn interrupt_mask_of_the_controller() {
    let mask = idmac_controller_interrupt_mask();
    assert_eq!(mask.0, 0xdfca);
    assert!(idmac_controller_interrupt_mask_matches(mask));
    assert!(!idmac_controller_interrupt_mask_matches(IntMask(0xdfca & !0x8)));
    assert_eq!(AHBDataWidth::Bits16.align_value(), 2);
    assert_eq!(AHBDataWidth::Bits32.align_value(), 4);
    assert_eq!(AHBDataWidth::Bits64.align_value(), 8);
    assert_eq!(AHBDataWidth::of_code(0), Some(AHBDataWidth::Bits16));
    assert_eq!(AHBDataWidth::of_code(3), None);
}

#[test]
fn identification_rules() {
    assert!(if_cond_accepted(0x1aa));
    assert!(if_cond_accepted(0xffff_f1aa));
    assert!(!if_cond_accepted(0x2aa));
    assert!(power_up_complete(0x8000_0000) && !power_up_complete(0x7fff_ffff));
    assert!(high_capacity(0x4000_0000) && !high_capacity(0xbfff_ffff));
    assert_eq!(relative_address(0x1234_0500), Some(0x1234));
    assert_eq!(relative_address(0x0000_0500), None);
    assert_eq!(rca_arg(0x1234), 0x1234_0000);
    assert_eq!(scr_bus_widths([0x02, 0x35, 0, 0, 0, 0, 0, 0]), 5);
    assert_eq!(card_clock_hz(1), 24_750_000);
    assert_eq!(card_clock_hz(100), 247_500);
}

#[test]
fn programming_is_over_when_card_and_lines_agree() {
    assert!(is_programmed(0x900, Status(0)));
    assert!(!is_programmed(0x800, Status(0)));
    assert!(!is_programmed(0xe00, Status(0)));
    assert!(!is_programmed(0x900, Status(0x200)));
}

#[test]
fn ranges_of_requests() {
    assert_eq!(validate_block_buffer(0, 1024, 100), Ok(2));
    assert_eq!(validate_block_buffer(99, 512, 100), Ok(1));
    assert_eq!(validate_block_buffer(99, 1024, 100), Err(SdMmcError::OutOfRange));
    assert_eq!(validate_block_buffer(0, 0, 100), Err(SdMmcError::InvalidParameter));
    assert_eq!(validate_block_buffer(0, 513, 100), Err(SdMmcError::InvalidParameter));
    assert_eq!(validate_block_buffer(u32::MAX, 512, 1 << 32), Ok(1));
    assert_eq!(validate_block_buffer(u32::MAX, 1024, 1 << 33), Err(SdMmcError::OutOfRange));
}

#[test]
fn chunks_of_requests() {
    assert_eq!(chunk_blocks(Direction::Read, 1), 1);
    assert_eq!(chunk_blocks(Direction::Read, 3), 1);
    assert_eq!(chunk_blocks(Direction::Read, 4), 4);
    assert_eq!(chunk_blocks(Direction::Read, 33), 32);
    assert_eq!(chunk_blocks(Direction::Write, 2), 2);
    assert_eq!(chunk_blocks(Direction::Write, 100), 32);
    let request = chunk_request(Direction::Write, 8, 1024);
    assert_eq!(request.kind, CommandKind::WriteMultipleBlocks);
    assert_eq!(request.data, DataPhase::Write(1024));
    let request = chunk_request(Direction::Read, 8, 512);
    assert_eq!(request.kind, CommandKind::ReadSingleBlock);
    assert_eq!(request.arg, 8);
}

#[test]
fn requests_of_the_block_layer() {
    assert_eq!(check_request(5, 1024, 100), Some(5));
    assert_eq!(check_request(98, 1024, 100), Some(98));
    assert_eq!(check_request(99, 1024, 100), None);
    assert_eq!(check_request(0, 0, 100), None);
    assert_eq!(check_request(0, 100, 100), None);
    assert_eq!(check_request(1 << 32, 512, 1 << 33), None);
    assert_eq!(DiskError::Io.errno(), 5);
    assert_eq!(DiskError::ReadOnly.errno(), 30);
    assert_eq!(admit_write(true), Err(DiskError::ReadOnly));
    assert_eq!(admit_write(false), Ok(()));
    assert_eq!(disk_outcome(true, 512), Ok(512));
    assert_eq!(disk_outcome(false, 512), Err(DiskError::Io));
}

#[test]
fn words_in_bytes() {
    let mut data = [0xffu8; 12];
    store_word(&mut data, 2, 0x0123_4567_89ab_cdef);
    assert_eq!(data, [0xff, 0xff, 0xef, 0xcd, 0xab, 0x89, 0x67, 0x45, 0x23, 0x01, 0xff, 0xff]);
    assert_eq!(load_word(&data, 2), 0x0123_4567_89ab_cdef);
    assert_eq!(load_word(&data, 4), 0xffff_0123_4567_89ab);
}

#[test]
fn command_word_reads_back() {
    let word = Cmd(0xa000_1759);
    assert_eq!(word.cmd_index(), 25);
    assert!(word.response_expect() && word.read_write() && word.send_auto_stop());
}
