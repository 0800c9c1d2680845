//! Decoding of card statuses.

use sdmmc::status::{R1CardStatus, R1CurrentState};

#[test]
fn r1_decodes_state_and_non_error_status() {
    let raw = (4 << 9) | (1 << 8) | (1 << 6) | (1 << 5);
    let status = R1CardStatus::from_raw(raw);

    assert_eq!(status.current_state(), R1CurrentState::Transfer);
    assert!(status.ready_for_data());
    assert!(status.exception_event());
    assert!(status.app_cmd());
    assert!(!status.has_error());
}

#[test]
fn r1_error_mask_covers_every_sd_error_bit() {
    let error_bits = [
        31, 30, 29, 28, 27, 26, 25, 24, 23, 22, 21, 20, 19, 16, 15, 7, 3,
    ];

    for bit in error_bits {
        let status = R1CardStatus::from_raw(1 << bit);
        assert!(status.has_error(), "R1 bit {bit} was not treated as an error");
        assert_eq!(status.error_bits(), 1 << bit);
    }
}

#[test]
fn r1_status_bits_are_not_errors() {
    let status = R1CardStatus::from_raw((1 << 14) | (1 << 13) | (7 << 9) | (1 << 8));

    assert!(status.card_ecc_disabled());
    assert!(status.erase_reset());
    assert_eq!(status.current_state(), R1CurrentState::Programming);
    assert!(status.ready_for_data());
    assert!(!status.has_error());
}

#[test]
fn each_flag_has_its_bit() {
    let flags: [(u32, fn(R1CardStatus) -> bool); 22] = [
        (31, R1CardStatus::out_of_range),
        (30, R1CardStatus::address_error),
        (29, R1CardStatus::block_len_error),
        (28, R1CardStatus::erase_seq_error),
        (27, R1CardStatus::erase_param),
        (26, R1CardStatus::wp_violation),
        (25, R1CardStatus::card_is_locked),
        (24, R1CardStatus::lock_unlock_failed),
        (23, R1CardStatus::com_crc_error),
        (22, R1CardStatus::illegal_command),
        (21, R1CardStatus::card_ecc_failed),
        (20, R1CardStatus::cc_error),
        (19, R1CardStatus::error),
        (16, R1CardStatus::cid_csd_overwrite),
        (15, R1CardStatus::wp_erase_skip),
        (14, R1CardStatus::card_ecc_disabled),
        (13, R1CardStatus::erase_reset),
        (8, R1CardStatus::ready_for_data),
        (7, R1CardStatus::switch_error),
        (6, R1CardStatus::exception_event),
        (5, R1CardStatus::app_cmd),
        (3, R1CardStatus::ake_seq_error),
    ];
    for (bit, flag) in flags {
        for position in 0..32 {
            assert_eq!(flag(R1CardStatus::from_raw(1 << position)), position == bit);
        }
    }
}
