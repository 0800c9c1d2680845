//! The card status word of R1 and R1b responses.

use vstd::prelude::*;

verus! {

/// The card state encoded in an SD R1 response.
#[derive(Clone, Copy, Debug, Eq, PartialEq, Structural)]
pub enum R1CurrentState {
    /// Card is in the idle state.
    Idle,
    /// Card is ready after initialization.
    Ready,
    /// Card is in the identification state.
    Identification,
    /// Card is in the standby state.
    Standby,
    /// Card is ready for data transfer.
    Transfer,
    /// Card is sending data.
    SendingData,
    /// Card is receiving data.
    ReceiveData,
    /// Card is programming received data.
    Programming,
    /// Card is disconnected.
    Disconnect,
    /// Reserved state value reported by the card.
    Reserved(u8),
}

/// The state that a code of bits 12 to 9 of the card status stands for.
pub open spec fn state_of_code(code: int) -> R1CurrentState {
    if code == 0 {
        R1CurrentState::Idle
    } else if code == 1 {
        R1CurrentState::Ready
    } else if code == 2 {
        R1CurrentState::Identification
    } else if code == 3 {
        R1CurrentState::Standby
    } else if code == 4 {
        R1CurrentState::Transfer
    } else if code == 5 {
        R1CurrentState::SendingData
    } else if code == 6 {
        R1CurrentState::ReceiveData
    } else if code == 7 {
        R1CurrentState::Programming
    } else if code == 8 {
        R1CurrentState::Disconnect
    } else {
        R1CurrentState::Reserved(code as u8)
    }
}

/// Bit `n` of `raw` is set.
pub open spec fn bit_set(raw: u32, n: u32) -> bool {
    raw & (1u32 << n) != 0
}

/// Decoded SD card status returned by commands with an R1 or R1b response.
#[derive(Clone, Copy, Debug, Eq, PartialEq, Structural)]
pub struct R1CardStatus(u32);

impl R1CardStatus {
    /// All R1 bits that make a command unsuccessful for this driver.
    pub const ERROR_MASK: u32 = 0xfff9_8088;

    /// The card status word.
    pub closed spec fn view(self) -> u32 {
        self.0
    }

    /// A status of the driver's own making, for specifications.
    pub closed spec fn of(raw: u32) -> R1CardStatus {
        R1CardStatus(raw)
    }

    /// A status is its word and nothing else.
    pub proof fn law_status_is_its_word(self, raw: u32)
        ensures
            R1CardStatus::of(raw)@ == raw,
            R1CardStatus::of(self@) == self,
    {
    }

    /// Creates a card status from the raw 32-bit response.
    pub fn from_raw(raw: u32) -> (status: R1CardStatus)
        ensures
            status == R1CardStatus::of(raw),
            status@ == raw,
    {
        R1CardStatus(raw)
    }

    /// Returns the raw 32-bit card status.
    pub fn raw(self) -> (raw: u32)
        ensures
            raw == self@,
    {
        self.0
    }

    /// Returns all asserted error bits.
    pub fn error_bits(self) -> (bits: u32)
        ensures
            bits == self@ & R1CardStatus::ERROR_MASK,
    {
        self.0 & Self::ERROR_MASK
    }

    /// Some error bit of the status is asserted.
    pub open spec fn failed(self) -> bool {
        self@ & R1CardStatus::ERROR_MASK != 0
    }

    /// Returns whether any R1 error bit is asserted.
    pub fn has_error(self) -> (failed: bool)
        ensures
            failed == self.failed(),
    {
        self.error_bits() != 0
    }

    /// Address or block range is outside the card capacity.
    pub fn out_of_range(self) -> (set: bool)
        ensures
            set == bit_set(self@, 31),
    {
        self.bit(31)
    }

    /// A command address is not correctly aligned.
    pub fn address_error(self) -> (set: bool)
        ensures
            set == bit_set(self@, 30),
    {
        self.bit(30)
    }

    /// The requested block length is invalid.
    pub fn block_len_error(self) -> (set: bool)
        ensures
            set == bit_set(self@, 29),
    {
        self.bit(29)
    }

    /// An erase command occurred in an invalid sequence.
    pub fn erase_seq_error(self) -> (set: bool)
        ensures
            set == bit_set(self@, 28),
    {
        self.bit(28)
    }

    /// An erase parameter is invalid.
    pub fn erase_param(self) -> (set: bool)
        ensures
            set == bit_set(self@, 27),
    {
        self.bit(27)
    }

    /// The command attempted to write protected data.
    pub fn wp_violation(self) -> (set: bool)
        ensures
            set == bit_set(self@, 26),
    {
        self.bit(26)
    }

    /// The card is locked.
    pub fn card_is_locked(self) -> (set: bool)
        ensures
            set == bit_set(self@, 25),
    {
        self.bit(25)
    }

    /// A lock or unlock operation failed.
    pub fn lock_unlock_failed(self) -> (set: bool)
        ensures
            set == bit_set(self@, 24),
    {
        self.bit(24)
    }

    /// The card detected a command CRC error.
    pub fn com_crc_error(self) -> (set: bool)
        ensures
            set == bit_set(self@, 23),
    {
        self.bit(23)
    }

    /// The command is illegal for the card state or card type.
    pub fn illegal_command(self) -> (set: bool)
        ensures
            set == bit_set(self@, 22),
    {
        self.bit(22)
    }

    /// The card's internal ECC failed.
    pub fn card_ecc_failed(self) -> (set: bool)
        ensures
            set == bit_set(self@, 21),
    {
        self.bit(21)
    }

    /// An internal card controller error occurred.
    pub fn cc_error(self) -> (set: bool)
        ensures
            set == bit_set(self@, 20),
    {
        self.bit(20)
    }

    /// A general card error occurred.
    pub fn error(self) -> (set: bool)
        ensures
            set == bit_set(self@, 19),
    {
        self.bit(19)
    }

    /// CID or CSD overwrite protection was violated.
    pub fn cid_csd_overwrite(self) -> (set: bool)
        ensures
            set == bit_set(self@, 16),
    {
        self.bit(16)
    }

    /// A write-protected erase group was skipped.
    pub fn wp_erase_skip(self) -> (set: bool)
        ensures
            set == bit_set(self@, 15),
    {
        self.bit(15)
    }

    /// Card internal ECC is disabled.
    pub fn card_ecc_disabled(self) -> (set: bool)
        ensures
            set == bit_set(self@, 14),
    {
        self.bit(14)
    }

    /// The card reset its erase sequence before execution.
    pub fn erase_reset(self) -> (set: bool)
        ensures
            set == bit_set(self@, 13),
    {
        self.bit(13)
    }

    /// The card state, bits 12 to 9 of the status.
    pub open spec fn state(self) -> R1CurrentState {
        state_of_code(((self@ >> 9u32) & 0xf) as int)
    }

    /// Returns the current card state.
    pub fn current_state(self) -> (state: R1CurrentState)
        ensures
            state == self.state(),
    {
        let code: u32 = (self.0 >> 9u32) & 0xf;
        match code {
            0 => R1CurrentState::Idle,
            1 => R1CurrentState::Ready,
            2 => R1CurrentState::Identification,
            3 => R1CurrentState::Standby,
            4 => R1CurrentState::Transfer,
            5 => R1CurrentState::SendingData,
            6 => R1CurrentState::ReceiveData,
            7 => R1CurrentState::Programming,
            8 => R1CurrentState::Disconnect,
            _ => R1CurrentState::Reserved(code as u8),
        }
    }

    /// The card can accept the next data command.
    pub fn ready_for_data(self) -> (set: bool)
        ensures
            set == bit_set(self@, 8),
    {
        self.bit(8)
    }

    /// A switch command failed.
    pub fn switch_error(self) -> (set: bool)
        ensures
            set == bit_set(self@, 7),
    {
        self.bit(7)
    }

    /// The card is reporting an exception event.
    pub fn exception_event(self) -> (set: bool)
        ensures
            set == bit_set(self@, 6),
    {
        self.bit(6)
    }

    /// The preceding CMD55 was accepted and the next command is application-specific.
    pub fn app_cmd(self) -> (set: bool)
        ensures
            set == bit_set(self@, 5),
    {
        self.bit(5)
    }

    /// An authentication sequence error occurred.
    pub fn ake_seq_error(self) -> (set: bool)
        ensures
            set == bit_set(self@, 3),
    {
        self.bit(3)
    }

    fn bit(self, bit: u32) -> (set: bool)
        requires
            bit < 32,
        ensures
            set == bit_set(self@, bit),
    {
        self.0 & (1u32 << bit) != 0
    }

    /// The names of the asserted error bits, from the highest bit down.
    pub open spec fn names(self) -> Seq<&'static str> {
        error_names_below(self@, 32)
    }

    /// Names every asserted error bit, from the highest bit down.
    pub fn error_names(self) -> (names: Vec<&'static str>)
        ensures
            names@ == self.names(),
    {
        let mut names: Vec<&'static str> = Vec::new();
        let mut next: u32 = 32;
        while next > 0
            invariant
                next <= 32,
                names@ + error_names_below(self@, next as nat) == self.names(),
            decreases next,
        {
            let bit: u32 = next - 1;
            proof {
                assert(names@ + error_names_below(self@, next as nat)
                    == names@ + named_bit(self@, bit) + error_names_below(self@, bit as nat));
            }
            match error_bit_name(bit) {
                Some(name) => {
                    if self.bit(bit) {
                        names.push(name);
                    }
                },
                None => {},
            }
            next = bit;
        }
        names
    }
}

/// The name of the error that bit `bit` of the card status reports.
pub open spec fn name_of_error_bit(bit: u32) -> Option<&'static str> {
    if bit == 31 {
        Some("OUT_OF_RANGE")
    } else if bit == 30 {
        Some("ADDRESS_ERROR")
    } else if bit == 29 {
        Some("BLOCK_LEN_ERROR")
    } else if bit == 28 {
        Some("ERASE_SEQ_ERROR")
    } else if bit == 27 {
        Some("ERASE_PARAM")
    } else if bit == 26 {
        Some("WP_VIOLATION")
    } else if bit == 25 {
        Some("CARD_IS_LOCKED")
    } else if bit == 24 {
        Some("LOCK_UNLOCK_FAILED")
    } else if bit == 23 {
        Some("COM_CRC_ERROR")
    } else if bit == 22 {
        Some("ILLEGAL_COMMAND")
    } else if bit == 21 {
        Some("CARD_ECC_FAILED")
    } else if bit == 20 {
        Some("CC_ERROR")
    } else if bit == 19 {
        Some("ERROR")
    } else if bit == 16 {
        Some("CID_CSD_OVERWRITE")
    } else if bit == 15 {
        Some("WP_ERASE_SKIP")
    } else if bit == 7 {
        Some("SWITCH_ERROR")
    } else if bit == 3 {
        Some("AKE_SEQ_ERROR")
    } else {
        None
    }
}

/// What bit `bit` of `raw` adds to the list of errors.
pub open spec fn named_bit(raw: u32, bit: u32) -> Seq<&'static str> {
    match name_of_error_bit(bit) {
        Some(name) => if bit_set(raw, bit) {
            seq![name]
        } else {
            seq![]
        },
        None => seq![],
    }
}

/// The names of the errors that bits `bits - 1` down to 0 of `raw` report.
pub open spec fn error_names_below(raw: u32, bits: nat) -> Seq<&'static str>
    decreases bits,
{
    if bits == 0 {
        seq![]
    } else {
        named_bit(raw, (bits - 1) as u32) + error_names_below(raw, (bits - 1) as nat)
    }
}

fn error_bit_name(bit: u32) -> (name: Option<&'static str>)
    ensures
        name == name_of_error_bit(bit),
{
    match bit {
        31 => Some("OUT_OF_RANGE"),
        30 => Some("ADDRESS_ERROR"),
        29 => Some("BLOCK_LEN_ERROR"),
        28 => Some("ERASE_SEQ_ERROR"),
        27 => Some("ERASE_PARAM"),
        26 => Some("WP_VIOLATION"),
        25 => Some("CARD_IS_LOCKED"),
        24 => Some("LOCK_UNLOCK_FAILED"),
        23 => Some("COM_CRC_ERROR"),
        22 => Some("ILLEGAL_COMMAND"),
        21 => Some("CARD_ECC_FAILED"),
        20 => Some("CC_ERROR"),
        19 => Some("ERROR"),
        16 => Some("CID_CSD_OVERWRITE"),
        15 => Some("WP_ERASE_SKIP"),
        7 => Some("SWITCH_ERROR"),
        3 => Some("AKE_SEQ_ERROR"),
        _ => None,
    }
}

/// The error mask covers every bit that carries an error name, and no other
/// bit: a status is unsuccessful exactly if some named error bit is set.
pub proof fn law_error_mask_covers_named_bits(raw: u32)
    ensures
        R1CardStatus::of(raw).failed() <==> exists|n: u32|
            n < 32 && name_of_error_bit(n) is Some && #[trigger] bit_set(raw, n),
{
    let status = R1CardStatus::of(raw);
    if exists|n: u32| n < 32 && name_of_error_bit(n) is Some && #[trigger] bit_set(raw, n) {
        let n = choose|n: u32|
            n < 32 && name_of_error_bit(n) is Some && #[trigger] bit_set(raw, n);
        assert(raw & 0xfff9_8088 != 0) by (bit_vector)
            requires
                raw & (1u32 << n) != 0,
                n == 31 || n == 30 || n == 29 || n == 28 || n == 27 || n == 26 || n == 25
                    || n == 24 || n == 23 || n == 22 || n == 21 || n == 20 || n == 19 || n == 16
                    || n == 15 || n == 7 || n == 3,
        ;
    }
    if status.failed() {
        assert(
            raw & (1u32 << 31u32) != 0
            || raw & (1u32 << 30u32) != 0
            || raw & (1u32 << 29u32) != 0
            || raw & (1u32 << 28u32) != 0
            || raw & (1u32 << 27u32) != 0
            || raw & (1u32 << 26u32) != 0
            || raw & (1u32 << 25u32) != 0
            || raw & (1u32 << 24u32) != 0
            || raw & (1u32 << 23u32) != 0
            || raw & (1u32 << 22u32) != 0
            || raw & (1u32 << 21u32) != 0
            || raw & (1u32 << 20u32) != 0
            || raw & (1u32 << 19u32) != 0
            || raw & (1u32 << 16u32) != 0
            || raw & (1u32 << 15u32) != 0
            || raw & (1u32 << 7u32) != 0
            || raw & (1u32 << 3u32) != 0) by (bit_vector)
            requires
                raw & 0xfff9_8088 != 0,
        ;
        assert(bit_set(raw, 31) || bit_set(raw, 30) || bit_set(raw, 29) || bit_set(raw, 28)
            || bit_set(raw, 27) || bit_set(raw, 26) || bit_set(raw, 25) || bit_set(raw, 24)
            || bit_set(raw, 23) || bit_set(raw, 22) || bit_set(raw, 21) || bit_set(raw, 20)
            || bit_set(raw, 19) || bit_set(raw, 16) || bit_set(raw, 15) || bit_set(raw, 7)
            || bit_set(raw, 3));
    }
}

/// The bits of the card state, the ready flag, the application-command flag
/// and the other status flags are no errors: a status made of them alone is
/// successful.
pub proof fn law_status_bits_are_no_errors(raw: u32)
    requires
        raw & !0x0000_7f60 == 0,
    ensures
        !R1CardStatus::of(raw).failed(),
{
    assert(raw & 0xfff9_8088 == 0) by (bit_vector)
        requires
            raw & !0x0000_7f60 == 0,
    ;
}

} // verus!
