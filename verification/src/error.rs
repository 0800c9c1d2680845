//! Errors of the driver.

use vstd::prelude::*;

use crate::status::R1CardStatus;

verus! {

/// Errors returned by SD/MMC initialization and block transfers.
#[derive(Clone, Copy, Debug, Eq, PartialEq, Structural)]
pub enum SdMmcError {
    /// Card initialization did not reach a usable transfer state.
    InitializationFailed,
    /// The card is outside the supported SDHC/SDXC block-addressed subset.
    UnsupportedCard,
    /// The card reported one or more R1 error bits.
    CardStatus(R1CardStatus),
    /// CMD55 completed without the APP_CMD acceptance bit.
    AppCommandRejected(R1CardStatus),
    /// The transfer buffer is empty or is not block aligned.
    InvalidParameter,
    /// The requested block range exceeds the detected card capacity.
    OutOfRange,
    /// IDMAC was not initialized, so block transfers are unavailable.
    DmaUnavailable,
    /// A coherent DMA descriptor allocation failed.
    DmaAllocation,
    /// A DMA buffer or descriptor address cannot be represented by this IDMAC.
    DmaAddress,
    /// A previous submitted transfer failed or was cancelled.
    DriverFaulted,
    /// The command state machine did not become idle before submission.
    CommandBusy,
    /// The data state machine did not become idle before submission.
    DataBusy,
    /// The controller did not retain the published descriptor configuration.
    DescriptorPublication,
    /// The controller did not accept START_CMD within the short polling deadline.
    CommandStartTimeout,
    /// The command response phase timed out.
    CommandTimeout,
    /// The data transfer phase timed out.
    DataTimeout,
    /// The controller, card, or IDMAC reported a transfer error.
    Hardware,
    /// Completion registers or descriptors did not reach the required terminal state.
    TerminalValidation,
    /// IDMAC could not be stopped safely after a submitted transfer failed.
    RecoveryFailed,
    /// The card did not release DAT busy after a write.
    CardBusyTimeout,
}

/// Result type returned by SD/MMC block transfers.
pub type SdMmcResult<T = ()> = Result<T, SdMmcError>;

/// Verdict on an R1 response: any error bit is reported first; then, where an
/// application command is to follow, the card must have announced it.
pub open spec fn r1_verdict(raw: u32, require_app_cmd: bool) -> SdMmcResult {
    let status = R1CardStatus::of(raw);
    if status.failed() {
        Err(SdMmcError::CardStatus(status))
    } else if require_app_cmd && !crate::status::bit_set(raw, 5) {
        Err(SdMmcError::AppCommandRejected(status))
    } else {
        Ok(())
    }
}

/// Checks an R1 response.
#[verifier::when_used_as_spec(r1_verdict)]
pub fn validate_r1_response(raw: u32, require_app_cmd: bool) -> (verdict: SdMmcResult)
    ensures
        verdict == r1_verdict(raw, require_app_cmd),
{
    let status = R1CardStatus::from_raw(raw);
    if status.has_error() {
        return Err(SdMmcError::CardStatus(status));
    }
    if require_app_cmd && !status.app_cmd() {
        return Err(SdMmcError::AppCommandRejected(status));
    }
    Ok(())
}

} // verus!
