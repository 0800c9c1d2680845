//! Driver for SD cards behind a DesignWare mobile storage host controller.
//!
//! The library holds everything that the driver decides. A procedure of the
//! driver is a state machine ([`io::Machine`]): its state names the one operation
//! that it wants performed next, and the reply moves it on. Whoever owns the
//! hardware performs the operations. So every reply that a controller, a card or a
//! clock can give is covered by what is stated here.
//!
//! - [`regs`], [`status`], [`card`], [`cmd`] and [`error`] describe registers,
//!   responses, commands and errors.
//! - [`send`], [`clock`] and [`init`] bring up a card.
//! - [`dma`], [`completion`], [`transfer`] and [`enable`] move data with the
//!   internal DMA controller.
//! - [`ready`], [`blocks`] and [`sdmmc`] read and write blocks.
//! - [`block_driver`] is the card as a block device and as a disk.
//! - [`startup_laws`], [`transfer_laws`], [`outcome_laws`], [`cause_laws`],
//!   [`timeout_laws`], [`command_laws`] and [`block_laws`] state what holds of whole
//!   runs, which [`trace`] and [`progress`] help to describe; other laws stand beside
//!   the procedures that they are about.
//! - [`identification_laws`], [`service_laws`], [`delivery_laws`], [`send_laws`] and
//!   [`wait_laws`] state what controller and card are told, word for word, and when.
//! - [`text`] and [`words`] put values into words and bytes.
//! - [`bench`] holds diagnostics and benchmarks.

pub mod bench;
pub mod block_driver;
pub mod block_laws;
pub mod blocks;
pub mod card;
pub mod cause_laws;
pub mod clock;
pub mod cmd;
pub mod command_laws;
pub mod completion;
pub mod delivery_laws;
pub mod dma;
pub mod enable;
pub mod error;
pub mod identification_laws;
pub mod init;
pub mod io;
pub mod outcome_laws;
pub mod progress;
pub mod ready;
pub mod regs;
pub mod sdmmc;
pub mod send;
pub mod send_laws;
pub mod service_laws;
pub mod startup_laws;
pub mod status;
pub mod text;
pub mod timeout_laws;
pub mod trace;
pub mod transfer;
pub mod transfer_laws;
pub mod wait_laws;
pub mod words;

pub use crate::enable::AHBDataWidth;
pub use crate::error::{SdMmcError, SdMmcResult};
pub use crate::sdmmc::SdMmc;
pub use crate::status::{R1CardStatus, R1CurrentState};
