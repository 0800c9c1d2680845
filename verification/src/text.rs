//! Texts for reports.

use crate::card::{Cid, ManufacturingDate, ProductRevision};
use crate::cmd::Command;
use crate::status::{bit_set, R1CardStatus, R1CurrentState};
use vstd::prelude::*;
use vstd::utf8::{decode_utf8, valid_utf8};

verus! {

/// A digit.
pub open spec fn digit(value: u64) -> Seq<char> {
    match value {
        0 => "0"@,
        1 => "1"@,
        2 => "2"@,
        3 => "3"@,
        4 => "4"@,
        5 => "5"@,
        6 => "6"@,
        7 => "7"@,
        8 => "8"@,
        9 => "9"@,
        10 => "a"@,
        11 => "b"@,
        12 => "c"@,
        13 => "d"@,
        14 => "e"@,
        _ => "f"@,
    }
}

/// Writes a digit.
fn digit_text(value: u64) -> (text: &'static str)
    requires
        value < 16,
    ensures
        text@ == digit(value),
{
    match value {
        0 => "0",
        1 => "1",
        2 => "2",
        3 => "3",
        4 => "4",
        5 => "5",
        6 => "6",
        7 => "7",
        8 => "8",
        9 => "9",
        10 => "a",
        11 => "b",
        12 => "c",
        13 => "d",
        14 => "e",
        _ => "f",
    }
}

/// A number in decimal notation.
pub open spec fn decimal(value: nat) -> Seq<char>
    decreases value,
{
    if value < 10 {
        digit(value as u64)
    } else {
        decimal(value / 10) + digit((value % 10) as u64)
    }
}

/// Appends a number in decimal notation.
fn push_decimal(text: &mut String, value: u64)
    ensures
        final(text)@ == old(text)@ + decimal(value as nat),
    decreases value,
{
    if value >= 10 {
        push_decimal(text, value / 10);
    }
    text.append(digit_text(value % 10));
    assert(text@ =~= old(text)@ + decimal(value as nat));
}

/// A number in hexadecimal notation with so many digits.
pub open spec fn hexadecimal(value: nat, digits: nat) -> Seq<char>
    decreases digits,
{
    if digits == 0 {
        Seq::empty()
    } else {
        hexadecimal(value / 16, (digits - 1) as nat) + digit((value % 16) as u64)
    }
}

/// Appends a number in hexadecimal notation with so many digits.
fn push_hexadecimal(text: &mut String, value: u64, digits: usize)
    ensures
        final(text)@ == old(text)@ + hexadecimal(value as nat, digits as nat),
    decreases digits,
{
    if digits > 0 {
        push_hexadecimal(text, value / 16, digits - 1);
        text.append(digit_text(value % 16));
    }
    assert(text@ =~= old(text)@ + hexadecimal(value as nat, digits as nat));
}

/// Yes or no.
pub open spec fn truth(value: bool) -> Seq<char> {
    if value {
        "true"@
    } else {
        "false"@
    }
}

/// Writes yes or no.
fn truth_text(value: bool) -> (text: &'static str)
    ensures
        text@ == truth(value),
{
    if value {
        "true"
    } else {
        "false"
    }
}

/// Names in quotation marks, separated by commas.
pub open spec fn listed(names: Seq<&'static str>) -> Seq<char>
    decreases names.len(),
{
    if names.len() == 0 {
        Seq::empty()
    } else if names.len() == 1 {
        "\""@ + names[0]@ + "\""@
    } else {
        listed(names.drop_last()) + ", \""@ + names.last()@ + "\""@
    }
}

/// Appends names in quotation marks, separated by commas.
fn push_list(text: &mut String, names: &Vec<&'static str>)
    ensures
        final(text)@ == old(text)@ + listed(names@),
{
    let mut i: usize = 0;
    assert(text@ =~= old(text)@ + listed(names@.take(0)));
    while i < names.len()
        invariant
            i <= names.len(),
            text@ == old(text)@ + listed(names@.take(i as int)),
        decreases names.len() - i,
    {
        let ghost before = text@;
        assert(names@.take(i + 1).drop_last() =~= names@.take(i as int));
        if i == 0 {
            text.append("\"");
        } else {
            text.append(", \"");
        }
        text.append(names[i]);
        text.append("\"");
        i = i + 1;
        assert(text@ =~= old(text)@ + listed(names@.take(i as int)));
    }
    assert(names@.take(i as int) =~= names@);
}

/// Name of a state of the card.
pub open spec fn state_name(state: R1CurrentState) -> Seq<char> {
    match state {
        R1CurrentState::Idle => "Idle"@,
        R1CurrentState::Ready => "Ready"@,
        R1CurrentState::Identification => "Identification"@,
        R1CurrentState::Standby => "Standby"@,
        R1CurrentState::Transfer => "Transfer"@,
        R1CurrentState::SendingData => "SendingData"@,
        R1CurrentState::ReceiveData => "ReceiveData"@,
        R1CurrentState::Programming => "Programming"@,
        R1CurrentState::Disconnect => "Disconnect"@,
        R1CurrentState::Reserved(code) => "Reserved("@ + decimal(code as nat) + ")"@,
    }
}

/// Appends the name of a state of the card.
fn push_state(text: &mut String, state: R1CurrentState)
    ensures
        final(text)@ == old(text)@ + state_name(state),
{
    match state {
        R1CurrentState::Idle => text.append("Idle"),
        R1CurrentState::Ready => text.append("Ready"),
        R1CurrentState::Identification => text.append("Identification"),
        R1CurrentState::Standby => text.append("Standby"),
        R1CurrentState::Transfer => text.append("Transfer"),
        R1CurrentState::SendingData => text.append("SendingData"),
        R1CurrentState::ReceiveData => text.append("ReceiveData"),
        R1CurrentState::Programming => text.append("Programming"),
        R1CurrentState::Disconnect => text.append("Disconnect"),
        R1CurrentState::Reserved(code) => {
            text.append("Reserved(");
            push_decimal(text, code as u64);
            text.append(")");
            assert(text@ =~= old(text)@ + state_name(state));
        },
    }
}

/// Text of a card status.
pub open spec fn status_text(status: R1CardStatus) -> Seq<char> {
    "R1CardStatus { raw: 0x"@ + hexadecimal(status@ as nat, 8) + ", error_bits: 0x"@ + hexadecimal(
        (status@ & R1CardStatus::ERROR_MASK) as nat,
        8,
    ) + ", errors: ["@ + listed(status.names()) + "], current_state: "@ + state_name(
        status.state(),
    ) + ", ready_for_data: "@ + truth(bit_set(status@, 8)) + ", app_cmd: "@ + truth(
        bit_set(status@, 5),
    ) + ", exception_event: "@ + truth(bit_set(status@, 6)) + " }"@
}

impl R1CardStatus {
    /// Describes the status, with the names of its error bits.
    pub fn describe(self) -> (text: String)
        ensures
            text@ == status_text(self),
    {
        let mut text = String::from_str("R1CardStatus { raw: 0x");
        push_hexadecimal(&mut text, self.raw() as u64, 8);
        text.append(", error_bits: 0x");
        push_hexadecimal(&mut text, self.error_bits() as u64, 8);
        text.append(", errors: [");
        let names = self.error_names();
        push_list(&mut text, &names);
        text.append("], current_state: ");
        push_state(&mut text, self.current_state());
        text.append(", ready_for_data: ");
        text.append(truth_text(self.ready_for_data()));
        text.append(", app_cmd: ");
        text.append(truth_text(self.app_cmd()));
        text.append(", exception_event: ");
        text.append(truth_text(self.exception_event()));
        text.append(" }");
        text
    }
}

/// Text of a command with an argument.
pub open spec fn with_argument(name: Seq<char>, argument: u32) -> Seq<char> {
    name + decimal(argument as nat) + ")"@
}

/// Writes a command with an argument.
fn argument_text(name: &str, argument: u32) -> (text: String)
    ensures
        text@ == with_argument(name@, argument),
{
    let mut text = String::from_str(name);
    push_decimal(&mut text, argument as u64);
    text.append(")");
    text
}

/// Text of a command.
pub open spec fn command_text(command: Command) -> Seq<char> {
    match command {
        Command::GoIdleState => "GoIdleState"@,
        Command::AllSendCid => "AllSendCid"@,
        Command::SendRelativeAddr => "SendRelativeAddr"@,
        Command::SelectCard(arg) => with_argument("SelectCard("@, arg),
        Command::SendIfCond(arg) => with_argument("SendIfCond("@, arg),
        Command::SendCsd(rca) => with_argument("SendCsd("@, rca),
        Command::SendStatus(rca) => with_argument("SendStatus("@, rca),
        Command::ReadSingleBlock(block, _) => with_argument("ReadSingleBlock("@, block),
        Command::ReadMultipleBlocks(block, _) => with_argument("ReadMultipleBlocks("@, block),
        Command::WriteSingleBlock(block, _) => with_argument("WriteSingleBlock("@, block),
        Command::WriteMultipleBlocks(block, _) => with_argument("WriteMultipleBlocks("@, block),
        Command::SdSendOpCond(arg) => with_argument("SdSendOpCond("@, arg),
        Command::SendScr(_) => "SendScr"@,
        Command::AppCmd(arg) => with_argument("AppCmd("@, arg),
        Command::ResetClock => "ResetClock"@,
    }
}

impl<'a> Command<'a> {
    /// Describes the command: its name and, where it has one, its argument.
    pub fn describe(&self) -> (text: String)
        ensures
            text@ == command_text(*self),
    {
        match self {
            Command::GoIdleState => String::from_str("GoIdleState"),
            Command::AllSendCid => String::from_str("AllSendCid"),
            Command::SendRelativeAddr => String::from_str("SendRelativeAddr"),
            Command::SelectCard(arg) => argument_text("SelectCard(", *arg),
            Command::SendIfCond(arg) => argument_text("SendIfCond(", *arg),
            Command::SendCsd(rca) => argument_text("SendCsd(", *rca),
            Command::SendStatus(rca) => argument_text("SendStatus(", *rca),
            Command::ReadSingleBlock(block, _) => argument_text("ReadSingleBlock(", *block),
            Command::ReadMultipleBlocks(block, _) => argument_text("ReadMultipleBlocks(", *block),
            Command::WriteSingleBlock(block, _) => argument_text("WriteSingleBlock(", *block),
            Command::WriteMultipleBlocks(block, _) => argument_text(
                "WriteMultipleBlocks(",
                *block,
            ),
            Command::SdSendOpCond(arg) => argument_text("SdSendOpCond(", *arg),
            Command::SendScr(_) => String::from_str("SendScr"),
            Command::AppCmd(arg) => argument_text("AppCmd(", *arg),
            Command::ResetClock => String::from_str("ResetClock"),
        }
    }
}

/// Text of a product revision.
pub open spec fn revision_text(revision: ProductRevision) -> Seq<char> {
    decimal(revision.hwrev() as nat) + "."@ + decimal(revision.fwrev() as nat)
}

impl ProductRevision {
    /// Describes the revision: hardware, a point, firmware.
    pub fn describe(self) -> (text: String)
        ensures
            text@ == revision_text(self),
    {
        let mut text = String::new();
        push_decimal(&mut text, self.hwrev() as u64);
        text.append(".");
        push_decimal(&mut text, self.fwrev() as u64);
        assert(text@ =~= revision_text(self));
        text
    }
}

/// Text of a date of manufacture.
pub open spec fn date_text(date: ManufacturingDate) -> Seq<char> {
    let month = (date.0 % 16) as nat;
    let year = (date.0 / 16 % 256 + 2000) as nat;
    (if month < 10 {
        "0"@
    } else {
        Seq::empty()
    }) + decimal(month) + "/"@ + decimal(year)
}

impl ManufacturingDate {
    /// Describes the date: the month with two digits, a stroke, the year.
    pub fn describe(self) -> (text: String)
        ensures
            text@ == date_text(self),
    {
        let mut text = String::new();
        if self.month() < 10 {
            text.append("0");
        }
        push_decimal(&mut text, self.month() as u64);
        text.append("/");
        push_decimal(&mut text, self.calendar_year() as u64);
        assert(text@ =~= date_text(self));
        text
    }
}

/// Takes bytes as a text through `core::str::from_utf8`. There is one exactly
/// where the bytes are valid UTF-8, and it is then what they encode.
#[verifier::external_body]
fn text_of_bytes(bytes: &[u8]) -> (text: Option<&str>)
    ensures
        text is Some == valid_utf8(bytes@),
        text matches Some(decoded) ==> decoded@ == decode_utf8(bytes@),
{
    core::str::from_utf8(bytes).ok()
}

/// What `Debug` of a text writes: the text in quotation marks, with whatever
/// cannot be printed escaped.
pub uninterp spec fn debug_text(text: Seq<char>) -> Seq<char>;

/// Writes a text as its `Debug` does.
#[verifier::external_body]
fn quoted(text: &str) -> (result: String)
    ensures
        result@ == debug_text(text@),
{
    format!("{:?}", text)
}

/// A text made of bytes, or a replacement where they are none.
pub open spec fn bytes_or(bytes: Seq<u8>, replacement: Seq<char>) -> Seq<char> {
    if valid_utf8(bytes) {
        decode_utf8(bytes)
    } else {
        replacement
    }
}

/// Writes bytes as a quoted text, or a replacement where they are none.
fn quoted_bytes(bytes: &[u8], replacement: &str) -> (text: String)
    ensures
        text@ == debug_text(bytes_or(bytes@, replacement@)),
{
    match text_of_bytes(bytes) {
        Some(decoded) => quoted(decoded),
        None => quoted(replacement),
    }
}

/// The two characters of the OEM ID, the first one first.
pub open spec fn oem_name(cid: Cid) -> Seq<u8> {
    seq![(cid.oid() / 256) as u8, (cid.oid() % 256) as u8]
}

/// The five characters of the product name, the first one first.
pub open spec fn product_name(cid: Cid) -> Seq<u8> {
    seq![
        (cid.pnm() / 0x1_0000_0000 % 256) as u8,
        (cid.pnm() / 0x100_0000 % 256) as u8,
        (cid.pnm() / 0x1_0000 % 256) as u8,
        (cid.pnm() / 256 % 256) as u8,
        (cid.pnm() % 256) as u8,
    ]
}

/// Text of a card identification with the quoted names of maker and product.
pub open spec fn cid_text(cid: Cid, oem: Seq<char>, product: Seq<char>) -> Seq<char> {
    "Cid { mid: "@ + decimal(cid.mid() as nat) + ", oid: "@ + oem + ", pnm: "@ + product
        + ", prv: "@ + revision_text(cid.prv()) + ", psn: "@ + decimal(cid.psn() as nat)
        + ", mdt: "@ + date_text(cid.mdt()) + ", crc: "@ + decimal(cid.crc() as nat) + " }"@
}

impl Cid {
    /// Describes the identification, field by field, with the quoted names of
    /// maker and product.
    pub fn describe_with(self, oem: &str, product: &str) -> (text: String)
        ensures
            text@ == cid_text(self, oem@, product@),
    {
        let mut text = String::from_str("Cid { mid: ");
        push_decimal(&mut text, self.mid() as u64);
        text.append(", oid: ");
        text.append(oem);
        text.append(", pnm: ");
        text.append(product);
        text.append(", prv: ");
        let revision = self.prv().describe();
        text.append(revision.as_str());
        text.append(", psn: ");
        push_decimal(&mut text, self.psn() as u64);
        text.append(", mdt: ");
        let date = self.mdt().describe();
        text.append(date.as_str());
        text.append(", crc: ");
        push_decimal(&mut text, self.crc() as u64);
        text.append(" }");
        text
    }

    /// Describes the identification, field by field.
    pub fn describe(self) -> (text: String)
        ensures
            text@ == cid_text(
                self,
                debug_text(bytes_or(oem_name(self), "Invalid OEM ID"@)),
                debug_text(bytes_or(product_name(self), "Invalid Product Name"@)),
            ),
    {
        let oem_bytes = self.oem_bytes();
        assert(oem_bytes@ =~= oem_name(self));
        let oem = quoted_bytes(&oem_bytes, "Invalid OEM ID");
        let name_bytes = self.product_name_bytes();
        assert(name_bytes@ =~= product_name(self));
        let product = quoted_bytes(&name_bytes, "Invalid Product Name");
        self.describe_with(oem.as_str(), product.as_str())
    }
}

} // verus!
