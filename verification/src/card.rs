//! Identification and capacity data that a card reports about itself.

use vstd::prelude::*;

verus! {

/// The bits of `word` from bit `low` up, as far as `mask` keeps them.
#[verifier::allow_in_spec]
pub fn field(word: u128, low: u32, mask: u128) -> u128
    requires
        low < 128,
    returns
        (word >> low) & mask,
{
    (word >> low) & mask
}

/// The 128-bit word of a long response, whose first element holds the lowest
/// 32 bits.
pub open spec fn long_response(response: [u32; 4]) -> int {
    response[0] + response[1] * 0x1_0000_0000 + response[2] * 0x1_0000_0000_0000_0000
        + response[3] * 0x1_0000_0000_0000_0000_0000_0000
}

/// Joins the four words of a long response, the first one lowest.
pub fn join_response(response: [u32; 4]) -> (word: u128)
    ensures
        word == long_response(response),
{
    let (r0, r1, r2, r3): (u128, u128, u128, u128) = (
        response[0] as u128,
        response[1] as u128,
        response[2] as u128,
        response[3] as u128,
    );
    r0 + r1 * 0x1_0000_0000 + r2 * 0x1_0000_0000_0000_0000 + r3
        * 0x1_0000_0000_0000_0000_0000_0000
}

/// Card Identification
#[derive(Clone, Copy, Debug, PartialEq, Eq, Structural)]
pub struct Cid(pub u128);

impl Cid {
    /// The identification that a CMD2 response carries.
    pub fn from_response(response: [u32; 4]) -> (cid: Cid)
        ensures
            cid.0 == long_response(response),
    {
        Cid(join_response(response))
    }

    /// Manufacturer ID, bits 127 to 120.
    #[verifier::allow_in_spec]
    pub fn mid(self) -> u8
        returns
            field(self.0, 120, 0xff) as u8,
    {
        field(self.0, 120, 0xff) as u8
    }

    /// OEM/Application ID, bits 119 to 104.
    #[verifier::allow_in_spec]
    pub fn oid(self) -> u16
        returns
            field(self.0, 104, 0xffff) as u16,
    {
        field(self.0, 104, 0xffff) as u16
    }

    /// Product name, bits 103 to 64.
    #[verifier::allow_in_spec]
    pub fn pnm(self) -> u64
        returns
            field(self.0, 64, 0xffffffffff) as u64,
    {
        field(self.0, 64, 0xffffffffff) as u64
    }

    /// Product Revision, bits 63 to 56.
    #[verifier::allow_in_spec]
    pub fn prv(self) -> ProductRevision
        returns
            ProductRevision(field(self.0, 56, 0xff) as u8),
    {
        ProductRevision(field(self.0, 56, 0xff) as u8)
    }

    /// Product Serial Number, bits 55 to 24.
    #[verifier::allow_in_spec]
    pub fn psn(self) -> u32
        returns
            field(self.0, 24, 0xffffffff) as u32,
    {
        field(self.0, 24, 0xffffffff) as u32
    }

    /// Manufacturing Date, bits 23 to 8.
    #[verifier::allow_in_spec]
    pub fn mdt(self) -> ManufacturingDate
        returns
            ManufacturingDate(field(self.0, 8, 0xffff) as u16),
    {
        ManufacturingDate(field(self.0, 8, 0xffff) as u16)
    }

    /// CRC7 checksum, bits 7 to 1.
    #[verifier::allow_in_spec]
    pub fn crc(self) -> u8
        returns
            field(self.0, 1, 0x7f) as u8,
    {
        field(self.0, 1, 0x7f) as u8
    }

    /// The two characters of the OEM ID, the first one first.
    pub fn oem_bytes(self) -> (bytes: [u8; 2])
        ensures
            bytes[0] == self.oid() / 256,
            bytes[1] == self.oid() % 256,
    {
        let oid: u16 = self.oid();
        [(oid / 256) as u8, (oid % 256) as u8]
    }

    /// The five characters of the product name, the first one first.
    pub fn product_name_bytes(self) -> (bytes: [u8; 5])
        ensures
            bytes[0] == self.pnm() / 0x1_0000_0000 % 256,
            bytes[1] == self.pnm() / 0x100_0000 % 256,
            bytes[2] == self.pnm() / 0x1_0000 % 256,
            bytes[3] == self.pnm() / 256 % 256,
            bytes[4] == self.pnm() % 256,
    {
        let pnm: u64 = self.pnm();
        [
            (pnm / 0x1_0000_0000 % 256) as u8,
            (pnm / 0x100_0000 % 256) as u8,
            (pnm / 0x1_0000 % 256) as u8,
            (pnm / 256 % 256) as u8,
            (pnm % 256) as u8,
        ]
    }
}

/// Revision of the product.
#[derive(Clone, Copy, Debug, PartialEq, Eq, Structural)]
pub struct ProductRevision(pub u8);

impl ProductRevision {
    /// Hardware revision, the high half of the byte.
    #[verifier::allow_in_spec]
    pub fn hwrev(self) -> u8
        returns
            self.0 / 16,
    {
        self.0 / 16
    }

    /// Firmware revision, the low half of the byte.
    #[verifier::allow_in_spec]
    pub fn fwrev(self) -> u8
        returns
            self.0 % 16,
    {
        self.0 % 16
    }
}

/// Date of manufacture.
#[derive(Clone, Copy, Debug, PartialEq, Eq, Structural)]
pub struct ManufacturingDate(pub u16);

impl ManufacturingDate {
    /// Years since 2000, bits 11 to 4.
    pub fn year(self) -> (year: u8)
        ensures
            year == self.0 / 16 % 256,
    {
        (self.0 / 16 % 256) as u8
    }

    /// Month, bits 3 to 0.
    pub fn month(self) -> (month: u8)
        ensures
            month == self.0 % 16,
    {
        (self.0 % 16) as u8
    }

    /// The calendar year.
    pub fn calendar_year(self) -> (year: u32)
        ensures
            year == self.0 / 16 % 256 + 2000,
    {
        self.year() as u32 + 2000
    }
}

/// Card Specific Data, version 2
#[derive(Clone, Copy, Debug, PartialEq, Eq, Structural)]
pub struct CsdV2(pub u128);

impl CsdV2 {
    /// The data that a CMD9 response carries.
    pub fn from_response(response: [u32; 4]) -> (csd: CsdV2)
        ensures
            csd.0 == long_response(response),
    {
        CsdV2(join_response(response))
    }

    /// CSD structure, bits 127 to 126.
    #[verifier::allow_in_spec]
    pub fn csd_structure(self) -> u8
        returns
            field(self.0, 126, 0x3) as u8,
    {
        field(self.0, 126, 0x3) as u8
    }

    /// Data read access time 1, bits 119 to 112.
    #[verifier::allow_in_spec]
    pub fn taac(self) -> u8
        returns
            field(self.0, 112, 0xff) as u8,
    {
        field(self.0, 112, 0xff) as u8
    }

    /// Data write access time 1, bits 111 to 104.
    #[verifier::allow_in_spec]
    pub fn nsac(self) -> u8
        returns
            field(self.0, 104, 0xff) as u8,
    {
        field(self.0, 104, 0xff) as u8
    }

    /// Max data transfer rate, bits 103 to 96.
    #[verifier::allow_in_spec]
    pub fn tran_speed(self) -> u8
        returns
            field(self.0, 96, 0xff) as u8,
    {
        field(self.0, 96, 0xff) as u8
    }

    /// Card command class, bits 95 to 84.
    #[verifier::allow_in_spec]
    pub fn ccc(self) -> u16
        returns
            field(self.0, 84, 0xfff) as u16,
    {
        field(self.0, 84, 0xfff) as u16
    }

    /// Max read block length, bits 83 to 80.
    #[verifier::allow_in_spec]
    pub fn read_bl_len(self) -> u8
        returns
            field(self.0, 80, 0xf) as u8,
    {
        field(self.0, 80, 0xf) as u8
    }

    /// Partial blocks for read allowed, bit 79.
    #[verifier::allow_in_spec]
    pub fn read_blk_partial(self) -> bool
        returns
            field(self.0, 79, 1) != 0,
    {
        field(self.0, 79, 1) != 0
    }

    /// Write block misalignment, bit 78.
    #[verifier::allow_in_spec]
    pub fn write_blk_misaligned(self) -> bool
        returns
            field(self.0, 78, 1) != 0,
    {
        field(self.0, 78, 1) != 0
    }

    /// Read block misalignment, bit 77.
    #[verifier::allow_in_spec]
    pub fn read_blk_misaligned(self) -> bool
        returns
            field(self.0, 77, 1) != 0,
    {
        field(self.0, 77, 1) != 0
    }

    /// DSR implemented, bit 76.
    #[verifier::allow_in_spec]
    pub fn dsr_imp(self) -> bool
        returns
            field(self.0, 76, 1) != 0,
    {
        field(self.0, 76, 1) != 0
    }

    /// Device size, bits 69 to 48.
    #[verifier::allow_in_spec]
    pub fn c_size(self) -> u32
        returns
            field(self.0, 48, 0x3fffff) as u32,
    {
        field(self.0, 48, 0x3fffff) as u32
    }

    /// Erase single block enabled, bit 46.
    #[verifier::allow_in_spec]
    pub fn erase_blk_en(self) -> bool
        returns
            field(self.0, 46, 1) != 0,
    {
        field(self.0, 46, 1) != 0
    }

    /// Erase sector size, bits 45 to 39.
    #[verifier::allow_in_spec]
    pub fn sector_size(self) -> u8
        returns
            field(self.0, 39, 0x7f) as u8,
    {
        field(self.0, 39, 0x7f) as u8
    }

    /// Write protect group size, bits 38 to 32.
    #[verifier::allow_in_spec]
    pub fn wp_grp_size(self) -> u8
        returns
            field(self.0, 32, 0x7f) as u8,
    {
        field(self.0, 32, 0x7f) as u8
    }

    /// Write protect group enable, bit 31.
    #[verifier::allow_in_spec]
    pub fn wp_grp_enable(self) -> bool
        returns
            field(self.0, 31, 1) != 0,
    {
        field(self.0, 31, 1) != 0
    }

    /// Write speed factor, bits 28 to 26.
    #[verifier::allow_in_spec]
    pub fn r2w_factor(self) -> u8
        returns
            field(self.0, 26, 0x7) as u8,
    {
        field(self.0, 26, 0x7) as u8
    }

    /// Max write block length, bits 25 to 22.
    #[verifier::allow_in_spec]
    pub fn write_bl_len(self) -> u8
        returns
            field(self.0, 22, 0xf) as u8,
    {
        field(self.0, 22, 0xf) as u8
    }

    /// Partial blocks for write allowed, bit 21.
    #[verifier::allow_in_spec]
    pub fn write_blk_partial(self) -> bool
        returns
            field(self.0, 21, 1) != 0,
    {
        field(self.0, 21, 1) != 0
    }

    /// File format group, bit 15.
    #[verifier::allow_in_spec]
    pub fn file_format_grp(self) -> bool
        returns
            field(self.0, 15, 1) != 0,
    {
        field(self.0, 15, 1) != 0
    }

    /// Copy flag, bit 14.
    #[verifier::allow_in_spec]
    pub fn copy(self) -> bool
        returns
            field(self.0, 14, 1) != 0,
    {
        field(self.0, 14, 1) != 0
    }

    /// Permanent write protection, bit 13.
    #[verifier::allow_in_spec]
    pub fn perm_write_protect(self) -> bool
        returns
            field(self.0, 13, 1) != 0,
    {
        field(self.0, 13, 1) != 0
    }

    /// Temporary write protection, bit 12.
    #[verifier::allow_in_spec]
    pub fn tmp_write_protect(self) -> bool
        returns
            field(self.0, 12, 1) != 0,
    {
        field(self.0, 12, 1) != 0
    }

    /// File format, bits 11 to 10.
    #[verifier::allow_in_spec]
    pub fn file_format(self) -> u8
        returns
            field(self.0, 10, 0x3) as u8,
    {
        field(self.0, 10, 0x3) as u8
    }

    /// CRC checksum, bits 7 to 1.
    #[verifier::allow_in_spec]
    pub fn crc(self) -> u8
        returns
            field(self.0, 1, 0x7f) as u8,
    {
        field(self.0, 1, 0x7f) as u8
    }

    /// Returns the number of blocks: units of 1024 blocks, one more than the
    /// device size tells.
    #[verifier::allow_in_spec]
    pub fn num_blocks(&self) -> u64
        returns
            ((self.c_size() + 1) * 1024) as u64,
    {
        (self.c_size() as u64 + 1) * 1024
    }
}

/// A card of version 2 reports between 1024 and 2^32 blocks, so its last
/// block can be addressed with 32 bits.
pub proof fn law_capacity_fits_block_address(csd: CsdV2)
    ensures
        1024 <= (csd.c_size() + 1) * 1024 <= 0x1_0000_0000,
{
    let word = csd.0;
    assert((word >> 48u32) & 0x3fffffu128 <= 0x3fffffu128) by (bit_vector);
}

} // verus!
