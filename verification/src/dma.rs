//! Descriptors of the controller's internal DMA engine (IDMAC).
//!
//! The engine walks a chain of descriptors in memory. Each one names a piece
//! of the data buffer and the address of the next descriptor. Addresses are 32
//! bits wide.

use vstd::prelude::*;

verus! {

/// Bytes that one descriptor covers.
pub const IDMAC_DESCRIPTOR_BUFFER_SIZE: usize = 4096;

/// Bytes that one descriptor occupies in memory.
pub const IDMAC_DESCRIPTOR_SIZE: usize = 16;

/// A coherent buffer for DMA transfers: its bus address and its size.
#[derive(Clone, Copy, Debug, PartialEq, Eq, Structural)]
pub struct DMABuffer {
    /// Address of the buffer as the engine sees it.
    pub bus_addr: u64,
    /// Size in bytes.
    pub size: usize,
}

/// Control word of a descriptor.
#[derive(Clone, Copy, Debug, PartialEq, Eq, Structural)]
pub struct IdmacDes0(pub u32);

impl IdmacDes0 {
    /// The engine owns the descriptor; it clears the bit when the transfer of
    /// this piece is complete.
    pub const OWN: u32 = 0x8000_0000;
    /// Summary of the errors that the card reported.
    pub const CES: u32 = 0x4000_0000;
    /// Last descriptor of a ring.
    pub const ER: u32 = 0x20;
    /// The fourth word is the address of the next descriptor.
    pub const CH: u32 = 0x10;
    /// The descriptor covers the first piece of the data.
    pub const FS: u32 = 0x08;
    /// The descriptor covers the last piece of the data.
    pub const LD: u32 = 0x04;
    /// No interrupt when this piece is complete.
    pub const DIC: u32 = 0x02;

    /// The engine owns the descriptor.
    #[verifier::allow_in_spec]
    pub fn own(self) -> bool
        returns
            self.0 & IdmacDes0::OWN != 0u32,
    {
        self.0 & Self::OWN != 0
    }

    /// The card reported an error for this piece.
    #[verifier::allow_in_spec]
    pub fn ces(self) -> bool
        returns
            self.0 & IdmacDes0::CES != 0u32,
    {
        self.0 & Self::CES != 0
    }

    /// Last descriptor of a ring.
    #[verifier::allow_in_spec]
    pub fn er(self) -> bool
        returns
            self.0 & IdmacDes0::ER != 0u32,
    {
        self.0 & Self::ER != 0
    }

    /// The fourth word is the address of the next descriptor.
    #[verifier::allow_in_spec]
    pub fn ch(self) -> bool
        returns
            self.0 & IdmacDes0::CH != 0u32,
    {
        self.0 & Self::CH != 0
    }

    /// The descriptor covers the first piece of the data.
    #[verifier::allow_in_spec]
    pub fn fs(self) -> bool
        returns
            self.0 & IdmacDes0::FS != 0u32,
    {
        self.0 & Self::FS != 0
    }

    /// The descriptor covers the last piece of the data.
    #[verifier::allow_in_spec]
    pub fn ld(self) -> bool
        returns
            self.0 & IdmacDes0::LD != 0u32,
    {
        self.0 & Self::LD != 0
    }

    /// No interrupt when this piece is complete.
    #[verifier::allow_in_spec]
    pub fn dic(self) -> bool
        returns
            self.0 & IdmacDes0::DIC != 0u32,
    {
        self.0 & Self::DIC != 0
    }
}

/// Size word of a descriptor: bits 12 to 0 hold the size of the piece.
#[derive(Clone, Copy, Debug, PartialEq, Eq, Structural)]
pub struct IdmacDes1(pub u32);

impl IdmacDes1 {
    /// Number of values that the size field can hold.
    pub const SIZE_LIMIT: u32 = 0x2000;

    /// Size of the piece in bytes.
    #[verifier::allow_in_spec]
    pub fn bs1(self) -> u16
        returns
            (self.0 % IdmacDes1::SIZE_LIMIT) as u16,
    {
        (self.0 % Self::SIZE_LIMIT) as u16
    }
}

/// `mask` if the flag is set, else no bit.
#[verifier::allow_in_spec]
pub fn flag(set: bool, mask: u32) -> u32
    returns
        (if set {
            mask
        } else {
            0u32
        }),
{
    if set {
        mask
    } else {
        0
    }
}

/// One descriptor of the chain.
#[derive(Clone, Copy, Debug, PartialEq, Eq, Structural)]
pub struct IdmacDescriptor {
    /// Control bits.
    pub des0: IdmacDes0,
    /// Size of the piece.
    pub des1: IdmacDes1,
    /// Address of the piece.
    pub des2: u32,
    /// Address of the next descriptor.
    pub des3: u32,
}

impl IdmacDescriptor {
    /// A descriptor with every word zero.
    pub fn new() -> (descriptor: Self)
        ensures
            descriptor == (IdmacDescriptor {
                des0: IdmacDes0(0),
                des1: IdmacDes1(0),
                des2: 0,
                des3: 0,
            }),
    {
        IdmacDescriptor { des0: IdmacDes0(0), des1: IdmacDes1(0), des2: 0, des3: 0 }
    }

    /// Sets the control bits.
    pub fn set_desc0_control_descriptor(
        &mut self,
        own: bool,
        ces: bool,
        er: bool,
        ch: bool,
        fs: bool,
        ld: bool,
        dic: bool,
    )
        ensures
            final(self).des0.own() == own,
            final(self).des0.ces() == ces,
            final(self).des0.er() == er,
            final(self).des0.ch() == ch,
            final(self).des0.fs() == fs,
            final(self).des0.ld() == ld,
            final(self).des0.dic() == dic,
            final(self).des0.0 & 0x3fff_ffc1 == 0,
            final(self).des1 == old(self).des1,
            final(self).des2 == old(self).des2,
            final(self).des3 == old(self).des3,
    {
        let word: u32 = flag(own, IdmacDes0::OWN) | flag(ces, IdmacDes0::CES) | flag(
            er,
            IdmacDes0::ER,
        ) | flag(ch, IdmacDes0::CH) | flag(fs, IdmacDes0::FS) | flag(ld, IdmacDes0::LD) | flag(
            dic,
            IdmacDes0::DIC,
        );
        proof {
            lemma_control_bits(
                flag(own, IdmacDes0::OWN),
                flag(ces, IdmacDes0::CES),
                flag(er, IdmacDes0::ER),
                flag(ch, IdmacDes0::CH),
                flag(fs, IdmacDes0::FS),
                flag(ld, IdmacDes0::LD),
                flag(dic, IdmacDes0::DIC),
            );
        }
        self.des0 = IdmacDes0(word);
    }

    /// Sets the size of the piece, which must fit the 13 bits of the field.
    pub fn set_des1_buffer1_size(&mut self, size: u16)
        requires
            size < 0x2000,
        ensures
            final(self).des1.bs1() == size,
            final(self).des1.0 / 0x2000 == old(self).des1.0 / 0x2000,
            final(self).des0 == old(self).des0,
            final(self).des2 == old(self).des2,
            final(self).des3 == old(self).des3,
    {
        let rest: u32 = self.des1.0 - self.des1.0 % IdmacDes1::SIZE_LIMIT;
        self.des1 = IdmacDes1(rest + size as u32);
    }

    /// Sets the address of the piece.
    pub fn set_des2_buffer1_address(&mut self, addr: u32)
        ensures
            *final(self) == (IdmacDescriptor { des2: addr, ..*old(self) }),
    {
        self.des2 = addr;
    }

    /// Sets the address of the next descriptor.
    pub fn set_des3_next_descriptor_address(&mut self, addr: u32)
        ensures
            *final(self) == (IdmacDescriptor { des3: addr, ..*old(self) }),
    {
        self.des3 = addr;
    }
}

proof fn lemma_control_bits(own: u32, ces: u32, er: u32, ch: u32, fs: u32, ld: u32, dic: u32)
    by (bit_vector)
    requires
        own == 0 || own == 0x8000_0000,
        ces == 0 || ces == 0x4000_0000,
        er == 0 || er == 0x20,
        ch == 0 || ch == 0x10,
        fs == 0 || fs == 0x08,
        ld == 0 || ld == 0x04,
        dic == 0 || dic == 0x02,
    ensures
        (own | ces | er | ch | fs | ld | dic) & 0x8000_0000 == own,
        (own | ces | er | ch | fs | ld | dic) & 0x4000_0000 == ces,
        (own | ces | er | ch | fs | ld | dic) & 0x20 == er,
        (own | ces | er | ch | fs | ld | dic) & 0x10 == ch,
        (own | ces | er | ch | fs | ld | dic) & 0x08 == fs,
        (own | ces | er | ch | fs | ld | dic) & 0x04 == ld,
        (own | ces | er | ch | fs | ld | dic) & 0x02 == dic,
        (own | ces | er | ch | fs | ld | dic) & 0x3fff_ffc1 == 0,
{
}

/// Number of descriptors that a buffer of `len` bytes takes.
#[verifier::allow_in_spec]
pub fn descriptor_count(len: usize) -> usize
    returns
        (if len % 4096 == 0 {
            len / 4096
        } else {
            (len / 4096 + 1) as usize
        }),
{
    if len % IDMAC_DESCRIPTOR_BUFFER_SIZE == 0 {
        len / IDMAC_DESCRIPTOR_BUFFER_SIZE
    } else {
        len / IDMAC_DESCRIPTOR_BUFFER_SIZE + 1
    }
}

/// A chain for `len` bytes at `buffer` fits the 32-bit address space with its
/// first descriptor at `descriptors`.
pub open spec fn addressable(len: usize, buffer: u32, descriptors: u32) -> bool {
    &&& 0 < len
    &&& buffer + len - 1 <= u32::MAX
    &&& descriptors + (descriptor_count(len) - 1) * 16 <= u32::MAX
}

/// Control word of a chain descriptor: the engine owns it; all but the last
/// one are chained and raise no interrupt; the first and the last are marked.
pub open spec fn control_word(first: bool, last: bool) -> u32 {
    if first && last {
        0x8000_000c
    } else if first {
        0x8000_001a
    } else if last {
        0x8000_0004
    } else {
        0x8000_0012
    }
}

/// The descriptor at position `index` of the chain for `len` bytes at
/// `buffer`, whose first descriptor stands at `descriptors`. Every descriptor
/// covers 4096 bytes but the last, which covers what is left.
pub open spec fn descriptor_at(
    index: usize,
    len: usize,
    buffer: u32,
    descriptors: u32,
) -> IdmacDescriptor {
    let last = index + 1 == descriptor_count(len);
    let offset = index.wrapping_mul(4096);
    IdmacDescriptor {
        des0: IdmacDes0(control_word(index == 0, last)),
        des1: IdmacDes1(
            if len.saturating_sub(offset) < 4096 {
                len.saturating_sub(offset) as u32
            } else {
                4096
            },
        ),
        des2: buffer.wrapping_add(offset as u32),
        des3: if last {
            0
        } else {
            descriptors.wrapping_add(index.wrapping_mul(16).wrapping_add(16) as u32)
        },
    }
}

/// Where the chain can be addressed, nothing wraps: the descriptor at `index`
/// covers its own 4096 bytes or what is left of the buffer, and points at the
/// descriptor 16 bytes after it.
pub proof fn law_descriptor_in_range(index: usize, len: usize, buffer: u32, descriptors: u32)
    requires
        addressable(len, buffer, descriptors),
        index < descriptor_count(len),
    ensures
        ({
            let d = descriptor_at(index, len, buffer, descriptors);
            let last = index + 1 == descriptor_count(len);
            &&& d.des0 == IdmacDes0(control_word(index == 0, last))
            &&& d.des1.0 == (if last {
                len - index * 4096
            } else {
                4096
            })
            &&& d.des2 == buffer + index * 4096
            &&& d.des3 == (if last {
                0
            } else {
                descriptors + (index + 1) * 16
            })
        }),
{
    assert(index * 4096 < len);
    let range = (usize::MAX + 1) as nat;
    vstd::arithmetic::div_mod::lemma_small_mod((index * 4096) as nat, range);
    vstd::arithmetic::div_mod::lemma_small_mod((index * 16) as nat, range);
    assert(index.wrapping_mul(4096) == index * 4096);
    assert(index.wrapping_mul(16) == index * 16);
    assert(index.wrapping_mul(16).wrapping_add(16) == index * 16 + 16);
}

/// What the control word of a chain descriptor says.
pub proof fn law_control_word(first: bool, last: bool)
    ensures
        ({
            let des0 = IdmacDes0(control_word(first, last));
            &&& des0.own()
            &&& !des0.ces()
            &&& !des0.er()
            &&& des0.ch() == !last
            &&& des0.fs() == first
            &&& des0.ld() == last
            &&& des0.dic() == !last
            &&& des0.0 & 0x3fff_ffc1 == 0
        }),
{
    lemma_control_words();
}

proof fn lemma_control_words()
    by (bit_vector)
    ensures
        forall|w: u32|
            #![auto]
            (w == 0x8000_000c || w == 0x8000_001a || w == 0x8000_0004 || w == 0x8000_0012) ==> {
                &&& w & 0x8000_0000 != 0
                &&& w & 0x4000_0000 == 0
                &&& w & 0x20 == 0
                &&& (w & 0x10 != 0) == (w == 0x8000_001a || w == 0x8000_0012)
                &&& (w & 0x08 != 0) == (w == 0x8000_000c || w == 0x8000_001a)
                &&& (w & 0x04 != 0) == (w == 0x8000_000c || w == 0x8000_0004)
                &&& (w & 0x02 != 0) == (w == 0x8000_001a || w == 0x8000_0012)
                &&& w & 0x3fff_ffc1 == 0
            },
{
}

/// Builds the descriptor at position `index` of the chain.
#[verifier::when_used_as_spec(descriptor_at)]
pub fn chain_descriptor(index: usize, len: usize, buffer: u32, descriptors: u32) -> (descriptor:
    IdmacDescriptor)
    ensures
        descriptor == descriptor_at(index, len, buffer, descriptors),
{
    let count: usize = descriptor_count(len);
    let last = count > 0 && index == count - 1;
    let offset: usize = index.wrapping_mul(IDMAC_DESCRIPTOR_BUFFER_SIZE);
    let left: usize = len.saturating_sub(offset);
    let segment: usize = if left < IDMAC_DESCRIPTOR_BUFFER_SIZE {
        left
    } else {
        IDMAC_DESCRIPTOR_BUFFER_SIZE
    };
    let next: u32 = if last {
        0
    } else {
        descriptors.wrapping_add(
            index.wrapping_mul(IDMAC_DESCRIPTOR_SIZE).wrapping_add(IDMAC_DESCRIPTOR_SIZE) as u32,
        )
    };
    let mut descriptor = IdmacDescriptor::new();
    descriptor.set_desc0_control_descriptor(true, false, false, !last, index == 0, last, !last);
    descriptor.set_des1_buffer1_size(segment as u16);
    descriptor.set_des2_buffer1_address(buffer.wrapping_add(offset as u32));
    descriptor.set_des3_next_descriptor_address(next);
    proof {
        law_control_word(index == 0, last);
        lemma_word_from_bits(descriptor.des0.0, control_word(index == 0, last));
    }
    descriptor
}

/// A control word without stray bits is determined by its flags.
proof fn lemma_word_from_bits(a: u32, b: u32)
    by (bit_vector)
    requires
        (a & 0x8000_0000 != 0) == (b & 0x8000_0000 != 0),
        (a & 0x4000_0000 != 0) == (b & 0x4000_0000 != 0),
        (a & 0x20 != 0) == (b & 0x20 != 0),
        (a & 0x10 != 0) == (b & 0x10 != 0),
        (a & 0x08 != 0) == (b & 0x08 != 0),
        (a & 0x04 != 0) == (b & 0x04 != 0),
        (a & 0x02 != 0) == (b & 0x02 != 0),
        a & 0x3fff_ffc1 == 0,
        b & 0x3fff_ffc1 == 0,
    ensures
        a == b,
{
}

/// The chain for `len` bytes at `buffer`, whose first descriptor stands at
/// `descriptors`.
pub open spec fn chain(len: usize, buffer: u32, descriptors: u32) -> Seq<IdmacDescriptor> {
    Seq::new(
        descriptor_count(len) as nat,
        |i: int| descriptor_at(i as usize, len, buffer, descriptors),
    )
}

/// Bytes that the first `n` descriptors of a chain cover.
pub open spec fn covered(chain: Seq<IdmacDescriptor>, n: int) -> int
    decreases n,
{
    if n <= 0 {
        0
    } else {
        covered(chain, n - 1) + chain[n - 1].des1.bs1()
    }
}

/// The pieces of a chain follow each other without gap or overlap, start at
/// the buffer and add up to its length; every piece is non-empty.
pub proof fn law_chain_tiles_buffer(len: usize, buffer: u32, descriptors: u32)
    requires
        addressable(len, buffer, descriptors),
    ensures
        covered(chain(len, buffer, descriptors), descriptor_count(len) as int) == len,
        forall|i: int|
            0 <= i < descriptor_count(len) ==> {
                let d = #[trigger] chain(len, buffer, descriptors)[i];
                0 < d.des1.bs1() && d.des2 == buffer + covered(chain(len, buffer, descriptors), i)
            },
{
    lemma_covered(len, buffer, descriptors, descriptor_count(len) as int);
    assert forall|i: int| 0 <= i < descriptor_count(len) implies {
        let d = #[trigger] chain(len, buffer, descriptors)[i];
        0 < d.des1.bs1() && d.des2 == buffer + covered(chain(len, buffer, descriptors), i)
    } by {
        lemma_covered(len, buffer, descriptors, i);
        law_descriptor_in_range(i as usize, len, buffer, descriptors);
    }
}

proof fn lemma_covered(len: usize, buffer: u32, descriptors: u32, n: int)
    requires
        addressable(len, buffer, descriptors),
        0 <= n <= descriptor_count(len),
    ensures
        covered(chain(len, buffer, descriptors), n) == (if n == descriptor_count(len) {
            len as int
        } else {
            n * 4096
        }),
    decreases n,
{
    if n > 0 {
        lemma_covered(len, buffer, descriptors, n - 1);
        law_descriptor_in_range((n - 1) as usize, len, buffer, descriptors);
    }
}

/// Starting at the first descriptor and following the chained addresses visits
/// the descriptors in order; the walk ends at the one marked last.
pub proof fn law_chain_links(len: usize, buffer: u32, descriptors: u32)
    requires
        addressable(len, buffer, descriptors),
    ensures
        forall|i: int|
            0 <= i < descriptor_count(len) ==> {
                let d = #[trigger] chain(len, buffer, descriptors)[i];
                &&& d.des0.own()
                &&& (d.des0.fs() <==> i == 0)
                &&& (d.des0.ld() <==> i == descriptor_count(len) - 1)
                &&& (d.des0.ch() <==> i < descriptor_count(len) - 1)
                &&& (d.des0.ch() ==> d.des3 == descriptors + 16 * (i + 1))
            },
{
    assert forall|i: int| 0 <= i < descriptor_count(len) implies {
        let d = #[trigger] chain(len, buffer, descriptors)[i];
        &&& d.des0.own()
        &&& (d.des0.fs() <==> i == 0)
        &&& (d.des0.ld() <==> i == descriptor_count(len) - 1)
        &&& (d.des0.ch() <==> i < descriptor_count(len) - 1)
        &&& (d.des0.ch() ==> d.des3 == descriptors + 16 * (i + 1))
    } by {
        law_control_word(i == 0, i + 1 == descriptor_count(len));
        law_descriptor_in_range(i as usize, len, buffer, descriptors);
    }
}

/// An allocation of `size` bytes at alignment `align` can be described: the
/// alignment is a power of two and the size, rounded up to it, does not exceed
/// the largest object.
pub fn layout_is_valid(size: usize, align: usize) -> (valid: bool)
    requires
        align == 2 || align == 4 || align == 8,
    ensures
        valid == (size <= isize::MAX - (align - 1)),
{
    size <= isize::MAX as usize - (align - 1)
}

} // verus!
