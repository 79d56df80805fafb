//! One block of disk data held in memory: its identity, its flag bits and
//! its payload.

use vstd::prelude::*;

verus! {

/// Buffer valid bit: the payload reflects the on-disk content.
pub const B_VALID: u8 = 0x2;
/// Buffer dirty bit: the payload must be written back before reuse.
pub const B_DIRTY: u8 = 0x4;
/// Size of one block in bytes, equal to the sector size.
pub const B_SIZE: usize = 512;
/// Size of one disk sector in bytes.
pub const SECTOR_SIZE: usize = 512;
/// Size of the file system in blocks; the driver refuses block numbers at
/// or beyond it.
pub const FS_SIZE: usize = 1000;

/// The valid bit of a flag byte.
pub open spec fn flag_valid(flags: u8) -> bool {
    flags & B_VALID != 0
}

/// The dirty bit of a flag byte.
pub open spec fn flag_dirty(flags: u8) -> bool {
    flags & B_DIRTY != 0
}

/// Setting the valid bit and clearing the dirty bit leaves a flag byte
/// that is valid and not dirty.
pub proof fn lemma_flags_complete(f: u8)
    ensures
        flag_valid((f | B_VALID) & !B_DIRTY),
        !flag_dirty((f | B_VALID) & !B_DIRTY),
{
    assert(((f | 2u8) & !4u8) & 2u8 != 0 && ((f | 2u8) & !4u8) & 4u8 == 0) by (bit_vector);
}

/// Setting the dirty bit keeps the valid bit as it was.
pub proof fn lemma_flags_mark_dirty(f: u8)
    ensures
        flag_dirty(f | B_DIRTY),
        flag_valid(f | B_DIRTY) == flag_valid(f),
{
    assert((f | 4u8) & 4u8 != 0 && ((f | 4u8) & 2u8) == (f & 2u8)) by (bit_vector);
}

/// A zero flag byte is neither valid nor dirty.
pub proof fn lemma_flags_zero()
    ensures
        !flag_valid(0),
        !flag_dirty(0),
{
    assert(0u8 & 2u8 == 0 && 0u8 & 4u8 == 0) by (bit_vector);
}

/// The cache key of a device and block number: the device in the high
/// half, the block number in the low half.
pub open spec fn buf_key(dev: u32, blockno: usize) -> u64
    recommends
        blockno <= u32::MAX,
{
    ((dev as u64) << 32) | (blockno as u64)
}

/// Computes the cache key of a device and block number.
pub fn make_key(dev: u32, blockno: usize) -> (k: u64)
    ensures
        k == buf_key(dev, blockno),
{
    ((dev as u64) << 32) | (blockno as u64)
}

/// Distinct (device, block number) pairs have distinct cache keys.
pub proof fn lemma_buf_key_injective(d1: u32, b1: usize, d2: u32, b2: usize)
    requires
        b1 <= u32::MAX,
        b2 <= u32::MAX,
        buf_key(d1, b1) == buf_key(d2, b2),
    ensures
        d1 == d2,
        b1 == b2,
{
    assert((((d1 as u64) << 32) | (b1 as u64)) == (((d2 as u64) << 32) | (b2 as u64)) && b1
        <= 0xffff_ffffusize && b2 <= 0xffff_ffffusize ==> d1 == d2 && b1 == b2) by (bit_vector);
}

/// Fixed-size unit of in-memory block data identified by device and block
/// number, with the valid and dirty flag bits.
#[derive(Debug, PartialEq)]
pub struct Buf {
    /// Device identifier.
    pub dev: u32,
    /// Block number on the device.
    pub blockno: usize,
    /// Flag bits `B_VALID` and `B_DIRTY`.
    pub flags: u8,
    /// The block payload, always `B_SIZE` bytes.
    pub data: Vec<u8>,
}

impl Buf {
    /// The payload has exactly one block of bytes and the block number
    /// fits the key encoding.
    pub open spec fn wf(self) -> bool {
        &&& self.data@.len() == B_SIZE
        &&& self.blockno <= u32::MAX
    }

    /// The cache key of this buffer.
    pub open spec fn key(self) -> u64 {
        buf_key(self.dev, self.blockno)
    }

    /// A fresh, zero-filled, invalid buffer for the given key.
    pub fn new(dev: u32, blockno: usize) -> (b: Buf)
        requires
            blockno <= u32::MAX,
        ensures
            b.dev == dev,
            b.blockno == blockno,
            b.flags == 0,
            !flag_valid(b.flags),
            !flag_dirty(b.flags),
            b.wf(),
            forall|i: int| 0 <= i < B_SIZE ==> b.data@[i] == 0,
    {
        let mut data: Vec<u8> = Vec::new();
        let mut i: usize = 0;
        while i < B_SIZE
            invariant
                data@.len() == i,
                i <= B_SIZE,
                forall|j: int| 0 <= j < i ==> data@[j] == 0,
            decreases B_SIZE - i,
        {
            data.push(0);
            i += 1;
        }
        proof {
            lemma_flags_zero();
        }
        Buf { dev, blockno, flags: 0, data }
    }
}

/// A fresh copy of a payload.
pub fn copy_data(src: &Vec<u8>) -> (r: Vec<u8>)
    ensures
        r@ == src@,
{
    let mut r: Vec<u8> = Vec::new();
    let mut i: usize = 0;
    while i < src.len()
        invariant
            i <= src.len(),
            r@ == src@.take(i as int),
        decreases src.len() - i,
    {
        r.push(src[i]);
        assert(r@ =~= src@.take(i as int + 1));
        i += 1;
    }
    assert(r@ =~= src@);
    r
}

} // verus!
