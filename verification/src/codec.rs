//! Byte encodings of the on-disk records: fixed width, little-endian
//! integers, no padding. The kernel and the image builder both go through
//! these functions, so the two sides agree bit for bit.

use vstd::prelude::*;
use crate::layout::{DataAddresses, Dirent, Inode, InodeType, Superblock};

verus! {

/// Encoded size of a superblock in bytes.
pub const SUPERBLOCK_LEN: usize = 32;
/// Encoded size of an inode in bytes.
pub const INODE_LEN: usize = 60;
/// Encoded size of a directory entry in bytes.
pub const DIRENT_LEN: usize = 16;

/// The little-endian bytes of a 32-bit integer, least significant first.
pub open spec fn u32_le_bytes(x: u32) -> Seq<u8> {
    seq![
        (x & 0xff) as u8,
        ((x >> 8) & 0xff) as u8,
        ((x >> 16) & 0xff) as u8,
        ((x >> 24) & 0xff) as u8,
    ]
}

/// The 32-bit integer read from four little-endian bytes.
pub open spec fn u32_from_le_bytes(b: Seq<u8>) -> u32
    recommends
        b.len() == 4,
{
    (b[0] as u32) | ((b[1] as u32) << 8) | ((b[2] as u32) << 16) | ((b[3] as u32) << 24)
}

/// `s` with the window starting at `off` replaced by `w`.
pub open spec fn splice(s: Seq<u8>, off: int, w: Seq<u8>) -> Seq<u8> {
    Seq::new(
        s.len(),
        |i: int|
            if off <= i < off + w.len() {
                w[i - off]
            } else {
                s[i]
            },
    )
}

/// Reading back the four little-endian bytes of an integer gives the
/// integer.
pub proof fn lemma_u32_le_round_trip(x: u32)
    ensures
        u32_from_le_bytes(u32_le_bytes(x)) == x,
{
    assert(((x & 0xff) as u8 as u32) | ((((x >> 8) & 0xff) as u8 as u32) << 8) | ((((x >> 16)
        & 0xff) as u8 as u32) << 16) | ((((x >> 24) & 0xff) as u8 as u32) << 24) == x)
        by (bit_vector);
}

/// Two adjacent window replacements are one replacement of the
/// concatenated windows.
pub proof fn lemma_splice_concat(s: Seq<u8>, off: int, w1: Seq<u8>, w2: Seq<u8>)
    requires
        0 <= off,
        off + w1.len() + w2.len() <= s.len(),
    ensures
        splice(splice(s, off, w1), off + w1.len(), w2) == splice(s, off, w1 + w2),
{
    assert(splice(splice(s, off, w1), off + w1.len(), w2) =~= splice(s, off, w1 + w2));
}

/// Writes the four little-endian bytes of `x` at `off`.
pub fn u32_write_le(out: &mut Vec<u8>, off: usize, x: u32)
    requires
        off + 4 <= old(out).len(),
    ensures
        final(out)@ == splice(old(out)@, off as int, u32_le_bytes(x)),
{
    out.set(off, (x & 0xff) as u8);
    out.set(off + 1, ((x >> 8) & 0xff) as u8);
    out.set(off + 2, ((x >> 16) & 0xff) as u8);
    out.set(off + 3, ((x >> 24) & 0xff) as u8);
    assert(out@ =~= splice(old(out)@, off as int, u32_le_bytes(x)));
}

/// Reads the 32-bit integer stored in four little-endian bytes at `off`.
pub fn u32_read_le(bytes: &Vec<u8>, off: usize) -> (x: u32)
    requires
        off + 4 <= bytes.len(),
    ensures
        x == u32_from_le_bytes(bytes@.subrange(off as int, off as int + 4)),
{
    let b0 = bytes[off];
    let b1 = bytes[off + 1];
    let b2 = bytes[off + 2];
    let b3 = bytes[off + 3];
    (b0 as u32) | ((b1 as u32) << 8) | ((b2 as u32) << 16) | ((b3 as u32) << 24)
}

/// The bytes of an encoded superblock: eight little-endian integers.
pub open spec fn spec_superblock_bytes(sb: Superblock) -> Seq<u8> {
    u32_le_bytes(sb.size) + u32_le_bytes(sb.nblocks) + u32_le_bytes(sb.ninodes) + u32_le_bytes(
        sb.nlog,
    ) + u32_le_bytes(sb.logstart) + u32_le_bytes(sb.inodestart) + u32_le_bytes(sb.bmapstart)
        + u32_le_bytes(sb.datastart)
}

/// The superblock read from 32 encoded bytes.
pub open spec fn spec_decode_superblock(b: Seq<u8>) -> Superblock
    recommends
        b.len() >= 32,
{
    Superblock {
        size: u32_from_le_bytes(b.subrange(0, 4)),
        nblocks: u32_from_le_bytes(b.subrange(4, 8)),
        ninodes: u32_from_le_bytes(b.subrange(8, 12)),
        nlog: u32_from_le_bytes(b.subrange(12, 16)),
        logstart: u32_from_le_bytes(b.subrange(16, 20)),
        inodestart: u32_from_le_bytes(b.subrange(20, 24)),
        bmapstart: u32_from_le_bytes(b.subrange(24, 28)),
        datastart: u32_from_le_bytes(b.subrange(28, 32)),
    }
}

/// Decoding an encoded superblock gives back the superblock.
pub proof fn lemma_superblock_round_trip(sb: Superblock)
    ensures
        spec_decode_superblock(spec_superblock_bytes(sb)) == sb,
{
    let b = spec_superblock_bytes(sb);
    assert(b.subrange(0, 4) =~= u32_le_bytes(sb.size));
    assert(b.subrange(4, 8) =~= u32_le_bytes(sb.nblocks));
    assert(b.subrange(8, 12) =~= u32_le_bytes(sb.ninodes));
    assert(b.subrange(12, 16) =~= u32_le_bytes(sb.nlog));
    assert(b.subrange(16, 20) =~= u32_le_bytes(sb.logstart));
    assert(b.subrange(20, 24) =~= u32_le_bytes(sb.inodestart));
    assert(b.subrange(24, 28) =~= u32_le_bytes(sb.bmapstart));
    assert(b.subrange(28, 32) =~= u32_le_bytes(sb.datastart));
    lemma_u32_le_round_trip(sb.size);
    lemma_u32_le_round_trip(sb.nblocks);
    lemma_u32_le_round_trip(sb.ninodes);
    lemma_u32_le_round_trip(sb.nlog);
    lemma_u32_le_round_trip(sb.logstart);
    lemma_u32_le_round_trip(sb.inodestart);
    lemma_u32_le_round_trip(sb.bmapstart);
    lemma_u32_le_round_trip(sb.datastart);
}

impl Superblock {
    /// Writes the 32 encoded bytes of the superblock at `off`.
    pub fn encode_as_le_bytes(&self, out: &mut Vec<u8>, off: usize)
        requires
            off + SUPERBLOCK_LEN <= old(out).len(),
        ensures
            final(out)@ == splice(old(out)@, off as int, spec_superblock_bytes(*self)),
    {
        let ghost s0 = out@;
        u32_write_le(out, off, self.size);
        u32_write_le(out, off + 4, self.nblocks);
        u32_write_le(out, off + 8, self.ninodes);
        u32_write_le(out, off + 12, self.nlog);
        u32_write_le(out, off + 16, self.logstart);
        u32_write_le(out, off + 20, self.inodestart);
        u32_write_le(out, off + 24, self.bmapstart);
        u32_write_le(out, off + 28, self.datastart);
        proof {
            let o = off as int;
            let w1 = u32_le_bytes(self.size);
            let w2 = u32_le_bytes(self.nblocks);
            let w3 = u32_le_bytes(self.ninodes);
            let w4 = u32_le_bytes(self.nlog);
            let w5 = u32_le_bytes(self.logstart);
            let w6 = u32_le_bytes(self.inodestart);
            let w7 = u32_le_bytes(self.bmapstart);
            let w8 = u32_le_bytes(self.datastart);
            lemma_splice_concat(s0, o, w1, w2);
            lemma_splice_concat(s0, o, w1 + w2, w3);
            lemma_splice_concat(s0, o, w1 + w2 + w3, w4);
            lemma_splice_concat(s0, o, w1 + w2 + w3 + w4, w5);
            lemma_splice_concat(s0, o, w1 + w2 + w3 + w4 + w5, w6);
            lemma_splice_concat(s0, o, w1 + w2 + w3 + w4 + w5 + w6, w7);
            lemma_splice_concat(s0, o, w1 + w2 + w3 + w4 + w5 + w6 + w7, w8);
        }
    }

    /// Reads the superblock encoded at `off`.
    pub fn decode_from_le_bytes(bytes: &Vec<u8>, off: usize) -> (sb: Superblock)
        requires
            off + SUPERBLOCK_LEN <= bytes.len(),
        ensures
            sb == spec_decode_superblock(bytes@.subrange(off as int, off as int + 32)),
    {
        proof {
            let b = bytes@.subrange(off as int, off as int + 32);
            let o = off as int;
            assert(bytes@.subrange(o, o + 4) =~= b.subrange(0, 4));
            assert(bytes@.subrange(o + 4, o + 8) =~= b.subrange(4, 8));
            assert(bytes@.subrange(o + 8, o + 12) =~= b.subrange(8, 12));
            assert(bytes@.subrange(o + 12, o + 16) =~= b.subrange(12, 16));
            assert(bytes@.subrange(o + 16, o + 20) =~= b.subrange(16, 20));
            assert(bytes@.subrange(o + 20, o + 24) =~= b.subrange(20, 24));
            assert(bytes@.subrange(o + 24, o + 28) =~= b.subrange(24, 28));
            assert(bytes@.subrange(o + 28, o + 32) =~= b.subrange(28, 32));
        }
        Superblock {
            size: u32_read_le(bytes, off),
            nblocks: u32_read_le(bytes, off + 4),
            ninodes: u32_read_le(bytes, off + 8),
            nlog: u32_read_le(bytes, off + 12),
            logstart: u32_read_le(bytes, off + 16),
            inodestart: u32_read_le(bytes, off + 20),
            bmapstart: u32_read_le(bytes, off + 24),
            datastart: u32_read_le(bytes, off + 28),
        }
    }
}

/// The tag byte of an inode type.
pub open spec fn inode_type_byte(t: InodeType) -> u8 {
    match t {
        InodeType::Free => 0,
        InodeType::Dir => 1,
        InodeType::File => 2,
        InodeType::Device => 3,
    }
}

/// The inode type read from a tag byte; an unknown tag reads as `Free`.
pub open spec fn byte_inode_type(b: u8) -> InodeType {
    if b == 1 {
        InodeType::Dir
    } else if b == 2 {
        InodeType::File
    } else if b == 3 {
        InodeType::Device
    } else {
        InodeType::Free
    }
}

impl InodeType {
    /// Writes the tag byte of the type at `off`.
    pub fn encode_as_le_bytes(&self, out: &mut Vec<u8>, off: usize)
        requires
            off < old(out).len(),
        ensures
            final(out)@ == old(out)@.update(off as int, inode_type_byte(*self)),
    {
        let tag: u8 = match self {
            InodeType::Free => 0,
            InodeType::Dir => 1,
            InodeType::File => 2,
            InodeType::Device => 3,
        };
        out.set(off, tag);
    }

    /// Reads the inode type stored in the tag byte at `off`.
    pub fn decode_from_le_bytes(bytes: &Vec<u8>, off: usize) -> (t: InodeType)
        requires
            off < bytes.len(),
        ensures
            t == byte_inode_type(bytes@[off as int]),
    {
        let tag = bytes[off];
        match tag {
            1 => InodeType::Dir,
            2 => InodeType::File,
            3 => InodeType::Device,
            _ => InodeType::Free,
        }
    }
}

/// The 52 bytes of the thirteen encoded data-block addresses.
pub open spec fn spec_addrs_bytes(a: DataAddresses) -> Seq<u8> {
    u32_le_bytes(a.0@[0]) + u32_le_bytes(a.0@[1]) + u32_le_bytes(a.0@[2]) + u32_le_bytes(a.0@[3])
        + u32_le_bytes(a.0@[4]) + u32_le_bytes(a.0@[5]) + u32_le_bytes(a.0@[6]) + u32_le_bytes(
        a.0@[7],
    ) + u32_le_bytes(a.0@[8]) + u32_le_bytes(a.0@[9]) + u32_le_bytes(a.0@[10]) + u32_le_bytes(
        a.0@[11],
    ) + u32_le_bytes(a.0@[12])
}

/// `a` holds the thirteen addresses encoded in the 52 bytes `b`.
pub open spec fn addrs_match_bytes(a: DataAddresses, b: Seq<u8>) -> bool
    recommends
        b.len() == 52,
{
    forall|k: int| 0 <= k < 13 ==> a.0@[k] == u32_from_le_bytes(b.subrange(4 * k, 4 * k + 4))
}

impl DataAddresses {
    /// Writes the 52 encoded bytes of the addresses at `off`.
    pub fn encode_as_le_bytes(&self, out: &mut Vec<u8>, off: usize)
        requires
            off + 52 <= old(out).len(),
        ensures
            final(out)@ == splice(old(out)@, off as int, spec_addrs_bytes(*self)),
    {
        let ghost s0 = out@;
        u32_write_le(out, off, self.0[0]);
        u32_write_le(out, off + 4, self.0[1]);
        u32_write_le(out, off + 8, self.0[2]);
        u32_write_le(out, off + 12, self.0[3]);
        u32_write_le(out, off + 16, self.0[4]);
        u32_write_le(out, off + 20, self.0[5]);
        u32_write_le(out, off + 24, self.0[6]);
        u32_write_le(out, off + 28, self.0[7]);
        u32_write_le(out, off + 32, self.0[8]);
        u32_write_le(out, off + 36, self.0[9]);
        u32_write_le(out, off + 40, self.0[10]);
        u32_write_le(out, off + 44, self.0[11]);
        u32_write_le(out, off + 48, self.0[12]);
        proof {
            let o = off as int;
            let a = *self;
            let w0 = u32_le_bytes(a.0@[0]);
            let w1 = u32_le_bytes(a.0@[1]);
            let w2 = u32_le_bytes(a.0@[2]);
            let w3 = u32_le_bytes(a.0@[3]);
            let w4 = u32_le_bytes(a.0@[4]);
            let w5 = u32_le_bytes(a.0@[5]);
            let w6 = u32_le_bytes(a.0@[6]);
            let w7 = u32_le_bytes(a.0@[7]);
            let w8 = u32_le_bytes(a.0@[8]);
            let w9 = u32_le_bytes(a.0@[9]);
            let w10 = u32_le_bytes(a.0@[10]);
            let w11 = u32_le_bytes(a.0@[11]);
            let w12 = u32_le_bytes(a.0@[12]);
            lemma_splice_concat(s0, o, w0, w1);
            lemma_splice_concat(s0, o, w0 + w1, w2);
            lemma_splice_concat(s0, o, w0 + w1 + w2, w3);
            lemma_splice_concat(s0, o, w0 + w1 + w2 + w3, w4);
            lemma_splice_concat(s0, o, w0 + w1 + w2 + w3 + w4, w5);
            lemma_splice_concat(s0, o, w0 + w1 + w2 + w3 + w4 + w5, w6);
            lemma_splice_concat(s0, o, w0 + w1 + w2 + w3 + w4 + w5 + w6, w7);
            lemma_splice_concat(s0, o, w0 + w1 + w2 + w3 + w4 + w5 + w6 + w7, w8);
            lemma_splice_concat(s0, o, w0 + w1 + w2 + w3 + w4 + w5 + w6 + w7 + w8, w9);
            lemma_splice_concat(s0, o, w0 + w1 + w2 + w3 + w4 + w5 + w6 + w7 + w8 + w9, w10);
            lemma_splice_concat(
                s0,
                o,
                w0 + w1 + w2 + w3 + w4 + w5 + w6 + w7 + w8 + w9 + w10,
                w11,
            );
            lemma_splice_concat(
                s0,
                o,
                w0 + w1 + w2 + w3 + w4 + w5 + w6 + w7 + w8 + w9 + w10 + w11,
                w12,
            );
        }
    }

    /// Reads the thirteen addresses encoded at `off`.
    pub fn decode_from_le_bytes(bytes: &Vec<u8>, off: usize) -> (a: DataAddresses)
        requires
            off + 52 <= bytes.len(),
        ensures
            addrs_match_bytes(a, bytes@.subrange(off as int, off as int + 52)),
    {
        let mut vals: [u32; 13] = [0; 13];
        let mut k: usize = 0;
        while k < 13
            invariant
                0 <= k <= 13,
                off + 52 <= bytes.len(),
                forall|j: int|
                    0 <= j < k ==> vals@[j] == u32_from_le_bytes(
                        bytes@.subrange(off + 4 * j, off + 4 * j + 4),
                    ),
            decreases 13 - k,
        {
            vals[k] = u32_read_le(bytes, off + 4 * k);
            k += 1;
        }
        proof {
            let b = bytes@.subrange(off as int, off as int + 52);
            assert forall|j: int| 0 <= j < 13 implies vals@[j] == u32_from_le_bytes(
                b.subrange(4 * j, 4 * j + 4),
            ) by {
                assert(bytes@.subrange(off + 4 * j, off + 4 * j + 4) =~= b.subrange(
                    4 * j,
                    4 * j + 4,
                ));
            }
        }
        DataAddresses(vals)
    }
}

/// Each four-byte window of the encoded addresses reads back as the
/// address it encodes.
pub proof fn lemma_addrs_match_encoding(a: DataAddresses)
    ensures
        addrs_match_bytes(a, spec_addrs_bytes(a)),
{
    let b = spec_addrs_bytes(a);
    assert(b.subrange(0, 4) =~= u32_le_bytes(a.0@[0]));
    assert(b.subrange(4, 8) =~= u32_le_bytes(a.0@[1]));
    assert(b.subrange(8, 12) =~= u32_le_bytes(a.0@[2]));
    assert(b.subrange(12, 16) =~= u32_le_bytes(a.0@[3]));
    assert(b.subrange(16, 20) =~= u32_le_bytes(a.0@[4]));
    assert(b.subrange(20, 24) =~= u32_le_bytes(a.0@[5]));
    assert(b.subrange(24, 28) =~= u32_le_bytes(a.0@[6]));
    assert(b.subrange(28, 32) =~= u32_le_bytes(a.0@[7]));
    assert(b.subrange(32, 36) =~= u32_le_bytes(a.0@[8]));
    assert(b.subrange(36, 40) =~= u32_le_bytes(a.0@[9]));
    assert(b.subrange(40, 44) =~= u32_le_bytes(a.0@[10]));
    assert(b.subrange(44, 48) =~= u32_le_bytes(a.0@[11]));
    assert(b.subrange(48, 52) =~= u32_le_bytes(a.0@[12]));
    lemma_u32_le_round_trip(a.0@[0]);
    lemma_u32_le_round_trip(a.0@[1]);
    lemma_u32_le_round_trip(a.0@[2]);
    lemma_u32_le_round_trip(a.0@[3]);
    lemma_u32_le_round_trip(a.0@[4]);
    lemma_u32_le_round_trip(a.0@[5]);
    lemma_u32_le_round_trip(a.0@[6]);
    lemma_u32_le_round_trip(a.0@[7]);
    lemma_u32_le_round_trip(a.0@[8]);
    lemma_u32_le_round_trip(a.0@[9]);
    lemma_u32_le_round_trip(a.0@[10]);
    lemma_u32_le_round_trip(a.0@[11]);
    lemma_u32_le_round_trip(a.0@[12]);
    assert forall|k: int| 0 <= k < 13 implies a.0@[k] == u32_from_le_bytes(
        b.subrange(4 * k, 4 * k + 4),
    ) by {
        if k == 0 {
        } else if k == 1 {
        } else if k == 2 {
        } else if k == 3 {
        } else if k == 4 {
        } else if k == 5 {
        } else if k == 6 {
        } else if k == 7 {
        } else if k == 8 {
        } else if k == 9 {
        } else if k == 10 {
        } else if k == 11 {
        } else {
            assert(k == 12);
        }
    }
}

/// The 60 bytes of an encoded inode: tag, device numbers and link count,
/// then the size and the data-block addresses.
pub open spec fn spec_inode_bytes(x: Inode) -> Seq<u8> {
    seq![inode_type_byte(x.inode_type), x.major_dev, x.minor_dev, x.num_links] + u32_le_bytes(
        x.size,
    ) + spec_addrs_bytes(x.data_addresses)
}

/// `x` holds exactly the fields encoded in the 60 bytes `b`.
pub open spec fn inode_matches_bytes(x: Inode, b: Seq<u8>) -> bool
    recommends
        b.len() == 60,
{
    &&& x.inode_type == byte_inode_type(b[0])
    &&& x.major_dev == b[1]
    &&& x.minor_dev == b[2]
    &&& x.num_links == b[3]
    &&& x.size == u32_from_le_bytes(b.subrange(4, 8))
    &&& addrs_match_bytes(x.data_addresses, b.subrange(8, 60))
}

impl Inode {
    /// Writes the 60 encoded bytes of the inode at `off`.
    pub fn encode_as_le_bytes(&self, out: &mut Vec<u8>, off: usize)
        requires
            off + INODE_LEN <= old(out).len(),
        ensures
            final(out)@ == splice(old(out)@, off as int, spec_inode_bytes(*self)),
    {
        let ghost s0 = out@;
        self.inode_type.encode_as_le_bytes(out, off);
        out.set(off + 1, self.major_dev);
        out.set(off + 2, self.minor_dev);
        out.set(off + 3, self.num_links);
        proof {
            let header = seq![
                inode_type_byte(self.inode_type),
                self.major_dev,
                self.minor_dev,
                self.num_links,
            ];
            assert(out@ =~= splice(s0, off as int, header));
        }
        u32_write_le(out, off + 4, self.size);
        self.data_addresses.encode_as_le_bytes(out, off + 8);
        proof {
            let o = off as int;
            let header = seq![
                inode_type_byte(self.inode_type),
                self.major_dev,
                self.minor_dev,
                self.num_links,
            ];
            let wsize = u32_le_bytes(self.size);
            let waddrs = spec_addrs_bytes(self.data_addresses);
            lemma_splice_concat(s0, o, header, wsize);
            lemma_splice_concat(s0, o, header + wsize, waddrs);
        }
    }

    /// Reads the inode encoded at `off`.
    pub fn decode_from_le_bytes(bytes: &Vec<u8>, off: usize) -> (x: Inode)
        requires
            off + INODE_LEN <= bytes.len(),
        ensures
            inode_matches_bytes(x, bytes@.subrange(off as int, off as int + 60)),
    {
        let inode_type = InodeType::decode_from_le_bytes(bytes, off);
        let major_dev = bytes[off + 1];
        let minor_dev = bytes[off + 2];
        let num_links = bytes[off + 3];
        let size = u32_read_le(bytes, off + 4);
        let data_addresses = DataAddresses::decode_from_le_bytes(bytes, off + 8);
        proof {
            let o = off as int;
            let b = bytes@.subrange(o, o + 60);
            assert(bytes@.subrange(o + 4, o + 8) =~= b.subrange(4, 8));
            assert(bytes@.subrange(o + 8, o + 60) =~= b.subrange(8, 60));
        }
        Inode { inode_type, major_dev, minor_dev, num_links, size, data_addresses }
    }
}

/// Decoding an encoded inode reads back every field of the inode.
pub proof fn lemma_inode_matches_encoding(x: Inode)
    ensures
        inode_matches_bytes(x, spec_inode_bytes(x)),
{
    let b = spec_inode_bytes(x);
    assert(b[0] == inode_type_byte(x.inode_type));
    assert(byte_inode_type(inode_type_byte(x.inode_type)) == x.inode_type);
    assert(b.subrange(4, 8) =~= u32_le_bytes(x.size));
    lemma_u32_le_round_trip(x.size);
    assert(b.subrange(8, 60) =~= spec_addrs_bytes(x.data_addresses));
    lemma_addrs_match_encoding(x.data_addresses);
}

/// Round trip: an inode decoded from the encoding of `x` is `x`.
pub proof fn lemma_inode_round_trip(x: Inode, y: Inode)
    requires
        inode_matches_bytes(y, spec_inode_bytes(x)),
    ensures
        y == x,
{
    broadcast use vstd::array::group_array_axioms;

    lemma_inode_matches_encoding(x);
    assert(y.data_addresses.0@ =~= x.data_addresses.0@);
    assert(y.data_addresses.0 =~= x.data_addresses.0);
}

/// The 16 bytes of an encoded directory entry: the inode number, then the
/// fixed-width name.
pub open spec fn spec_dirent_bytes(d: Dirent) -> Seq<u8> {
    seq![d.inum] + d.name@
}

/// `d` holds exactly the entry encoded in the 16 bytes `b`.
pub open spec fn dirent_matches_bytes(d: Dirent, b: Seq<u8>) -> bool
    recommends
        b.len() == 16,
{
    &&& d.inum == b[0]
    &&& forall|i: int| 0 <= i < 15 ==> d.name@[i] == b[1 + i]
}

impl Dirent {
    /// Writes the 16 encoded bytes of the entry at `off`.
    pub fn encode_as_le_bytes(&self, out: &mut Vec<u8>, off: usize)
        requires
            off + DIRENT_LEN <= old(out).len(),
        ensures
            final(out)@ == splice(old(out)@, off as int, spec_dirent_bytes(*self)),
    {
        let ghost s0 = out@;
        out.set(off, self.inum);
        let mut i: usize = 0;
        while i < 15
            invariant
                0 <= i <= 15,
                off + 16 <= out.len(),
                out@.len() == s0.len(),
                out@[off as int] == self.inum,
                forall|j: int| 0 <= j < i ==> out@[off + 1 + j] == self.name@[j],
                forall|j: int| !(off <= j < off + 1 + i) && 0 <= j < s0.len() ==> out@[j] == s0[j],
            decreases 15 - i,
        {
            out.set(off + 1 + i, self.name[i]);
            i += 1;
        }
        assert(out@ =~= splice(s0, off as int, spec_dirent_bytes(*self)));
    }

    /// Reads the entry encoded at `off`.
    pub fn decode_from_le_bytes(bytes: &Vec<u8>, off: usize) -> (d: Dirent)
        requires
            off + DIRENT_LEN <= bytes.len(),
        ensures
            dirent_matches_bytes(d, bytes@.subrange(off as int, off as int + 16)),
    {
        let inum = bytes[off];
        let mut name: [u8; 15] = [0; 15];
        let mut i: usize = 0;
        while i < 15
            invariant
                0 <= i <= 15,
                off + 16 <= bytes.len(),
                forall|j: int| 0 <= j < i ==> name@[j] == bytes@[off + 1 + j],
            decreases 15 - i,
        {
            name[i] = bytes[off + 1 + i];
            i += 1;
        }
        Dirent { inum, name }
    }
}

/// Decoding an encoded directory entry reads back the entry's fields.
pub proof fn lemma_dirent_matches_encoding(d: Dirent)
    ensures
        dirent_matches_bytes(d, spec_dirent_bytes(d)),
{
}

/// Round trip: an entry decoded from the encoding of `d` is `d`.
pub proof fn lemma_dirent_round_trip(d: Dirent, e: Dirent)
    requires
        dirent_matches_bytes(e, spec_dirent_bytes(d)),
    ensures
        e == d,
{
    broadcast use vstd::array::group_array_axioms;

    lemma_dirent_matches_encoding(d);
    assert(e.name@ =~= d.name@);
    assert(e.name =~= d.name);
}

} // verus!
