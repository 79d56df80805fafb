//! The offline image builder: formats a blank disk image, held in memory
//! as one flat byte vector, into the fixed on-disk layout. The kernel
//! reads the same encodings back, so a freshly built image boots into a
//! structurally valid file system. Writing the bytes to a file is left to
//! the surrounding program.

use vstd::prelude::*;
use vstd::arithmetic::div_mod::{
    lemma_div_is_ordered, lemma_div_plus_one, lemma_fundamental_div_mod,
    lemma_mod_division_less_than_divisor,
};
use crate::codec::{
    dirent_matches_bytes, inode_matches_bytes, spec_dirent_bytes, spec_inode_bytes,
    spec_superblock_bytes, splice, byte_inode_type, SUPERBLOCK_LEN,
};
use crate::layout::{Dirent, Inode, InodeType, Superblock, BSIZE, FSSIZE, IPB, ROOT_INO};

verus! {

/// Errors of the image builder.
#[derive(Clone, Copy, Debug, PartialEq, Eq, Structural)]
pub enum FsError {
    /// The free-block bitmap has no clear bit for a data block.
    NoFreeBlocks,
    /// Every non-reserved inode is in use.
    NoFreeInodes,
}

/// The byte offset of inode `inum`: eight 60-byte inodes per 512-byte
/// block, starting at the inode region.
pub open spec fn inode_byte_off(inum: int, sb: Superblock) -> int {
    (inum / 8 + sb.inodestart as int) * 512 + (inum % 8) * 60
}

/// The byte offset of directory entry `index` in data block `block`:
/// 16-byte entries, packed.
pub open spec fn dirent_byte_off(block: int, index: int) -> int {
    block * 512 + index * 16
}

/// The type tag stored for inode `inum` in the image.
pub open spec fn inode_type_at(img: Seq<u8>, inum: int, sb: Superblock) -> InodeType {
    byte_inode_type(img[inode_byte_off(inum, sb)])
}

/// Whether bit `j` of byte `b` is set, counting from the least
/// significant bit.
pub open spec fn byte_bit(b: u8, j: u8) -> bool
    recommends
        j < 8,
{
    b & (1u8 << j) != 0
}

/// Whether bit `i` of the free-block bitmap is set: bit `i` stands for
/// data block `datastart + i`. Bytes are scanned in order, bits from the
/// least significant.
pub open spec fn bit_is_set(img: Seq<u8>, sb: Superblock, i: int) -> bool
    recommends
        0 <= i < 4096,
{
    byte_bit(img[sb.bmapstart as int * 512 + i / 8], (i % 8) as u8)
}

/// How many bitmap bits the allocator scans: one per data block, at most
/// the one bitmap block's 4096 bits.
pub open spec fn scan_bits(sb: Superblock) -> int {
    if sb.size - sb.datastart < 4096 {
        sb.size - sb.datastart
    } else {
        4096
    }
}

/// An inode slot of a well-formed superblock lies inside the inode
/// region, before the bitmap region.
pub proof fn lemma_inode_off_bounds(inum: int, sb: Superblock)
    requires
        0 <= inum < sb.ninodes,
        sb.wf(),
    ensures
        0 <= inode_byte_off(inum, sb),
        inode_byte_off(inum, sb) + 60 <= sb.bmapstart as int * 512,
{
    lemma_div_is_ordered(inum, sb.ninodes - 1, 8);
    lemma_div_plus_one(sb.ninodes - 1, 8);
    assert((sb.ninodes - 1) / 8 + 1 == (sb.ninodes + 7) / 8);
    lemma_mod_division_less_than_divisor(inum, 8);
    assert(0 <= inum % 8 < 8);
    assert(inum / 8 >= 0) by {
        lemma_div_is_ordered(0, inum, 8);
    }
    let block = inum / 8 + sb.inodestart as int;
    assert(block + 1 <= sb.bmapstart as int);
    assert(inode_byte_off(inum, sb) + 60 <= block * 512 + 512);
}

/// A fresh image of the configured size, all bytes zero.
pub fn zero_fs() -> (img: Vec<u8>)
    ensures
        img@.len() == FSSIZE as int * BSIZE as int,
        forall|i: int| 0 <= i < img@.len() ==> img@[i] == 0,
{
    let n: usize = (FSSIZE as usize) * (BSIZE as usize);
    let mut img: Vec<u8> = Vec::new();
    let mut i: usize = 0;
    while i < n
        invariant
            img@.len() == i,
            i <= n,
            forall|j: int| 0 <= j < i ==> img@[j] == 0,
        decreases n - i,
    {
        img.push(0);
        i += 1;
    }
    img
}

/// Writes the superblock into block 0 of the image.
pub fn write_superblock(img: &mut Vec<u8>, sb: &Superblock)
    requires
        SUPERBLOCK_LEN <= old(img).len(),
    ensures
        final(img)@ == splice(old(img)@, 0, spec_superblock_bytes(*sb)),
{
    sb.encode_as_le_bytes(img, 0);
}

/// The byte offset of inode `inum`, as the executable side computes it.
fn inode_off(inum: u32, sb: &Superblock) -> (off: usize)
    requires
        inum < sb.ninodes,
        sb.wf(),
        sb.size as int * 512 <= usize::MAX,
    ensures
        off == inode_byte_off(inum as int, *sb),
        off + 60 <= sb.bmapstart as int * 512,
{
    proof {
        lemma_inode_off_bounds(inum as int, *sb);
        assert(IPB == 8);
        assert(crate::layout::INODE_SIZE == 60);
        assert(BSIZE == 512);
    }
    let inode_block: u32 = inum / IPB + sb.inodestart;
    let inode_offset: u32 = (inum % IPB) * crate::layout::INODE_SIZE;
    (inode_block as usize) * (BSIZE as usize) + (inode_offset as usize)
}

/// Writes an inode record at its slot for `inum`.
pub fn write_inode(img: &mut Vec<u8>, inum: u32, inode: &Inode, sb: &Superblock)
    requires
        inum < sb.ninodes,
        sb.wf(),
        sb.size as int * 512 <= old(img).len(),
    ensures
        final(img)@ == splice(old(img)@, inode_byte_off(inum as int, *sb), spec_inode_bytes(*inode)),
{
    let off = inode_off(inum, sb);
    proof {
        assert(sb.bmapstart as int * 512 <= sb.size as int * 512);
    }
    inode.encode_as_le_bytes(img, off);
}

/// Reads the inode record stored at the slot for `inum`.
pub fn read_inode(img: &Vec<u8>, inum: u32, sb: &Superblock) -> (x: Inode)
    requires
        inum < sb.ninodes,
        sb.wf(),
        sb.size as int * 512 <= img.len(),
    ensures
        inode_matches_bytes(
            x,
            img@.subrange(inode_byte_off(inum as int, *sb), inode_byte_off(inum as int, *sb) + 60),
        ),
        x.inode_type == inode_type_at(img@, inum as int, *sb),
    {
    let off = inode_off(inum, sb);
    proof {
        assert(sb.bmapstart as int * 512 <= sb.size as int * 512);
    }
    let x = Inode::decode_from_le_bytes(img, off);
    proof {
        let b = img@.subrange(off as int, off as int + 60);
        assert(b[0] == img@[off as int]);
    }
    x
}

/// Writes a directory entry at `index` of data block `block`.
pub fn write_dirent(img: &mut Vec<u8>, dirent: &Dirent, block: u32, index: usize)
    requires
        (block as int + 1) * 512 <= old(img).len(),
        index < 32,
    ensures
        final(img)@ == splice(
            old(img)@,
            dirent_byte_off(block as int, index as int),
            spec_dirent_bytes(*dirent),
        ),
{
    let off: usize = (block as usize) * 512 + index * 16;
    dirent.encode_as_le_bytes(img, off);
}

/// Reads the directory entry at `index` of data block `block`.
pub fn read_dirent(img: &Vec<u8>, block: u32, index: usize) -> (d: Dirent)
    requires
        (block as int + 1) * 512 <= img.len(),
        index < 32,
    ensures
        dirent_matches_bytes(
            d,
            img@.subrange(
                dirent_byte_off(block as int, index as int),
                dirent_byte_off(block as int, index as int) + 16,
            ),
        ),
{
    let off: usize = (block as usize) * 512 + index * 16;
    Dirent::decode_from_le_bytes(img, off)
}

/// Allocates an inode number: scans inode numbers from 1 upward and
/// returns the first whose stored type is `Free`; fails with
/// `NoFreeInodes` when none of the `ninodes - 1` non-reserved inodes is
/// free. Inode 0 is reserved and never considered.
pub fn ialloc(img: &Vec<u8>, sb: &Superblock) -> (r: Result<u32, FsError>)
    requires
        sb.wf(),
        sb.ninodes >= 1,
        sb.size as int * 512 <= img.len(),
    ensures
        match r {
            Ok(inum) => {
                &&& 1 <= inum < sb.ninodes
                &&& inode_type_at(img@, inum as int, *sb) == InodeType::Free
                &&& forall|j: int|
                    1 <= j < inum ==> inode_type_at(img@, j, *sb) != InodeType::Free
            },
            Err(e) => {
                &&& e == FsError::NoFreeInodes
                &&& forall|j: int|
                    1 <= j < sb.ninodes ==> inode_type_at(img@, j, *sb) != InodeType::Free
            },
        },
{
    let mut inum: u32 = 1;
    while inum < sb.ninodes
        invariant
            1 <= inum <= sb.ninodes,
            sb.wf(),
            sb.ninodes >= 1,
            sb.size as int * 512 <= img.len(),
            forall|j: int| 1 <= j < inum ==> inode_type_at(img@, j, *sb) != InodeType::Free,
        decreases sb.ninodes - inum,
    {
        let inode = read_inode(img, inum, sb);
        match inode.inode_type {
            InodeType::Free => {
                return Ok(inum);
            },
            _ => {},
        }
        inum += 1;
    }
    Err(FsError::NoFreeInodes)
}

/// Setting one bit of a byte leaves that bit set and every other bit as
/// it was.
proof fn lemma_set_bit(b: u8, j: u8, jj: u8)
    requires
        j < 8,
        jj < 8,
    ensures
        byte_bit(b | (1u8 << j), j),
        jj != j ==> byte_bit(b | (1u8 << j), jj) == byte_bit(b, jj),
{
    assert((b | (1u8 << j)) & (1u8 << j) != 0 && (jj != j ==> ((b | (1u8 << j)) & (1u8 << jj))
        == (b & (1u8 << jj)))) by (bit_vector)
        requires
            j < 8 && jj < 8,
    ;
}

/// A zero byte has no bit set.
pub proof fn lemma_zero_byte_bits(j: u8)
    requires
        j < 8,
    ensures
        !byte_bit(0, j),
{
    assert(0u8 & (1u8 << j) == 0) by (bit_vector);
}

/// Allocates a data block: scans the free-block bitmap byte-major,
/// bit-minor from the data region start, marks the first clear bit
/// allocated, zero-fills the corresponding block and returns its number;
/// fails with `NoFreeBlocks`, changing nothing, when every scanned bit is
/// set. The allocator never sets a bit for a block outside
/// `[datastart, size)` and never writes outside `[0, size)` blocks.
pub fn balloc(img: &mut Vec<u8>, sb: &Superblock) -> (r: Result<u32, FsError>)
    requires
        sb.wf(),
        sb.size as int * 512 <= old(img).len(),
    ensures
        final(img)@.len() == old(img)@.len(),
        match r {
            Ok(b) => {
                &&& sb.datastart <= b < sb.size
                &&& b - sb.datastart < scan_bits(*sb)
                &&& !bit_is_set(old(img)@, *sb, b - sb.datastart)
                &&& forall|j: int| 0 <= j < b - sb.datastart ==> bit_is_set(old(img)@, *sb, j)
                &&& bit_is_set(final(img)@, *sb, b - sb.datastart)
                &&& forall|j: int|
                    0 <= j < scan_bits(*sb) && j != b - sb.datastart ==> bit_is_set(
                        final(img)@,
                        *sb,
                        j,
                    ) == bit_is_set(old(img)@, *sb, j)
                &&& forall|i: int| b as int * 512 <= i < b as int * 512 + 512 ==> final(img)@[i] == 0
                &&& forall|i: int|
                    0 <= i < old(img)@.len() && i != sb.bmapstart as int * 512 + (b
                        - sb.datastart) as int / 8 && !(b as int * 512 <= i < b as int * 512 + 512)
                        ==> final(img)@[i] == old(img)@[i]
            },
            Err(e) => {
                &&& e == FsError::NoFreeBlocks
                &&& final(img)@ == old(img)@
                &&& forall|j: int| 0 <= j < scan_bits(*sb) ==> bit_is_set(old(img)@, *sb, j)
            },
        },
{
    let bmap_start: usize = (sb.bmapstart as usize) * 512;
    proof {
        assert((sb.bmapstart as int + 1) * 512 <= sb.size as int * 512);
    }
    let total: u32 = sb.size - sb.datastart;
    let limit: usize = if total > 4096 {
        4096
    } else {
        total as usize
    };
    let mut i: usize = 0;
    while i < limit
        invariant
            i <= limit,
            limit == scan_bits(*sb),
            sb.wf(),
            sb.size as int * 512 <= img.len(),
            bmap_start == sb.bmapstart as int * 512,
            img@ == old(img)@,
            forall|j: int| 0 <= j < i ==> bit_is_set(img@, *sb, j),
        decreases limit - i,
    {
        proof {
            lemma_mod_division_less_than_divisor(i as int, 8);
            lemma_div_is_ordered(i as int, 4095, 8);
            lemma_div_is_ordered(0, i as int, 8);
        }
        let j: u8 = (i % 8) as u8;
        let byte = img[bmap_start + i / 8];
        if byte & (1u8 << j) == 0 {
            let ghost pre = img@;
            let idx = bmap_start + i / 8;
            img.set(idx, byte | (1u8 << j));
            proof {
                lemma_set_bit(byte, j, j);
                assert(bit_is_set(img@, *sb, i as int));
                assert forall|jq: int|
                    0 <= jq < scan_bits(*sb) && jq != i implies bit_is_set(img@, *sb, jq)
                        == bit_is_set(pre, *sb, jq) by {
                    lemma_mod_division_less_than_divisor(jq, 8);
                    lemma_div_is_ordered(jq, 4095, 8);
                    lemma_div_is_ordered(0, jq, 8);
                    if jq / 8 == i as int / 8 {
                        lemma_fundamental_div_mod(jq, 8);
                        lemma_fundamental_div_mod(i as int, 8);
                        assert(jq % 8 != i as int % 8);
                        lemma_set_bit(byte, j, (jq % 8) as u8);
                    }
                }
            }
            let bno: u32 = sb.datastart + (i as u32);
            let base: usize = (bno as usize) * 512;
            proof {
                assert((bno as int + 1) * 512 <= sb.size as int * 512);
            }
            let ghost mid = img@;
            let mut t: usize = 0;
            while t < 512
                invariant
                    t <= 512,
                    img@.len() == mid.len(),
                    base == bno as int * 512,
                    base + 512 <= img@.len(),
                    forall|x: int| base <= x < base + t ==> img@[x] == 0,
                    forall|x: int| 0 <= x < img@.len() && !(base <= x < base + t) ==> img@[x]
                        == mid[x],
                decreases 512 - t,
            {
                img.set(base + t, 0);
                t += 1;
            }
            proof {
                assert(bit_is_set(img@, *sb, i as int)) by {
                    assert(img@[sb.bmapstart as int * 512 + i as int / 8] == mid[sb.bmapstart
                        as int * 512 + i as int / 8]);
                }
                assert forall|jq: int|
                    0 <= jq < scan_bits(*sb) && jq != i implies bit_is_set(img@, *sb, jq)
                        == bit_is_set(pre, *sb, jq) by {
                    lemma_mod_division_less_than_divisor(jq, 8);
                    lemma_div_is_ordered(jq, 4095, 8);
                    lemma_div_is_ordered(0, jq, 8);
                    assert(img@[sb.bmapstart as int * 512 + jq / 8] == mid[sb.bmapstart as int
                        * 512 + jq / 8]);
                }
                assert forall|x: int|
                    0 <= x < old(img)@.len() && x != sb.bmapstart as int * 512 + (bno
                        - sb.datastart) as int / 8 && !(bno as int * 512 <= x < bno as int * 512
                        + 512) implies img@[x] == old(img)@[x] by {
                    assert((bno - sb.datastart) as int / 8 == i as int / 8);
                    assert(img@[x] == mid[x]);
                    assert(mid[x] == pre[x]);
                }
            }
            return Ok(bno);
        }
        i += 1;
    }
    Err(FsError::NoFreeBlocks)
}

/// Builds a fresh, minimally populated file system image: a zero-filled
/// image of the configured size, the superblock in block 0, one allocated
/// data block holding the root directory's `"."` and `".."` entries, and
/// the root inode, a directory with one link, pointing at that block.
/// Building always succeeds on a fresh image.
pub fn build_image() -> (r: Result<Vec<u8>, FsError>)
    ensures
        r is Ok,
        r matches Ok(img) ==> {
            let sb = crate::layout::spec_new_superblock();
            &&& img@.len() == FSSIZE as int * 512
            &&& img@.subrange(0, 32) == spec_superblock_bytes(sb)
            &&& inode_type_at(img@, 0, sb) == InodeType::Free
            &&& inode_type_at(img@, crate::layout::ROOT_INO as int, sb) == InodeType::Dir
            &&& img@[inode_byte_off(crate::layout::ROOT_INO as int, sb) + 3] == 1
            &&& crate::codec::u32_from_le_bytes(
                img@.subrange(
                    inode_byte_off(crate::layout::ROOT_INO as int, sb) + 8,
                    inode_byte_off(crate::layout::ROOT_INO as int, sb) + 12,
                ),
            ) == sb.datastart
            &&& inode_type_at(img@, 2, sb) == InodeType::Free
            &&& bit_is_set(img@, sb, 0)
            &&& forall|j: int| 1 <= j < scan_bits(sb) ==> !bit_is_set(img@, sb, j)
            &&& img@[dirent_byte_off(sb.datastart as int, 0)] == 1
            &&& img@[dirent_byte_off(sb.datastart as int, 1)] == 1
            &&& forall|i: int|
                0 <= i < 15 ==> #[trigger] img@[dirent_byte_off(sb.datastart as int, 0) + 1 + i]
                    == (if i == 0 {
                    '.' as u8
                } else {
                    0u8
                })
            &&& forall|i: int|
                0 <= i < 15 ==> #[trigger] img@[dirent_byte_off(sb.datastart as int, 1) + 1 + i]
                    == (if i < 2 {
                    '.' as u8
                } else {
                    0u8
                })
        },
{
    let mut img = zero_fs();
    let ghost s0 = img@;
    let sb = Superblock::new();
    proof {
        assert(sb.datastart == 37 && sb.size == 1000 && sb.inodestart == 11);
        assert(scan_bits(sb) == 963);
    }
    write_superblock(&mut img, &sb);
    let ghost s1 = img@;

    let root_data_block = match balloc(&mut img, &sb) {
        Ok(b) => b,
        Err(_) => {
            proof {
                assert(!bit_is_set(s1, sb, 0)) by {
                    assert(s1[sb.bmapstart as int * 512] == 0);
                    lemma_zero_byte_bits(0);
                }
            }
            return Err(FsError::NoFreeBlocks);
        },
    };
    proof {
        assert(!bit_is_set(s1, sb, 0)) by {
            assert(s1[sb.bmapstart as int * 512] == 0);
            lemma_zero_byte_bits(0);
        }
        assert(root_data_block == sb.datastart) by {
            if root_data_block > sb.datastart {
                assert(bit_is_set(s1, sb, 0));
            }
        }
    }
    let ghost s2 = img@;

    let mut root_inode = Inode::new(InodeType::Dir);
    root_inode.data_addresses.0[0] = root_data_block;
    write_inode(&mut img, ROOT_INO, &root_inode, &sb);
    let ghost s3 = img@;

    let dot_entry = Dirent::new(ROOT_INO as u8, ".");
    let dotdot_entry = Dirent::new(ROOT_INO as u8, "..");
    write_dirent(&mut img, &dot_entry, root_data_block, 0);
    let ghost s4 = img@;
    write_dirent(&mut img, &dotdot_entry, root_data_block, 1);
    let ghost s5 = img@;

    proof {
        broadcast use vstd::array::group_array_axioms;

        let sbv = crate::layout::spec_new_superblock();
        let ioff = inode_byte_off(1, sbv);
        assert(ioff == 5692);
        assert(dirent_byte_off(37, 0) == 18944 && dirent_byte_off(37, 1) == 18960);
        let ib = spec_inode_bytes(root_inode);

        // The superblock bytes in block 0 are untouched by later writes.
        assert(s5.subrange(0, 32) =~= spec_superblock_bytes(sb)) by {
            assert(forall|x: int| 0 <= x < 32 ==> s5[x] == s1[x]);
            assert(s1.subrange(0, 32) =~= spec_superblock_bytes(sb));
        }

        // The root inode record reads back field by field.
        assert(s5[ioff] == ib[0] && s5[ioff + 3] == ib[3]);
        assert(ib[0] == 1 && ib[3] == 1);
        assert(inode_type_at(s5, 1, sbv) == InodeType::Dir);
        assert(s5.subrange(ioff + 8, ioff + 12) =~= crate::codec::u32_le_bytes(
            root_inode.data_addresses.0@[0],
        ));
        crate::codec::lemma_u32_le_round_trip(root_inode.data_addresses.0@[0]);

        // Inode slots 0 and 2 lie outside every written region and stay
        // zero, hence free.
        assert(inode_byte_off(0, sbv) == 5632 && inode_byte_off(2, sbv) == 5752);
        assert(s5[5632] == 0 && s5[5752] == 0);
        assert(inode_type_at(s5, 0, sbv) == InodeType::Free);
        assert(inode_type_at(s5, 2, sbv) == InodeType::Free);

        // The bitmap keeps exactly bit 0 set: its bytes lie before the
        // root data block and after the inode region.
        assert(bit_is_set(s5, sbv, 0)) by {
            assert(s5[sbv.bmapstart as int * 512] == s2[sbv.bmapstart as int * 512]);
        }
        assert forall|j: int| 1 <= j < scan_bits(sbv) implies !bit_is_set(s5, sbv, j) by {
            lemma_mod_division_less_than_divisor(j, 8);
            lemma_div_is_ordered(j, 962, 8);
            lemma_div_is_ordered(1, j, 8);
            lemma_div_is_ordered(0, j, 8);
            assert(s5[sbv.bmapstart as int * 512 + j / 8] == s2[sbv.bmapstart as int * 512 + j
                / 8]);
            assert(!bit_is_set(s1, sbv, j)) by {
                assert(s1[sbv.bmapstart as int * 512 + j / 8] == 0);
                lemma_zero_byte_bits((j % 8) as u8);
            }
        }

        // The two directory entries begin with the root inode number and
        // carry the NUL-padded names "." and "..".
        assert(s5[18944] == s4[18944]);
        assert(s4[18944] == spec_dirent_bytes(dot_entry)[0]);
        assert(s5[18960] == spec_dirent_bytes(dotdot_entry)[0]);
        reveal_strlit(".");
        reveal_strlit("..");
        assert(vstd::utf8::is_ascii_chars((".")@));
        assert(vstd::utf8::is_ascii_chars(("..")@));
        vstd::utf8::is_ascii_chars_encode_utf8((".")@);
        vstd::utf8::is_ascii_chars_encode_utf8(("..")@);
        assert forall|i: int| 0 <= i < 15 implies #[trigger] s5[dirent_byte_off(37, 0) + 1 + i]
            == (if i == 0 {
            '.' as u8
        } else {
            0u8
        }) by {
            assert(s5[18944 + 1 + i] == s4[18944 + 1 + i]);
            assert(s4[18944 + 1 + i] == spec_dirent_bytes(dot_entry)[1 + i]);
            assert(spec_dirent_bytes(dot_entry)[1 + i] == dot_entry.name@[i]);
        }
        assert forall|i: int| 0 <= i < 15 implies #[trigger] s5[dirent_byte_off(37, 1) + 1 + i]
            == (if i < 2 {
            '.' as u8
        } else {
            0u8
        }) by {
            assert(s5[18960 + 1 + i] == spec_dirent_bytes(dotdot_entry)[1 + i]);
            assert(spec_dirent_bytes(dotdot_entry)[1 + i] == dotdot_entry.name@[i]);
        }
    }
    Ok(img)
}

} // verus!
