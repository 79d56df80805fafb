//! Configuration constants and the fixed on-disk records: superblock, inode
//! and directory entry. The byte encodings live in `codec`.

use vstd::prelude::*;
use vstd::string::StringSliceAdditionalSpecFns;

verus! {

/// Size of one block (and of one disk sector) in bytes.
pub const BSIZE: u32 = 512;
/// Number of directly referenced data blocks in each inode.
pub const NDIRECT: u32 = 12;
/// Total number of blocks in the file system image.
pub const FSSIZE: u32 = 1000;
/// Number of blocks reserved for the (unused) log region.
pub const LOGSIZE: u32 = 10;
/// Inode number of the root directory.
pub const ROOT_INO: u32 = 1;
/// Number of inodes in the image.
pub const NINODES: u32 = 200;
/// Size of one encoded inode in bytes.
pub const INODE_SIZE: u32 = 60;
/// Inodes per block.
pub const IPB: u32 = BSIZE / INODE_SIZE;
/// Number of blocks holding inodes.
pub const NINODEBLOCKS: u32 = NINODES / IPB;
/// Number of blocks holding the free-block bitmap, one bit per block;
/// a block holds 4096 bits.
pub const NBITMAP: u32 = FSSIZE / 4096 + 1;
/// Number of metadata blocks: superblock, log, inodes, bitmap.
pub const NMETA: u32 = 1 + LOGSIZE + NINODEBLOCKS + NBITMAP;
/// Number of data blocks.
pub const NBLOCKS: u32 = FSSIZE - NMETA;

/// File system metadata record describing the region layout of the image.
#[derive(Clone, Copy, Debug, PartialEq, Eq, Structural)]
pub struct Superblock {
    /// Size of the image in blocks.
    pub size: u32,
    /// Number of data blocks.
    pub nblocks: u32,
    /// Number of inodes.
    pub ninodes: u32,
    /// Number of log blocks.
    pub nlog: u32,
    /// Block number of the first log block.
    pub logstart: u32,
    /// Block number of the first inode block.
    pub inodestart: u32,
    /// Block number of the first bitmap block.
    pub bmapstart: u32,
    /// Block number of the first data block.
    pub datastart: u32,
}

impl Superblock {
    /// The four region starts are strictly increasing and the regions are
    /// wide enough for what they hold (eight 60-byte inodes fit one
    /// 512-byte block), so no two regions overlap.
    pub open spec fn wf(self) -> bool {
        &&& 0 < self.logstart
        &&& self.logstart + self.nlog <= self.inodestart
        &&& self.inodestart + (self.ninodes + 7) / 8 <= self.bmapstart
        &&& self.bmapstart < self.datastart
        &&& self.datastart < self.size
    }

    /// Derives the region offsets arithmetically from the fixed constants,
    /// so the kernel and the image builder agree without reading the disk.
    pub fn new() -> (sb: Superblock)
        ensures
            sb == spec_new_superblock(),
            sb.size == FSSIZE,
            sb.nblocks == NBLOCKS,
            sb.ninodes == NINODES,
            sb.nlog == LOGSIZE,
            sb.logstart == 1,
            sb.inodestart == 1 + LOGSIZE,
            sb.bmapstart == 1 + LOGSIZE + NINODEBLOCKS,
            sb.datastart == NMETA,
            sb.wf(),
    {
        let logstart: u32 = 1;
        let inodestart: u32 = logstart + LOGSIZE;
        let bmapstart: u32 = inodestart + NINODEBLOCKS;
        let bitmap_blocks: u32 = NBLOCKS / 4096 + if NBLOCKS % 4096 != 0 {
            1u32
        } else {
            0u32
        };
        let datastart: u32 = bmapstart + bitmap_blocks;
        Superblock {
            size: FSSIZE,
            nblocks: NBLOCKS,
            ninodes: NINODES,
            nlog: LOGSIZE,
            logstart,
            inodestart,
            bmapstart,
            datastart,
        }
    }
}

/// The superblock of this system's fixed configuration.
pub open spec fn spec_new_superblock() -> Superblock {
    Superblock {
        size: FSSIZE,
        nblocks: NBLOCKS,
        ninodes: NINODES,
        nlog: LOGSIZE,
        logstart: 1,
        inodestart: (1 + LOGSIZE) as u32,
        bmapstart: (1 + LOGSIZE + NINODEBLOCKS) as u32,
        datastart: NMETA,
    }
}

/// The layout computed from any configuration counts is monotone and
/// non-overlapping: `logstart < inodestart < bmapstart < datastart < size`
/// whenever each region is at least one block wide and the metadata fits
/// in front of the data region.
pub proof fn lemma_layout_non_overlap(sb: Superblock)
    requires
        sb.wf(),
        sb.nlog >= 1,
        sb.ninodes >= 1,
    ensures
        sb.logstart < sb.inodestart,
        sb.inodestart < sb.bmapstart,
        sb.bmapstart < sb.datastart,
        sb.datastart < sb.size,
{
}

/// Kind of object an inode describes.
#[derive(Clone, Copy, Debug, PartialEq, Eq, Structural)]
pub enum InodeType {
    /// The inode is unused.
    Free,
    /// A directory.
    Dir,
    /// A regular file.
    File,
    /// A device node.
    Device,
}

/// The fixed array of direct data-block addresses of one inode.
/// Address 0 denotes "unallocated".
#[derive(Clone, Copy, Debug, PartialEq)]
pub struct DataAddresses(pub [u32; 13]);

/// Fixed record describing one file, directory or device.
#[derive(Clone, Copy, Debug, PartialEq)]
pub struct Inode {
    /// What the inode describes.
    pub inode_type: InodeType,
    /// Major device number; meaningful only for `Device`.
    pub major_dev: u8,
    /// Minor device number; meaningful only for `Device`.
    pub minor_dev: u8,
    /// Number of links to this inode.
    pub num_links: u8,
    /// Size of the content in bytes.
    pub size: u32,
    /// Direct data-block addresses.
    pub data_addresses: DataAddresses,
}

impl Inode {
    /// A fresh inode of the given type: no device numbers, one link,
    /// empty content, no data blocks.
    pub fn new(inode_type: InodeType) -> (inode: Inode)
        ensures
            inode.inode_type == inode_type,
            inode.major_dev == 0,
            inode.minor_dev == 0,
            inode.num_links == 1,
            inode.size == 0,
            forall|i: int| 0 <= i < 13 ==> inode.data_addresses.0@[i] == 0,
    {
        Inode {
            inode_type,
            major_dev: 0,
            minor_dev: 0,
            num_links: 1,
            size: 0,
            data_addresses: DataAddresses([0; 13]),
        }
    }
}

/// Directory entry: a fixed-width NUL-padded name mapped to an inode number.
#[derive(Clone, Copy, Debug, PartialEq)]
pub struct Dirent {
    /// Inode number the entry points at.
    pub inum: u8,
    /// Name, at most 15 bytes, padded with NUL bytes.
    pub name: [u8; 15],
}

impl Dirent {
    /// Builds an entry from a name, keeping at most its first 15 bytes and
    /// padding the rest with NUL bytes.
    pub fn new(inum: u8, str_name: &str) -> (d: Dirent)
        ensures
            d.inum == inum,
            forall|i: int|
                0 <= i < 15 ==> d.name@[i] == (if i < str_name.spec_bytes().len() {
                    str_name.spec_bytes()[i]
                } else {
                    0u8
                }),
    {
        let mut name: [u8; 15] = [0; 15];
        let bytes = str_name.as_bytes();
        let mut i: usize = 0;
        while i < 15 && i < bytes.len()
            invariant
                0 <= i <= 15,
                bytes@ == str_name.spec_bytes(),
                forall|j: int|
                    0 <= j < 15 ==> name@[j] == (if j < i && j < bytes@.len() {
                        bytes@[j]
                    } else {
                        0u8
                    }),
            decreases 15 - i,
        {
            name[i] = bytes[i];
            i += 1;
        }
        Dirent { inum, name }
    }
}

} // verus!
