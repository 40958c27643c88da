use vstd::prelude::*;
use crate::file_system::block::{
    le_u16, le_u32, lemma_u16_le_roundtrip, lemma_u32_le_roundtrip, read_u16, read_u32, splice,
    u16_le, u32_le, write_u16, write_u32, zero_block, BLOCK_SIZE,
};

verus! {

/// The `file_type` of a regular file.
pub const FILE_TYPE_FILE: u16 = 1;

/// The `file_type` of a directory.
pub const FILE_TYPE_DIR: u16 = 2;

/// Number of bytes an inode occupies at the start of its block.
pub const INODE_BYTES: usize = 12;

/// Metadata of one file: its size in bytes, the block that holds its data,
/// and its type (1 = file, 2 = directory).
#[derive(Clone, Copy)]
pub struct Inode {
    pub size: u32,
    pub block: u32,
    pub file_type: u16,
}

impl Default for Inode {
    fn default() -> (inode: Self)
        ensures
            inode == (Inode { size: 0, block: 0, file_type: 0 }),
    {
        Inode { size: 0, block: 0, file_type: 0 }
    }
}

/// On-disk layout of an inode: `size` and `block` as little-endian `u32`,
/// `file_type` as little-endian `u16`, then two bytes of padding.
pub open spec fn inode_bytes(inode: Inode) -> Seq<u8> {
    u32_le(inode.size) + u32_le(inode.block) + u16_le(inode.file_type) + seq![0u8, 0u8]
}

/// The inode stored at the start of the bytes `b`.
pub open spec fn inode_from_bytes(b: Seq<u8>) -> Inode {
    Inode {
        size: le_u32(b.subrange(0, 4)),
        block: le_u32(b.subrange(4, 8)),
        file_type: le_u16(b.subrange(8, 10)),
    }
}

/// The block written for an inode: its layout followed by zero bytes.
pub open spec fn inode_block(inode: Inode) -> Seq<u8> {
    splice(zero_block(), 0, inode_bytes(inode))
}

/// Reading back the block written for an inode gives that inode.
pub proof fn lemma_inode_block_roundtrip(inode: Inode)
    ensures
        inode_block(inode).len() == BLOCK_SIZE,
        inode_from_bytes(inode_block(inode)) == inode,
{
    lemma_u32_le_roundtrip(inode.size);
    lemma_u32_le_roundtrip(inode.block);
    lemma_u16_le_roundtrip(inode.file_type);
    let b = inode_block(inode);
    let bs = inode_bytes(inode);
    assert(bs.len() == INODE_BYTES);
    assert(b.subrange(0, 4) =~= u32_le(inode.size));
    assert(b.subrange(4, 8) =~= u32_le(inode.block));
    assert(b.subrange(8, 10) =~= u16_le(inode.file_type));
}

impl Inode {
    /// Decodes the inode held at the start of `buf`.
    pub fn from_block(buf: &[u8; BLOCK_SIZE]) -> (inode: Inode)
        ensures
            inode == inode_from_bytes(buf@),
    {
        let size = read_u32(buf, 0);
        let block = read_u32(buf, 4);
        let file_type = read_u16(buf, 8);
        Inode { size, block, file_type }
    }

    /// The block that stores this inode: its layout followed by zero bytes.
    pub fn to_block(&self) -> (buf: [u8; BLOCK_SIZE])
        ensures
            buf@ == inode_block(*self),
    {
        let mut buf: [u8; BLOCK_SIZE] = [0u8; BLOCK_SIZE];
        assert(buf@ == zero_block());
        write_u32(&mut buf, 0, self.size);
        write_u32(&mut buf, 4, self.block);
        write_u16(&mut buf, 8, self.file_type);
        assert(buf@ =~= inode_block(*self));
        buf
    }
}

} // verus!
