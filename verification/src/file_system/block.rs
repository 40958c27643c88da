use vstd::prelude::*;

verus! {

/// Number of bytes in one disk block.
pub const BLOCK_SIZE: usize = 512;

/// Number of blocks on the disk.
pub const NUM_BLOCKS: usize = 1024;

/// The content of a freshly created block: every byte is zero.
pub open spec fn zero_block() -> Seq<u8> {
    Seq::new(BLOCK_SIZE as nat, |i: int| 0u8)
}

/// The `u32` whose little-endian bytes are the first four bytes of `b`.
pub open spec fn le_u32(b: Seq<u8>) -> u32 {
    (b[0] as int + b[1] as int * 0x100 + b[2] as int * 0x1_0000 + b[3] as int * 0x100_0000) as u32
}

/// The little-endian bytes of `x`.
pub open spec fn u32_le(x: u32) -> Seq<u8> {
    seq![
        (x % 0x100) as u8,
        ((x / 0x100) % 0x100) as u8,
        ((x / 0x1_0000) % 0x100) as u8,
        (x / 0x100_0000) as u8,
    ]
}

/// The `u16` whose little-endian bytes are the first two bytes of `b`.
pub open spec fn le_u16(b: Seq<u8>) -> u16 {
    (b[0] as int + b[1] as int * 0x100) as u16
}

/// The little-endian bytes of `x`.
pub open spec fn u16_le(x: u16) -> Seq<u8> {
    seq![(x % 0x100) as u8, (x / 0x100) as u8]
}

/// Decoding the little-endian bytes of a `u32` gives it back.
pub proof fn lemma_u32_le_roundtrip(x: u32)
    ensures
        u32_le(x).len() == 4,
        le_u32(u32_le(x)) == x,
{
    let b = u32_le(x);
    assert(b[0] as int + b[1] as int * 0x100 + b[2] as int * 0x1_0000 + b[3] as int * 0x100_0000 == x)
        by (nonlinear_arith)
        requires
            b[0] == x % 0x100,
            b[1] == (x / 0x100) % 0x100,
            b[2] == (x / 0x1_0000) % 0x100,
            b[3] == x / 0x100_0000,
            x < 0x1_0000_0000,
    ;
}

/// Decoding the little-endian bytes of a `u16` gives it back.
pub proof fn lemma_u16_le_roundtrip(x: u16)
    ensures
        u16_le(x).len() == 2,
        le_u16(u16_le(x)) == x,
{
}

/// Decodes the little-endian `u32` held in `buf` from position `at` on.
pub fn read_u32(buf: &[u8; BLOCK_SIZE], at: usize) -> (x: u32)
    requires
        at + 4 <= BLOCK_SIZE,
    ensures
        x == le_u32(buf@.subrange(at as int, at + 4)),
{
    buf[at] as u32 + buf[at + 1] as u32 * 0x100 + buf[at + 2] as u32 * 0x1_0000
        + buf[at + 3] as u32 * 0x100_0000
}

/// Decodes the little-endian `u16` held in `buf` from position `at` on.
pub fn read_u16(buf: &[u8; BLOCK_SIZE], at: usize) -> (x: u16)
    requires
        at + 2 <= BLOCK_SIZE,
    ensures
        x == le_u16(buf@.subrange(at as int, at + 2)),
{
    buf[at] as u16 + buf[at + 1] as u16 * 0x100
}

/// Writes the little-endian bytes of `x` into `buf` from position `at` on.
pub fn write_u32(buf: &mut [u8; BLOCK_SIZE], at: usize, x: u32)
    requires
        at + 4 <= BLOCK_SIZE,
    ensures
        final(buf)@ == splice(old(buf)@, at as int, u32_le(x)),
{
    buf[at] = (x % 0x100) as u8;
    buf[at + 1] = ((x / 0x100) % 0x100) as u8;
    buf[at + 2] = ((x / 0x1_0000) % 0x100) as u8;
    buf[at + 3] = (x / 0x100_0000) as u8;
    assert(buf@ =~= splice(old(buf)@, at as int, u32_le(x)));
}

/// Writes the little-endian bytes of `x` into `buf` from position `at` on.
pub fn write_u16(buf: &mut [u8; BLOCK_SIZE], at: usize, x: u16)
    requires
        at + 2 <= BLOCK_SIZE,
    ensures
        final(buf)@ == splice(old(buf)@, at as int, u16_le(x)),
{
    buf[at] = (x % 0x100) as u8;
    buf[at + 1] = (x / 0x100) as u8;
    assert(buf@ =~= splice(old(buf)@, at as int, u16_le(x)));
}

/// `s` with the bytes from position `at` on replaced by `bytes`.
pub open spec fn splice(s: Seq<u8>, at: int, bytes: Seq<u8>) -> Seq<u8> {
    s.take(at) + bytes + s.skip(at + bytes.len())
}

/// Copies `bytes` into `buf` from position `at` on; the other bytes of `buf` stay.
pub fn copy_into(buf: &mut [u8; BLOCK_SIZE], at: usize, bytes: &[u8])
    requires
        at + bytes@.len() <= BLOCK_SIZE,
    ensures
        final(buf)@ == splice(old(buf)@, at as int, bytes@),
{
    let n = bytes.len();
    let mut k: usize = 0;
    while k < n
        invariant
            n == bytes@.len(),
            at + n <= BLOCK_SIZE,
            k <= n,
            buf@.len() == BLOCK_SIZE,
            forall|j: int| 0 <= j < at ==> buf@[j] == old(buf)@[j],
            forall|j: int| 0 <= j < k ==> buf@[at + j] == bytes@[j],
            forall|j: int| at + k <= j < BLOCK_SIZE ==> buf@[j] == old(buf)@[j],
        decreases n - k,
    {
        buf[at + k] = bytes[k];
        k = k + 1;
    }
    assert(buf@ =~= splice(old(buf)@, at as int, bytes@));
}

/// An in-memory disk of `NUM_BLOCKS` blocks of `BLOCK_SIZE` bytes each.
///
/// The blocks live on the heap; the disk is viewed as a sequence of
/// `NUM_BLOCKS` byte sequences.
pub struct Disk {
    data: Vec<[u8; BLOCK_SIZE]>,
}

impl View for Disk {
    type V = Seq<Seq<u8>>;

    closed spec fn view(&self) -> Seq<Seq<u8>> {
        Seq::new(NUM_BLOCKS as nat, |i: int| self.data@[i]@)
    }
}

/// A disk is viewed as exactly `NUM_BLOCKS` blocks of `BLOCK_SIZE` bytes.
pub broadcast proof fn lemma_disk_shape(d: Disk)
    ensures
        #[trigger] d@.len() == NUM_BLOCKS,
        forall|i: int| 0 <= i < NUM_BLOCKS ==> (#[trigger] d@[i]).len() == BLOCK_SIZE,
{
}

impl Disk {
    /// The disk holds exactly `NUM_BLOCKS` blocks.
    pub closed spec fn wf(&self) -> bool {
        self.data@.len() == NUM_BLOCKS
    }

    /// A disk whose blocks all hold zero bytes.
    pub fn new() -> (disk: Self)
        ensures
            disk.wf(),
            disk@.len() == NUM_BLOCKS,
            forall|i: int| 0 <= i < NUM_BLOCKS ==> #[trigger] disk@[i] == zero_block(),
    {
        let mut data: Vec<[u8; BLOCK_SIZE]> = Vec::new();
        let mut k: usize = 0;
        while k < NUM_BLOCKS
            invariant
                k <= NUM_BLOCKS,
                data@.len() == k,
                forall|i: int| 0 <= i < k ==> #[trigger] data@[i]@ == zero_block(),
            decreases NUM_BLOCKS - k,
        {
            let block: [u8; BLOCK_SIZE] = [0u8; BLOCK_SIZE];
            assert(block@ == zero_block());
            data.push(block);
            k = k + 1;
        }
        Disk { data }
    }

    /// The content of block `block_num`.
    pub fn read_block(&self, block_num: usize) -> (buf: [u8; BLOCK_SIZE])
        requires
            self.wf(),
            block_num < NUM_BLOCKS,
        ensures
            buf@ == self@[block_num as int],
    {
        self.data[block_num]
    }

    /// Replaces the content of block `block_num` by `buf`; every other block keeps its content.
    pub fn write_block(&mut self, block_num: usize, buf: [u8; BLOCK_SIZE])
        requires
            old(self).wf(),
            block_num < NUM_BLOCKS,
        ensures
            final(self).wf(),
            final(self)@ == old(self)@.update(block_num as int, buf@),
    {
        self.data.set(block_num, buf);
        assert(self@ =~= old(self)@.update(block_num as int, buf@));
    }
}

} // verus!
