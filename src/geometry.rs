//! The sector address space: block size, capacity, per-call chunk size, and
//! how byte requests map onto sector ranges.
use vstd::prelude::*;
use crate::error::DSmcError;

verus! {

/// Size of one NAND sector in bytes.
pub const SMC_NAND_BLOCK_SZ: i32 = 0x200;

/// Block size as an unsigned quantity, for address arithmetic.
pub const BLOCK_SIZE: u64 = 0x200;

/// Capacity of the NAND chip in bytes (5056 MiB).
pub const NAND_SIZE: u64 = 5056 * 1024 * 1024;

/// Number of sectors of the NAND chip.
pub const NAND_SECTORS: u64 = NAND_SIZE / BLOCK_SIZE;

/// Largest number of sectors moved by one native call.
pub const NUM_SECTORS_PER_OP: u64 = 8;

/// Largest sector count the native interface can address (its indices are `i32`).
pub const MAX_TOTAL_SECTORS: u64 = 0x7fff_ffff;

/// Number of sectors needed to hold `len` bytes.
pub open spec fn sectors_for(len: int) -> int {
    (len + BLOCK_SIZE - 1) / (BLOCK_SIZE as int)
}

/// Number of native calls needed to move `sectors` sectors, `per_op` at a time.
pub open spec fn chunk_count(sectors: int, per_op: int) -> nat
    decreases sectors,
{
    if sectors <= 0 || per_op <= 0 {
        0
    } else if sectors <= per_op {
        1
    } else {
        1 + chunk_count(sectors - per_op, per_op)
    }
}

/// Layout of a device: how many sectors it has, and how many sectors one
/// native call moves.
#[derive(Debug, Clone, Copy, PartialEq, Eq, Structural)]
pub struct Geometry {
    pub total_sectors: u64,
    pub sectors_per_op: u64,
}

/// A run of consecutive sectors.
#[derive(Debug, Clone, Copy, PartialEq, Eq, Structural)]
pub struct SectorRange {
    pub start_sector: u64,
    pub sector_count: u64,
}

impl Geometry {
    /// Chunks hold between one and eight sectors, and every sector index fits
    /// the native interface.
    pub open spec fn wf(&self) -> bool {
        &&& 1 <= self.sectors_per_op <= NUM_SECTORS_PER_OP
        &&& self.total_sectors <= MAX_TOTAL_SECTORS
    }

    /// Whether `count` sectors from `start` lie inside the address space.
    pub open spec fn in_bounds(&self, start: int, count: int) -> bool {
        start < self.total_sectors && start + count <= self.total_sectors
    }

    /// Sectors that a read of `length` bytes (the rest of the chip when
    /// absent) starting at byte `offset` covers.
    pub open spec fn read_sectors(&self, offset: u64, length: Option<u64>) -> int {
        match length {
            Some(len) => sectors_for(len as int),
            None => self.total_sectors - (offset / BLOCK_SIZE) as int,
        }
    }

    /// The chip that the programmer is built for.
    pub fn nand() -> (g: Geometry)
        ensures
            g.wf(),
            g.total_sectors == NAND_SECTORS,
            g.sectors_per_op == NUM_SECTORS_PER_OP,
    {
        Geometry { total_sectors: NAND_SECTORS, sectors_per_op: NUM_SECTORS_PER_OP }
    }

    /// A geometry with the given capacity and chunk size.
    pub fn new(total_sectors: u64, sectors_per_op: u64) -> (g: Geometry)
        requires
            1 <= sectors_per_op <= NUM_SECTORS_PER_OP,
            total_sectors <= MAX_TOTAL_SECTORS,
        ensures
            g.wf(),
            g.total_sectors == total_sectors,
            g.sectors_per_op == sectors_per_op,
    {
        Geometry { total_sectors, sectors_per_op }
    }

    /// Checks that `sector_count` sectors from `start_sector` lie inside the
    /// address space.
    pub fn check_bounds(&self, start_sector: u64, sector_count: u64) -> (r: Result<SectorRange, DSmcError>)
        ensures
            r is Ok <==> self.in_bounds(start_sector as int, sector_count as int),
            r is Ok ==> r->Ok_0 == (SectorRange { start_sector, sector_count }),
            r is Err ==> r->Err_0 == DSmcError::OutOfRange,
    {
        if start_sector >= self.total_sectors || sector_count > self.total_sectors - start_sector {
            Err(DSmcError::OutOfRange)
        } else {
            Ok(SectorRange { start_sector, sector_count })
        }
    }

    /// The sector range that a read of `length` bytes at byte `offset` covers;
    /// without a length, the read runs to the end of the chip.
    pub fn read_range(&self, offset: u64, length: Option<u64>) -> (r: Result<SectorRange, DSmcError>)
        ensures
            r is Ok <==> self.in_bounds((offset / BLOCK_SIZE) as int, self.read_sectors(offset, length)),
            r is Err ==> r->Err_0 == DSmcError::OutOfRange,
            r is Ok ==> ({
                let rg = r->Ok_0;
                &&& rg.start_sector == offset / BLOCK_SIZE
                &&& rg.sector_count == self.read_sectors(offset, length)
                &&& rg.start_sector * BLOCK_SIZE <= offset < (rg.start_sector + 1) * BLOCK_SIZE
            }),
    {
        let start_sector = offset / BLOCK_SIZE;
        if start_sector >= self.total_sectors {
            return Err(DSmcError::OutOfRange);
        }
        let sector_count: u64 = match length {
            Some(len) => sector_count_for(len),
            None => self.total_sectors - start_sector,
        };
        let r = self.check_bounds(start_sector, sector_count);
        proof {
            lemma_sector_of(offset as int);
        }
        r
    }

    /// The sector range that a write of `len` bytes at byte `offset` covers.
    pub fn write_range(&self, offset: u64, len: usize) -> (r: Result<SectorRange, DSmcError>)
        ensures
            r is Ok <==> self.in_bounds((offset / BLOCK_SIZE) as int, sectors_for(len as int)),
            r is Err ==> r->Err_0 == DSmcError::OutOfRange,
            r is Ok ==> ({
                let rg = r->Ok_0;
                &&& rg.start_sector == offset / BLOCK_SIZE
                &&& rg.sector_count == sectors_for(len as int)
                &&& rg.start_sector * BLOCK_SIZE <= offset < (rg.start_sector + 1) * BLOCK_SIZE
            }),
    {
        let r = self.check_bounds(offset / BLOCK_SIZE, sector_count_for(len as u64));
        proof {
            lemma_sector_of(offset as int);
        }
        r
    }
}

/// Number of sectors needed to hold `len` bytes.
pub fn sector_count_for(len: u64) -> (n: u64)
    ensures
        n == sectors_for(len as int),
{
    len / BLOCK_SIZE + if len % BLOCK_SIZE == 0 { 0 } else { 1 }
}

/// The sector holding byte `offset` starts at or before it and ends after it.
pub proof fn lemma_sector_of(offset: int)
    requires
        0 <= offset,
    ensures
        (offset / 512) * 512 <= offset < (offset / 512 + 1) * 512,
{
    let q = offset / 512;
    let r = offset % 512;
    assert(offset == q * 512 + r && 0 <= r < 512);
}

} // verus!
