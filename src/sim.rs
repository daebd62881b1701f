//! An in-memory NAND programmer that keeps every native contract, for
//! exercising sessions without hardware.
use vstd::prelude::*;
use vstd::slice::{slice_subrange, slice_to_vec};
use crate::device::{DSMCFunctions, DIGEST_LEN, NativeCall};
use crate::error::DSmcError;
use crate::geometry::BLOCK_SIZE;

verus! {

/// Status the simulated programmer returns for a transfer outside its chip
/// (`E_INVALIDARG`).
pub const SIM_INVALID_ARG: i32 = -2147024809;

/// Status the simulated programmer returns when it holds no digest (`E_FAIL`).
pub const SIM_FAIL: i32 = -2147467259;

/// Value of an erased NAND byte.
pub const ERASED: u8 = 0xff;

/// A simulated programmer over a chip of `data.len()` bytes.
pub struct SimNand {
    data: Vec<u8>,
    version: i32,
    digest: Vec<u8>,
    calls: Ghost<Seq<NativeCall>>,
    statuses: Ghost<Seq<i32>>,
}

impl SimNand {
    /// An erased chip of `total_sectors` sectors whose native library reports
    /// protocol `version` and bootloader digest `digest`.
    pub fn new(total_sectors: u64, version: i32, digest: &[u8]) -> (s: SimNand)
        requires
            total_sectors * BLOCK_SIZE <= usize::MAX,
        ensures
            s.contents().len() == total_sectors * BLOCK_SIZE,
            forall|i: int| 0 <= i < s.contents().len() ==> s.contents()[i] == ERASED,
            s.interface_version() == version,
            s.native_log() == Seq::<NativeCall>::empty(),
            s.native_statuses() == Seq::<i32>::empty(),
    {
        let n: usize = (total_sectors * BLOCK_SIZE) as usize;
        let mut data: Vec<u8> = Vec::new();
        let mut i: usize = 0;
        while i < n
            invariant
                i <= n,
                data@.len() == i,
                forall|k: int| 0 <= k < i ==> data@[k] == ERASED,
            decreases n - i,
        {
            data.push(ERASED);
            i = i + 1;
        }
        SimNand { data, version, digest: slice_to_vec(digest), calls: Ghost(Seq::empty()), statuses: Ghost(Seq::empty()) }
    }

    /// The chip's bytes.
    pub fn data(&self) -> (r: &Vec<u8>)
        ensures
            r@ == self.contents(),
    {
        &self.data
    }
}

impl DSMCFunctions for SimNand {
    closed spec fn contents(&self) -> Seq<u8> {
        self.data@
    }

    closed spec fn native_log(&self) -> Seq<NativeCall> {
        self.calls@
    }

    closed spec fn native_statuses(&self) -> Seq<i32> {
        self.statuses@
    }

    closed spec fn interface_version(&self) -> i32 {
        self.version
    }

    fn get_interface_version(&mut self) -> (r: Result<i32, DSmcError>) {
        self.calls = Ghost(self.calls@.push(NativeCall::GetInterfaceVersion));
        self.statuses = Ghost(self.statuses@.push(0));
        Ok(self.version)
    }

    fn release(&mut self) {
        self.calls = Ghost(self.calls@.push(NativeCall::Release));
        self.statuses = Ghost(self.statuses@.push(0));
    }

    fn initialize(&mut self, port_number: i32) -> (r: Result<(), DSmcError>) {
        self.calls = Ghost(self.calls@.push(NativeCall::Initialize(port_number)));
        self.statuses = Ghost(self.statuses@.push(0));
        Ok(())
    }

    fn begin_programming(&mut self) -> (r: Result<(), DSmcError>) {
        self.calls = Ghost(self.calls@.push(NativeCall::BeginProgramming));
        self.statuses = Ghost(self.statuses@.push(0));
        Ok(())
    }

    fn block_write(&mut self, start_sector: i32, buf: &[u8]) -> (r: Result<(), DSmcError>) {
        let len: usize = buf.len();
        if len as u64 % BLOCK_SIZE != 0 {
            return Err(DSmcError::AlignmentError);
        }
        self.calls = Ghost(self.calls@.push(NativeCall::BlockWrite(start_sector as int, buf@)));
        let at: u64 = start_sector as u64 * BLOCK_SIZE;
        if at > self.data.len() as u64 || len as u64 > self.data.len() as u64 - at {
            self.statuses = Ghost(self.statuses@.push(SIM_INVALID_ARG));
            return Err(DSmcError::GenericError(SIM_INVALID_ARG));
        }
        self.statuses = Ghost(self.statuses@.push(0));
        let at: usize = at as usize;
        let ghost c0 = self.data@;
        let mut k: usize = 0;
        while k < len
            invariant
                k <= len,
                len == buf@.len(),
                self.version == old(self).version,
                self.calls@ == old(self).calls@.push(NativeCall::BlockWrite(start_sector as int, buf@)),
                self.statuses@ == old(self).statuses@.push(0),
                c0.len() <= usize::MAX,
                at + len <= c0.len(),
                self.data@.len() == c0.len(),
                self.data@ == c0.subrange(0, at as int) + buf@.subrange(0, k as int) + c0.subrange(
                    at + k,
                    c0.len() as int,
                ),
            decreases len - k,
        {
            let b = buf[k];
            self.data.set(at + k, b);
            proof {
                assert(self.data@ =~= c0.subrange(0, at as int) + buf@.subrange(0, k + 1) + c0.subrange(
                    at + k + 1,
                    c0.len() as int,
                ));
            }
            k = k + 1;
        }
        proof {
            assert(buf@.subrange(0, len as int) =~= buf@);
        }
        Ok(())
    }

    fn block_read(&mut self, start_sector: i32, sector_count: i32) -> (r: Result<Vec<u8>, DSmcError>) {
        self.calls = Ghost(self.calls@.push(NativeCall::BlockRead(start_sector as int, sector_count as int)));
        let from: u64 = start_sector as u64 * BLOCK_SIZE;
        let to: u64 = (start_sector as u64 + sector_count as u64) * BLOCK_SIZE;
        if to > self.data.len() as u64 {
            self.statuses = Ghost(self.statuses@.push(SIM_INVALID_ARG));
            return Err(DSmcError::GenericError(SIM_INVALID_ARG));
        }
        self.statuses = Ghost(self.statuses@.push(0));
        Ok(slice_to_vec(slice_subrange(self.data.as_slice(), from as usize, to as usize)))
    }

    fn end_programming(&mut self) -> (r: Result<(), DSmcError>) {
        self.calls = Ghost(self.calls@.push(NativeCall::EndProgramming));
        self.statuses = Ghost(self.statuses@.push(0));
        Ok(())
    }

    fn power_button(&mut self) -> (r: Result<(), DSmcError>) {
        self.calls = Ghost(self.calls@.push(NativeCall::PowerButton));
        self.statuses = Ghost(self.statuses@.push(0));
        Ok(())
    }

    fn set_safe_transfer_mode(&mut self, safe: bool) -> (r: Result<(), DSmcError>) {
        self.calls = Ghost(self.calls@.push(NativeCall::SetSafeTransferMode(safe)));
        self.statuses = Ghost(self.statuses@.push(0));
        Ok(())
    }

    fn get_exp_digest_1smcbl(&mut self) -> (r: Result<Vec<u8>, DSmcError>) {
        self.calls = Ghost(self.calls@.push(NativeCall::GetExpDigest1SMCBL));
        if self.digest.len() != DIGEST_LEN {
            self.statuses = Ghost(self.statuses@.push(SIM_FAIL));
            return Err(DSmcError::GenericError(SIM_FAIL));
        }
        self.statuses = Ghost(self.statuses@.push(0));
        Ok(slice_to_vec(self.digest.as_slice()))
    }

    fn set_exit_event(&mut self) -> (r: Result<(), DSmcError>) {
        self.calls = Ghost(self.calls@.push(NativeCall::SetExitEvent));
        self.statuses = Ghost(self.statuses@.push(0));
        Ok(())
    }
}

} // verus!
