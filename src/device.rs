//! The operation table of the vendor programming interface, as a capability
//! that the session drives. Each method stands for one native entry.
use vstd::prelude::*;
use crate::error::{DSmcError, is_native_failure, status_result};
use crate::geometry::{BLOCK_SIZE, NUM_SECTORS_PER_OP};

verus! {

/// Length in bytes of the expected bootloader digest.
pub const DIGEST_LEN: usize = 16;

/// The bytes `data` written over `c` from byte `at` on.
pub open spec fn overwrite(c: Seq<u8>, at: int, data: Seq<u8>) -> Seq<u8> {
    c.subrange(0, at) + data + c.subrange(at + data.len(), c.len() as int)
}

/// The bytes of `count` sectors of `c` starting at sector `start`.
pub open spec fn sector_bytes(c: Seq<u8>, start: int, count: int) -> Seq<u8> {
    c.subrange(start * BLOCK_SIZE, (start + count) * BLOCK_SIZE)
}

/// `after` is `before` with one more status appended.
pub open spec fn one_status(before: Seq<i32>, after: Seq<i32>) -> bool {
    &&& after.len() == before.len() + 1
    &&& after == before.push(after.last())
}

/// Every status from index `from` on is zero: those calls succeeded.
pub open spec fn all_zero(s: Seq<i32>, from: int) -> bool {
    forall|i: int| from <= i < s.len() ==> s[i] == 0
}

/// Statuses that start with `s0` and are zero after it stay so with one more
/// status `x` exactly when `x` is zero.
pub proof fn lemma_status_push(s0: Seq<i32>, st: Seq<i32>, x: i32)
    requires
        s0.len() <= st.len(),
        st.subrange(0, s0.len() as int) == s0,
        all_zero(st, s0.len() as int),
    ensures
        st.push(x).subrange(0, s0.len() as int) == s0,
        st.push(x).drop_last() == st,
        st.push(x).last() == x,
        all_zero(st.push(x), s0.len() as int) <==> x == 0,
{
    assert(st.push(x).subrange(0, s0.len() as int) =~= st.subrange(0, s0.len() as int));
    assert(st.push(x).drop_last() =~= st);
    if x != 0 {
        assert(st.push(x)[st.len() as int] == x);
    }
}

/// One invocation of a native entry, with the arguments it was given.
pub enum NativeCall {
    GetInterfaceVersion,
    Release,
    Initialize(i32),
    BeginProgramming,
    /// Start sector and the bytes written.
    BlockWrite(int, Seq<u8>),
    /// Start sector and sector count.
    BlockRead(int, int),
    EndProgramming,
    PowerButton,
    SetSafeTransferMode(bool),
    GetExpDigest1SMCBL,
    SetExitEvent,
}

/// One open connection to a NAND programmer.
///
/// `contents` is the chip seen as bytes from sector zero, `native_log` the
/// native entries invoked so far, in order, `native_statuses` the status each
/// of them returned (zero for the entries that return none), and
/// `interface_version` the protocol version the native library implements.
pub trait DSMCFunctions: Sized {
    // An implementation that gives no model of its own leaves these
    // unspecified; code generic over the trait never sees the defaults.
    closed spec fn contents(&self) -> Seq<u8> {
        arbitrary()
    }

    closed spec fn native_log(&self) -> Seq<NativeCall> {
        arbitrary()
    }

    closed spec fn native_statuses(&self) -> Seq<i32> {
        arbitrary()
    }

    closed spec fn interface_version(&self) -> i32 {
        arbitrary()
    }

    /// Protocol version of the native library; this call has no status.
    fn get_interface_version(&mut self) -> (r: Result<i32, DSmcError>)
        ensures
            final(self).native_statuses() == old(self).native_statuses().push(0),
            r == Ok::<i32, DSmcError>(old(self).interface_version()),
            final(self).contents() == old(self).contents(),
            final(self).interface_version() == old(self).interface_version(),
            final(self).native_log() == old(self).native_log().push(NativeCall::GetInterfaceVersion),
    ;

    /// Releases the native side of the connection.
    fn release(&mut self)
        ensures
            final(self).native_statuses() == old(self).native_statuses().push(0),
            final(self).contents() == old(self).contents(),
            final(self).interface_version() == old(self).interface_version(),
            final(self).native_log() == old(self).native_log().push(NativeCall::Release),
    ;

    /// Binds to the programmer on the given port.
    fn initialize(&mut self, port_number: i32) -> (r: Result<(), DSmcError>)
        ensures
            final(self).contents() == old(self).contents(),
            final(self).interface_version() == old(self).interface_version(),
            final(self).native_log() == old(self).native_log().push(NativeCall::Initialize(port_number)),
            one_status(old(self).native_statuses(), final(self).native_statuses()),
            r == status_result(final(self).native_statuses().last()),
            r is Err ==> is_native_failure(r->Err_0),
    ;

    /// Opens a programming session.
    fn begin_programming(&mut self) -> (r: Result<(), DSmcError>)
        ensures
            final(self).contents() == old(self).contents(),
            final(self).interface_version() == old(self).interface_version(),
            final(self).native_log() == old(self).native_log().push(NativeCall::BeginProgramming),
            one_status(old(self).native_statuses(), final(self).native_statuses()),
            r == status_result(final(self).native_statuses().last()),
            r is Err ==> is_native_failure(r->Err_0),
    ;

    /// Writes the sectors of `buf` from sector `start_sector` on; a buffer that
    /// is not a whole number of sectors is refused without a native call.
    fn block_write(&mut self, start_sector: i32, buf: &[u8]) -> (r: Result<(), DSmcError>)
        requires
            0 <= start_sector,
            0 < buf@.len() <= NUM_SECTORS_PER_OP * BLOCK_SIZE,
        ensures
            buf@.len() % (BLOCK_SIZE as nat) != 0 ==> r == Err::<(), DSmcError>(DSmcError::AlignmentError)
                && *final(self) == *old(self),
            buf@.len() % (BLOCK_SIZE as nat) == 0 ==> final(self).native_log() == old(self).native_log().push(
                NativeCall::BlockWrite(start_sector as int, buf@),
            ),
            final(self).contents().len() == old(self).contents().len(),
            final(self).interface_version() == old(self).interface_version(),
            r is Ok ==> start_sector * BLOCK_SIZE + buf@.len() <= old(self).contents().len(),
            r is Ok ==> final(self).contents() == overwrite(
                old(self).contents(),
                start_sector * BLOCK_SIZE,
                buf@,
            ),
            buf@.len() % (BLOCK_SIZE as nat) == 0 ==> one_status(
                old(self).native_statuses(),
                final(self).native_statuses(),
            ) && r == status_result(final(self).native_statuses().last()),
            r is Err && buf@.len() % (BLOCK_SIZE as nat) == 0 ==> is_native_failure(r->Err_0),
    ;

    /// Reads `sector_count` sectors from sector `start_sector` on.
    fn block_read(&mut self, start_sector: i32, sector_count: i32) -> (r: Result<Vec<u8>, DSmcError>)
        requires
            0 <= start_sector,
            0 < sector_count <= NUM_SECTORS_PER_OP,
        ensures
            final(self).contents() == old(self).contents(),
            final(self).interface_version() == old(self).interface_version(),
            final(self).native_log() == old(self).native_log().push(NativeCall::BlockRead(start_sector as int, sector_count as int)),
            r is Ok ==> (start_sector + sector_count) * BLOCK_SIZE <= old(self).contents().len(),
            r is Ok ==> r->Ok_0@ == sector_bytes(old(self).contents(), start_sector as int, sector_count as int),
            one_status(old(self).native_statuses(), final(self).native_statuses()),
            r is Ok <==> final(self).native_statuses().last() == 0,
            r is Err ==> r->Err_0 == DSmcError::GenericError(final(self).native_statuses().last()),
            r is Err ==> is_native_failure(r->Err_0),
    ;

    /// Closes the programming session.
    fn end_programming(&mut self) -> (r: Result<(), DSmcError>)
        ensures
            final(self).contents() == old(self).contents(),
            final(self).interface_version() == old(self).interface_version(),
            final(self).native_log() == old(self).native_log().push(NativeCall::EndProgramming),
            one_status(old(self).native_statuses(), final(self).native_statuses()),
            r == status_result(final(self).native_statuses().last()),
            r is Err ==> is_native_failure(r->Err_0),
    ;

    /// Simulates a press of the device's power button.
    fn power_button(&mut self) -> (r: Result<(), DSmcError>)
        ensures
            final(self).contents() == old(self).contents(),
            final(self).interface_version() == old(self).interface_version(),
            final(self).native_log() == old(self).native_log().push(NativeCall::PowerButton),
            one_status(old(self).native_statuses(), final(self).native_statuses()),
            r == status_result(final(self).native_statuses().last()),
            r is Err ==> is_native_failure(r->Err_0),
    ;

    /// Turns verification of each transfer inside the native layer on or off.
    fn set_safe_transfer_mode(&mut self, safe: bool) -> (r: Result<(), DSmcError>)
        ensures
            final(self).contents() == old(self).contents(),
            final(self).interface_version() == old(self).interface_version(),
            final(self).native_log() == old(self).native_log().push(NativeCall::SetSafeTransferMode(safe)),
            one_status(old(self).native_statuses(), final(self).native_statuses()),
            r == status_result(final(self).native_statuses().last()),
            r is Err ==> is_native_failure(r->Err_0),
    ;

    /// The expected digest of the first-stage bootloader.
    fn get_exp_digest_1smcbl(&mut self) -> (r: Result<Vec<u8>, DSmcError>)
        ensures
            final(self).contents() == old(self).contents(),
            final(self).interface_version() == old(self).interface_version(),
            final(self).native_log() == old(self).native_log().push(NativeCall::GetExpDigest1SMCBL),
            r is Ok ==> r->Ok_0@.len() == DIGEST_LEN,
            one_status(old(self).native_statuses(), final(self).native_statuses()),
            r is Ok <==> final(self).native_statuses().last() == 0,
            r is Err ==> r->Err_0 == DSmcError::GenericError(final(self).native_statuses().last()),
            r is Err ==> is_native_failure(r->Err_0),
    ;

    /// Signals the native side to exit.
    fn set_exit_event(&mut self) -> (r: Result<(), DSmcError>)
        ensures
            final(self).contents() == old(self).contents(),
            final(self).interface_version() == old(self).interface_version(),
            final(self).native_log() == old(self).native_log().push(NativeCall::SetExitEvent),
            one_status(old(self).native_statuses(), final(self).native_statuses()),
            r == status_result(final(self).native_statuses().last()),
            r is Err ==> is_native_failure(r->Err_0),
    ;
}

} // verus!
