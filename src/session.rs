//! The programming session: legal ordering of the device's lifecycle calls,
//! and the sector transfer engine that runs inside a session.
use vstd::prelude::*;
use crate::device::{DSMCFunctions, NativeCall, one_status, overwrite, sector_bytes};
use crate::error::{DSmcError, is_native_failure, status_result};
use crate::geometry::{BLOCK_SIZE, Geometry};

verus! {

/// The one protocol version of the native interface that this library speaks.
pub const SUPPORTED_VERSION: i32 = 3;

/// Where a session stands in the lifecycle
/// version check, initialize, begin programming, transfers, end programming, release.
#[derive(Debug, Clone, Copy, PartialEq, Eq, Structural)]
pub enum SessionState {
    Unopened,
    VersionChecked,
    Initialized,
    Programming,
    Closed,
}

/// Receives the number of bytes transferred so far out of the total, once per chunk.
pub trait Progress: Sized {
    /// The `(done, total)` updates received so far. An implementation that
    /// gives no model of its own leaves it unspecified.
    closed spec fn reported(&self) -> Seq<(u64, u64)> {
        arbitrary()
    }

    fn update(&mut self, done: u64, total: u64)
        ensures
            final(self).reported() == old(self).reported().push((done, total)),
    ;
}

/// Keeps every progress update it receives.
pub struct ProgressLog {
    pub updates: Vec<(u64, u64)>,
}

impl ProgressLog {
    /// A log that has received nothing.
    pub fn new() -> (p: ProgressLog)
        ensures
            p.updates@ == Seq::<(u64, u64)>::empty(),
    {
        ProgressLog { updates: Vec::new() }
    }
}

impl Progress for ProgressLog {
    open spec fn reported(&self) -> Seq<(u64, u64)> {
        self.updates@
    }

    fn update(&mut self, done: u64, total: u64) {
        self.updates.push((done, total));
    }
}

/// The updates appended after `before` all count towards `total`, never go
/// down, and never pass `total`.
pub open spec fn progress_ok(before: Seq<(u64, u64)>, after: Seq<(u64, u64)>, total: u64) -> bool {
    &&& before.len() <= after.len()
    &&& after.subrange(0, before.len() as int) == before
    &&& forall|i: int|
        before.len() <= i < after.len() ==> (#[trigger] after[i]).1 == total && after[i].0 <= total
    &&& forall|i: int|
        before.len() <= i < after.len() - 1 ==> (#[trigger] after[i]).0 <= after[i + 1].0
}

/// Receiving no update keeps progress in order.
pub proof fn lemma_progress_unchanged(r: Seq<(u64, u64)>, total: u64)
    ensures
        progress_ok(r, r, total),
{
    assert(r.subrange(0, r.len() as int) =~= r);
}

/// An update that does not go back and does not pass `total` keeps progress
/// in order.
pub proof fn lemma_progress_push(before: Seq<(u64, u64)>, mid: Seq<(u64, u64)>, total: u64, e: (u64, u64))
    requires
        progress_ok(before, mid, total),
        e.1 == total,
        e.0 <= total,
        mid.len() > before.len() ==> mid.last().0 <= e.0,
    ensures
        progress_ok(before, mid.push(e), total),
{
    let after = mid.push(e);
    assert(after.subrange(0, before.len() as int) =~= mid.subrange(0, before.len() as int));
    assert forall|i: int| before.len() <= i < after.len() - 1 implies (#[trigger] after[i]).0 <= after[i
        + 1].0 by {
        if i + 1 < mid.len() {
            assert(mid[i].0 <= mid[i + 1].0);
        }
    }
}

/// Progress that reached `total` with exactly `n` updates.
pub open spec fn progress_done(before: Seq<(u64, u64)>, after: Seq<(u64, u64)>, total: u64, n: nat) -> bool {
    &&& progress_ok(before, after, total)
    &&& after.len() == before.len() + n
    &&& n > 0 ==> after.last().0 == total
}

/// A device together with the state of its programming session.
pub struct Session<D: DSMCFunctions> {
    pub device: D,
    pub geometry: Geometry,
    pub state: SessionState,
}

/// Exactly the native call `call` was made, and it left the chip's contents alone.
pub open spec fn native_step<D: DSMCFunctions>(before: D, after: D, call: NativeCall) -> bool {
    &&& after.contents() == before.contents()
    &&& after.interface_version() == before.interface_version()
    &&& after.native_log() == before.native_log().push(call)
}

/// A lifecycle call legal only in state `from`: out of order it is refused
/// and nothing happens; in order it makes the native call `call` and moves to
/// `to` when that call succeeds.
pub open spec fn transition<D: DSMCFunctions>(
    s0: Session<D>,
    s1: Session<D>,
    r: Result<(), DSmcError>,
    from: SessionState,
    to: SessionState,
    call: NativeCall,
) -> bool {
    &&& s1.geometry == s0.geometry
    &&& s0.state != from ==> r == Err::<(), DSmcError>(DSmcError::InvalidState) && s1 == s0
    &&& s0.state == from ==> native_step(s0.device, s1.device, call)
    &&& s0.state == from ==> one_status(s0.device.native_statuses(), s1.device.native_statuses())
    &&& s0.state == from ==> r == status_result(s1.device.native_statuses().last())
    &&& s0.state == from && r is Ok ==> s1.state == to
    &&& s0.state == from && r is Err ==> is_native_failure(r->Err_0) && s1.state == from
}

/// The contents after writing `data` at sector `start`: the bytes there are
/// replaced, and an empty write changes nothing.
pub open spec fn written(c: Seq<u8>, start: int, data: Seq<u8>) -> Seq<u8> {
    if data.len() == 0 {
        c
    } else {
        overwrite(c, start * BLOCK_SIZE, data)
    }
}

/// The bytes of `count` sectors from sector `start` on; a read of no sectors
/// yields nothing.
pub open spec fn read_result(c: Seq<u8>, start: int, count: int) -> Seq<u8> {
    if count == 0 {
        Seq::empty()
    } else {
        sector_bytes(c, start, count)
    }
}

/// Writing `data` at sector `start` fits inside `c`.
pub open spec fn write_fits(c: Seq<u8>, start: int, data: Seq<u8>) -> bool {
    data.len() > 0 ==> start * BLOCK_SIZE + data.len() <= c.len()
}

/// Writing the bytes `[i, j)` of `d` after the bytes `[0, i)` is writing `[0, j)`.
pub proof fn lemma_overwrite_extend(c: Seq<u8>, a: int, d: Seq<u8>, i: int, j: int)
    requires
        0 <= a,
        0 <= i <= j <= d.len(),
        a + j <= c.len(),
    ensures
        overwrite(overwrite(c, a, d.subrange(0, i)), a + i, d.subrange(i, j)) == overwrite(
            c,
            a,
            d.subrange(0, j),
        ),
{
    let c1 = overwrite(c, a, d.subrange(0, i));
    assert(c1.len() == c.len());
    assert(overwrite(c1, a + i, d.subrange(i, j)) =~= overwrite(c, a, d.subrange(0, j)));
}

impl<D: DSMCFunctions> Session<D> {
    /// A session over `device` that has made no call yet.
    pub fn new(device: D, geometry: Geometry) -> (s: Self)
        requires
            geometry.wf(),
        ensures
            s.device == device,
            s.geometry == geometry,
            s.state == SessionState::Unopened,
    {
        Session { device, geometry, state: SessionState::Unopened }
    }

    /// Asks the native library for its protocol version and accepts only the
    /// supported one.
    pub fn check_version(&mut self) -> (r: Result<i32, DSmcError>)
        ensures
            final(self).geometry == old(self).geometry,
            old(self).state != SessionState::Unopened ==> r == Err::<i32, DSmcError>(
                DSmcError::InvalidState,
            ) && *final(self) == *old(self),
            old(self).state == SessionState::Unopened ==> native_step(
                old(self).device,
                final(self).device,
                NativeCall::GetInterfaceVersion,
            ),
            old(self).state == SessionState::Unopened ==> final(self).device.native_statuses()
                == old(self).device.native_statuses().push(0),
            old(self).state == SessionState::Unopened && old(self).device.interface_version()
                == SUPPORTED_VERSION ==> r == Ok::<i32, DSmcError>(SUPPORTED_VERSION)
                && final(self).state == SessionState::VersionChecked,
            old(self).state == SessionState::Unopened && old(self).device.interface_version()
                != SUPPORTED_VERSION ==> r == Err::<i32, DSmcError>(
                DSmcError::InvalidVersion(old(self).device.interface_version()),
            ) && final(self).state == SessionState::Unopened,
    {
        if self.state != SessionState::Unopened {
            return Err(DSmcError::InvalidState);
        }
        let version = match self.device.get_interface_version() {
            Ok(v) => v,
            Err(e) => return Err(e),
        };
        if version != SUPPORTED_VERSION {
            return Err(DSmcError::InvalidVersion(version));
        }
        self.state = SessionState::VersionChecked;
        Ok(version)
    }

    /// Binds to the programmer on `port_number`, once the version is checked.
    pub fn initialize(&mut self, port_number: i32) -> (r: Result<(), DSmcError>)
        ensures
            transition(
                *old(self),
                *final(self),
                r,
                SessionState::VersionChecked,
                SessionState::Initialized,
                NativeCall::Initialize(port_number),
            ),
    {
        if self.state != SessionState::VersionChecked {
            return Err(DSmcError::InvalidState);
        }
        let r = self.device.initialize(port_number);
        if r.is_ok() {
            self.state = SessionState::Initialized;
        }
        r
    }

    /// Opens a programming session on an initialized device.
    pub fn begin_programming(&mut self) -> (r: Result<(), DSmcError>)
        ensures
            transition(
                *old(self),
                *final(self),
                r,
                SessionState::Initialized,
                SessionState::Programming,
                NativeCall::BeginProgramming,
            ),
    {
        if self.state != SessionState::Initialized {
            return Err(DSmcError::InvalidState);
        }
        let r = self.device.begin_programming();
        if r.is_ok() {
            self.state = SessionState::Programming;
        }
        r
    }

    /// Closes the programming session; the device stays initialized.
    pub fn end_programming(&mut self) -> (r: Result<(), DSmcError>)
        ensures
            transition(
                *old(self),
                *final(self),
                r,
                SessionState::Programming,
                SessionState::Initialized,
                NativeCall::EndProgramming,
            ),
    {
        if self.state != SessionState::Programming {
            return Err(DSmcError::InvalidState);
        }
        let r = self.device.end_programming();
        if r.is_ok() {
            self.state = SessionState::Initialized;
        }
        r
    }

    /// Turns per-transfer verification on or off; legal once the device is
    /// initialized and until the session closes.
    pub fn set_safe_transfer_mode(&mut self, safe: bool) -> (r: Result<(), DSmcError>)
        ensures
            final(self).geometry == old(self).geometry,
            final(self).state == old(self).state,
            !old(self).state.is_active() ==> r == Err::<(), DSmcError>(DSmcError::InvalidState)
                && *final(self) == *old(self),
            old(self).state.is_active() ==> native_step(
                old(self).device,
                final(self).device,
                NativeCall::SetSafeTransferMode(safe),
            ),
            old(self).state.is_active() ==> one_status(
                old(self).device.native_statuses(),
                final(self).device.native_statuses(),
            ) && r == status_result(final(self).device.native_statuses().last()),
            r is Err && old(self).state.is_active() ==> is_native_failure(r->Err_0),
    {
        if self.state != SessionState::Initialized && self.state != SessionState::Programming {
            return Err(DSmcError::InvalidState);
        }
        self.device.set_safe_transfer_mode(safe)
    }

    /// Releases the device; it is released once, whatever state it is in.
    pub fn release(&mut self)
        ensures
            final(self).geometry == old(self).geometry,
            final(self).state == SessionState::Closed,
            final(self).device.contents() == old(self).device.contents(),
            final(self).device.interface_version() == old(self).device.interface_version(),
            old(self).state != SessionState::Closed ==> final(self).device.native_log()
                == old(self).device.native_log().push(NativeCall::Release),
            old(self).state != SessionState::Closed ==> final(self).device.native_statuses()
                == old(self).device.native_statuses().push(0),
            old(self).state == SessionState::Closed ==> final(self).device == old(self).device,
    {
        if self.state != SessionState::Closed {
            self.device.release();
            self.state = SessionState::Closed;
        }
    }

    /// Ends the session on every path: closes programming if it is open, then
    /// releases the device. Only a failure to close programming is reported.
    pub fn shutdown(&mut self) -> (r: Result<(), DSmcError>)
        ensures
            final(self).geometry == old(self).geometry,
            final(self).state == SessionState::Closed,
            final(self).device.contents() == old(self).device.contents(),
            final(self).device.interface_version() == old(self).device.interface_version(),
            old(self).state == SessionState::Programming ==> final(self).device.native_log()
                == old(self).device.native_log().push(NativeCall::EndProgramming).push(
                NativeCall::Release,
            ),
            old(self).state != SessionState::Programming && old(self).state != SessionState::Closed
                ==> final(self).device.native_log() == old(self).device.native_log().push(
                NativeCall::Release,
            ),
            old(self).state != SessionState::Programming && old(self).state != SessionState::Closed
                ==> final(self).device.native_statuses() == old(self).device.native_statuses().push(0),
            old(self).state == SessionState::Programming ==> ({
                let st = final(self).device.native_statuses();
                let n = old(self).device.native_statuses().len() as int;
                &&& st.len() == n + 2
                &&& st == old(self).device.native_statuses().push(st[n]).push(0)
                &&& r == status_result(st[n])
            }),
            old(self).state == SessionState::Closed ==> final(self).device == old(self).device,
            old(self).state != SessionState::Programming ==> r is Ok,
            r is Err ==> is_native_failure(r->Err_0),
    {
        let r = if self.state == SessionState::Programming {
            self.end_programming()
        } else {
            Ok(())
        };
        self.release();
        r
    }
}

impl SessionState {
    /// The device is initialized, with or without an open programming session.
    pub open spec fn is_active(&self) -> bool {
        *self == SessionState::Initialized || *self == SessionState::Programming
    }
}

} // verus!
