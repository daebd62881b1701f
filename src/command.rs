//! A whole programming run: version check, initialization, one command inside
//! a programming session, and a cleanup that releases the device on every path.
use vstd::prelude::*;
use crate::device::{DIGEST_LEN, DSMCFunctions, NativeCall};
use crate::transfer::{read_calls, writable_sectors, write_calls};
use crate::error::{DSmcError, is_native_failure};
use crate::geometry::{BLOCK_SIZE, Geometry, SectorRange, sectors_for};
use crate::session::{Progress, SUPPORTED_VERSION, Session, SessionState, read_result, write_fits, written};

verus! {

/// What a run does once the session is open.
#[derive(Debug, PartialEq, Eq)]
pub enum Command {
    /// Read `length` bytes (to the end of the chip when absent) from byte `offset` on.
    Read { offset: u64, length: Option<u64> },
    /// Write `data` from byte `offset` on.
    Write { offset: u64, data: Vec<u8> },
    /// Fetch the expected digest of the first-stage bootloader.
    Digest,
}

/// What a successful run hands back.
#[derive(Debug, PartialEq, Eq)]
pub enum Outcome {
    /// The bytes of the sectors read.
    Data(Vec<u8>),
    /// The data was written.
    Written,
    /// The expected bootloader digest.
    Digest(Vec<u8>),
}

/// The error with which the rules refuse `command`, if any: a range outside
/// the chip before any transfer, an unaligned write after its whole chunks.
pub open spec fn command_refusal(g: Geometry, command: Command) -> Option<DSmcError> {
    match command {
        Command::Read { offset, length } => {
            if g.in_bounds((offset / BLOCK_SIZE) as int, g.read_sectors(offset, length)) {
                None
            } else {
                Some(DSmcError::OutOfRange)
            }
        },
        Command::Write { offset, data } => {
            if !g.in_bounds((offset / BLOCK_SIZE) as int, sectors_for(data@.len() as int)) {
                Some(DSmcError::OutOfRange)
            } else if data@.len() % (BLOCK_SIZE as nat) != 0 {
                Some(DSmcError::AlignmentError)
            } else {
                None
            }
        },
        Command::Digest => None,
    }
}

/// `command`, run on a chip holding `c0`, left it holding `c1` and produced `out`.
pub open spec fn command_outcome(
    g: Geometry,
    c0: Seq<u8>,
    c1: Seq<u8>,
    command: Command,
    out: Outcome,
) -> bool {
    &&& command_refusal(g, command) is None
    &&& match command {
        Command::Read { offset, length } => {
            &&& c1 == c0
            &&& out matches Outcome::Data(v)
            &&& v@ == read_result(c0, (offset / BLOCK_SIZE) as int, g.read_sectors(offset, length))
        },
        Command::Write { offset, data } => {
            &&& write_fits(c0, (offset / BLOCK_SIZE) as int, data@)
            &&& c1 == written(c0, (offset / BLOCK_SIZE) as int, data@)
            &&& out is Written
        },
        Command::Digest => {
            &&& c1 == c0
            &&& out matches Outcome::Digest(v)
            &&& v@.len() == DIGEST_LEN
        },
    }
}

/// The native calls that open a session: version check, initialization of
/// port 0, start of programming, and the safe transfer mode.
pub open spec fn opening_calls(safe: bool) -> Seq<NativeCall> {
    seq![
        NativeCall::GetInterfaceVersion,
        NativeCall::Initialize(0),
        NativeCall::BeginProgramming,
        NativeCall::SetSafeTransferMode(safe),
    ]
}

/// The native calls that carry out `command` when every one of them succeeds;
/// a write stops before an unaligned last chunk.
pub open spec fn command_calls(g: Geometry, command: Command) -> Seq<NativeCall> {
    match command {
        Command::Read { offset, length } => read_calls(
            (offset / BLOCK_SIZE) as int,
            (offset / BLOCK_SIZE) as int + g.read_sectors(offset, length),
            g.sectors_per_op as int,
        ),
        Command::Write { offset, data } => write_calls(
            (offset / BLOCK_SIZE) as int,
            data@,
            0,
            writable_sectors(data@.len() as int, g.sectors_per_op as int),
            g.sectors_per_op as int,
        ),
        Command::Digest => seq![NativeCall::GetExpDigest1SMCBL],
    }
}

/// The native calls that close a session.
pub open spec fn closing_calls() -> Seq<NativeCall> {
    seq![NativeCall::EndProgramming, NativeCall::Release]
}

/// A run that made the first `k` calls of `plan` and then cleaned up:
/// closing programming once the first four calls were made, and releasing
/// the device once, last.
pub open spec fn run_trace(before: Seq<NativeCall>, after: Seq<NativeCall>, plan: Seq<NativeCall>, k: int) -> bool {
    &&& 1 <= k <= plan.len()
    &&& after == before + plan.subrange(0, k) + if k >= 4 {
        closing_calls()
    } else {
        seq![NativeCall::Release]
    }
}

/// The statuses `z` of a run that made the first `k` calls of a plan of
/// `plan_len` calls, then its cleanup calls, and returned `r`: every call but
/// the last of the `k` succeeded; the run stopped early only at a failing
/// call, or after the version check on a wrong version; the result is that
/// failure, else the failure to close programming, else success or the
/// command's alignment refusal.
pub open spec fn status_trace(
    z: Seq<i32>,
    k: int,
    plan_len: int,
    version: i32,
    refusal: Option<DSmcError>,
    r: Result<Outcome, DSmcError>,
) -> bool {
    &&& z.len() == k + if k >= 4 {
        2int
    } else {
        1int
    }
    &&& forall|i: int| 0 <= i < k - 1 ==> z[i] == 0
    &&& (k == 1 <==> version != SUPPORTED_VERSION)
    &&& k == 1 ==> r == Err::<Outcome, DSmcError>(DSmcError::InvalidVersion(version))
    &&& k >= 2 && z[k - 1] != 0 ==> r == Err::<Outcome, DSmcError>(DSmcError::GenericError(z[k - 1]))
    &&& k >= 2 && z[k - 1] == 0 ==> k == plan_len && k >= 4
    &&& k >= 4 && z[k - 1] == 0 && refusal is None && z[k] != 0 ==> r == Err::<Outcome, DSmcError>(
        DSmcError::GenericError(z[k]),
    )
    &&& k >= 4 && z[k - 1] == 0 && refusal is None && z[k] == 0 ==> r is Ok
    &&& k >= 4 && z[k - 1] == 0 && refusal is Some ==> r == Err::<Outcome, DSmcError>(
        DSmcError::AlignmentError,
    )
}

/// The first `k` opening calls followed by the release form a run trace.
proof fn lemma_early_trace(before: Seq<NativeCall>, safe: bool, cmd: Seq<NativeCall>, k: int)
    requires
        1 <= k <= 3,
    ensures
        run_trace(
            before,
            before + opening_calls(safe).subrange(0, k) + seq![NativeCall::Release],
            opening_calls(safe) + cmd,
            k,
        ),
{
    assert((opening_calls(safe) + cmd).subrange(0, k) =~= opening_calls(safe).subrange(0, k));
}

/// The opening calls, the first `m` command calls and the closing calls form
/// a run trace.
proof fn lemma_full_trace(before: Seq<NativeCall>, safe: bool, cmd: Seq<NativeCall>, m: int)
    requires
        0 <= m <= cmd.len(),
    ensures
        run_trace(
            before,
            before + opening_calls(safe) + cmd.subrange(0, m) + closing_calls(),
            opening_calls(safe) + cmd,
            4 + m,
        ),
{
    assert((opening_calls(safe) + cmd).subrange(0, 4 + m) =~= opening_calls(safe) + cmd.subrange(0, m));
    assert(before + opening_calls(safe) + cmd.subrange(0, m) =~= before + (opening_calls(safe)
        + cmd.subrange(0, m)));
}

impl<D: DSMCFunctions> Session<D> {
    /// Runs `command` from an unopened session to a released one. A command
    /// whose range lies outside the chip is refused before any native call.
    /// Otherwise: checks the protocol version, initializes port 0, opens
    /// programming, sets the safe transfer mode, performs the command, then
    /// closes programming if it was opened and releases the device, also when
    /// a step fails. The first failure is reported; a failure while closing is
    /// reported only after a success.
    pub fn run<P: Progress>(&mut self, command: &Command, safe: bool, progress: &mut P) -> (r:
        Result<Outcome, DSmcError>)
        requires
            old(self).geometry.wf(),
        ensures
            final(self).geometry == old(self).geometry,
            final(self).device.interface_version() == old(self).device.interface_version(),
            command_refusal(old(self).geometry, *command) == Some(DSmcError::OutOfRange) ==> {
                &&& r == Err::<Outcome, DSmcError>(DSmcError::OutOfRange)
                &&& *final(self) == *old(self)
                &&& final(progress).reported() == old(progress).reported()
            },
            command_refusal(old(self).geometry, *command) != Some(DSmcError::OutOfRange)
                ==> final(self).state == SessionState::Closed,
            command_refusal(old(self).geometry, *command) != Some(DSmcError::OutOfRange)
                && old(self).state != SessionState::Unopened ==> r == Err::<Outcome, DSmcError>(
                DSmcError::InvalidState,
            ) && final(self).device.contents() == old(self).device.contents(),
            r is Ok ==> {
                &&& old(self).state == SessionState::Unopened
                &&& old(self).device.interface_version() == SUPPORTED_VERSION
                &&& command_outcome(
                    old(self).geometry,
                    old(self).device.contents(),
                    final(self).device.contents(),
                    *command,
                    r->Ok_0,
                )
                &&& final(self).device.native_log() == old(self).device.native_log() + opening_calls(safe)
                    + command_calls(old(self).geometry, *command) + closing_calls()
            },
            command_refusal(old(self).geometry, *command) is Some ==> r is Err,
            command_refusal(old(self).geometry, *command) != Some(DSmcError::OutOfRange)
                && old(self).state == SessionState::Unopened ==> {
                &&& old(self).device.native_statuses().len() <= final(self).device.native_statuses().len()
                &&& final(self).device.native_statuses().subrange(
                    0,
                    old(self).device.native_statuses().len() as int,
                ) == old(self).device.native_statuses()
                &&& exists|k: int|
                    run_trace(
                        old(self).device.native_log(),
                        final(self).device.native_log(),
                        opening_calls(safe) + command_calls(old(self).geometry, *command),
                        k,
                    ) && #[trigger] status_trace(
                        final(self).device.native_statuses().subrange(
                            old(self).device.native_statuses().len() as int,
                            final(self).device.native_statuses().len() as int,
                        ),
                        k,
                        (opening_calls(safe) + command_calls(old(self).geometry, *command)).len() as int,
                        old(self).device.interface_version(),
                        command_refusal(old(self).geometry, *command),
                        r,
                    )
            },
    {
        let ghost log0 = self.device.native_log();
        let ghost st0 = self.device.native_statuses();
        let ghost cmd = command_calls(self.geometry, *command);
        let ghost opening = opening_calls(safe);
        let ghost plan = opening + cmd;
        let ghost version = self.device.interface_version();
        let ghost refusal = command_refusal(self.geometry, *command);
        let range = match command {
            Command::Read { offset, length } => self.geometry.read_range(*offset, *length),
            Command::Write { offset, data } => self.geometry.write_range(*offset, data.len()),
            Command::Digest => Ok(SectorRange { start_sector: 0, sector_count: 0 }),
        };
        let range = match range {
            Ok(rg) => rg,
            Err(e) => return Err(e),
        };
        if let Err(e) = self.check_version() {
            let r = self.finish(Err(e));
            proof {
                if old(self).state == SessionState::Unopened {
                    let stf = self.device.native_statuses();
                    lemma_early_trace(log0, safe, cmd, 1);
                    assert(self.device.native_log() =~= log0 + opening.subrange(0, 1) + seq![NativeCall::Release]);
                    assert(stf.subrange(0, st0.len() as int) =~= st0);
                    assert(stf.subrange(st0.len() as int, stf.len() as int) =~= seq![0i32, 0i32]);
                    assert(status_trace(stf.subrange(st0.len() as int, stf.len() as int), 1, plan.len() as int, version, refusal, r));
                }
            }
            return r;
        }
        let ghost st_v = self.device.native_statuses();
        if let Err(e) = self.initialize(0) {
            let ghost s1 = self.device.native_statuses().last();
            let r = self.finish(Err(e));
            proof {
                let stf = self.device.native_statuses();
                lemma_early_trace(log0, safe, cmd, 2);
                assert(self.device.native_log() =~= log0 + opening.subrange(0, 2) + seq![NativeCall::Release]);
                assert(stf.subrange(0, st0.len() as int) =~= st0);
                assert(stf.subrange(st0.len() as int, stf.len() as int) =~= seq![0i32, s1, 0i32]);
                assert(status_trace(stf.subrange(st0.len() as int, stf.len() as int), 2, plan.len() as int, version, refusal, r));
            }
            return r;
        }
        if let Err(e) = self.begin_programming() {
            let ghost s2 = self.device.native_statuses().last();
            let r = self.finish(Err(e));
            proof {
                let stf = self.device.native_statuses();
                lemma_early_trace(log0, safe, cmd, 3);
                assert(self.device.native_log() =~= log0 + opening.subrange(0, 3) + seq![NativeCall::Release]);
                assert(stf.subrange(0, st0.len() as int) =~= st0);
                assert(stf.subrange(st0.len() as int, stf.len() as int) =~= seq![0i32, 0i32, s2, 0i32]);
                assert(status_trace(stf.subrange(st0.len() as int, stf.len() as int), 3, plan.len() as int, version, refusal, r));
            }
            return r;
        }
        if let Err(e) = self.set_safe_transfer_mode(safe) {
            let ghost s3 = self.device.native_statuses().last();
            let ghost st_before = self.device.native_statuses();
            let r = self.finish(Err(e));
            proof {
                let stf = self.device.native_statuses();
                let ec = stf[st_before.len() as int];
                lemma_full_trace(log0, safe, cmd, 0);
                assert(self.device.native_log() =~= log0 + opening + cmd.subrange(0, 0) + closing_calls());
                assert(stf.subrange(0, st0.len() as int) =~= st0);
                assert(stf.subrange(st0.len() as int, stf.len() as int) =~= seq![0i32, 0i32, 0i32, s3, ec, 0i32]);
                assert(status_trace(stf.subrange(st0.len() as int, stf.len() as int), 4, plan.len() as int, version, refusal, r));
            }
            return r;
        }
        let ghost open_log = self.device.native_log();
        let ghost st_open = self.device.native_statuses();
        proof {
            assert(open_log =~= log0 + opening);
            assert(st_open =~= st0 + seq![0i32, 0i32, 0i32, 0i32]);
        }
        let result = match command {
            Command::Read { .. } => match self.read(range.start_sector, range.sector_count, progress) {
                Ok(v) => Ok(Outcome::Data(v)),
                Err(e) => Err(e),
            },
            Command::Write { data, .. } => match self.write(range.start_sector, data.as_slice(), progress) {
                Ok(()) => Ok(Outcome::Written),
                Err(e) => Err(e),
            },
            Command::Digest => match self.get_exp_digest_1smcbl() {
                Ok(v) => Ok(Outcome::Digest(v)),
                Err(e) => Err(e),
            },
        };
        let ghost m = self.device.native_log().len() - open_log.len();
        let ghost st_cmd = self.device.native_statuses();
        let ghost c = st_cmd.subrange(st_open.len() as int, st_cmd.len() as int);
        proof {
            assert(0 <= m <= cmd.len());
            assert(self.device.native_log() =~= open_log + cmd.subrange(0, m));
            assert(c.len() == m);
            assert(st_cmd.subrange(0, st_open.len() as int) =~= st_open);
            assert(st_cmd =~= st_open + c);
            assert forall|i: int| 0 <= i < m - 1 implies c[i] == 0 by {
                assert(c[i] == st_cmd[st_open.len() + i]);
                assert(st_cmd.drop_last()[st_open.len() + i] == st_cmd[st_open.len() + i]);
            }
            assert(m > 0 && c[m - 1] != 0 ==> result == Err::<Outcome, DSmcError>(DSmcError::GenericError(c[m - 1])));
            assert(result is Err && !(m > 0 && c[m - 1] != 0) ==> refusal == Some(DSmcError::AlignmentError) && result == Err::<Outcome, DSmcError>(DSmcError::AlignmentError));
            assert(!(m > 0 && c[m - 1] != 0) ==> m == cmd.len());
            assert(result is Ok ==> refusal is None);
        }
        let r = self.finish(result);
        proof {
            let stf = self.device.native_statuses();
            let ec = stf[st_cmd.len() as int];
            lemma_full_trace(log0, safe, cmd, m);
            assert(stf =~= st0 + (seq![0i32, 0i32, 0i32, 0i32] + c + seq![ec, 0i32]));
            assert(stf.subrange(0, st0.len() as int) =~= st0);
            assert(stf.subrange(st0.len() as int, stf.len() as int) =~= seq![0i32, 0i32, 0i32, 0i32] + c + seq![ec, 0i32]);
            assert(status_trace(stf.subrange(st0.len() as int, stf.len() as int), 4 + m, plan.len() as int, version, refusal, r));
        }
        r
    }

    /// Shuts the session down and reports `result`, or the failure to close
    /// programming when `result` was a success.
    fn finish(&mut self, result: Result<Outcome, DSmcError>) -> (r: Result<Outcome, DSmcError>)
        ensures
            final(self).geometry == old(self).geometry,
            final(self).state == SessionState::Closed,
            final(self).device.contents() == old(self).device.contents(),
            final(self).device.interface_version() == old(self).device.interface_version(),
            old(self).state == SessionState::Programming ==> final(self).device.native_log()
                == old(self).device.native_log() + closing_calls(),
            old(self).state != SessionState::Programming && old(self).state != SessionState::Closed
                ==> final(self).device.native_log() == old(self).device.native_log().push(
                NativeCall::Release,
            ),
            old(self).state != SessionState::Programming && old(self).state != SessionState::Closed
                ==> final(self).device.native_statuses() == old(self).device.native_statuses().push(0),
            old(self).state == SessionState::Programming ==> ({
                let st = final(self).device.native_statuses();
                let n = old(self).device.native_statuses().len() as int;
                &&& st.len() == n + 2
                &&& st == old(self).device.native_statuses().push(st[n]).push(0)
                &&& result is Ok && st[n] == 0 ==> r == result
                &&& result is Ok && st[n] != 0 ==> r == Err::<Outcome, DSmcError>(
                    DSmcError::GenericError(st[n]),
                )
            }),
            old(self).state == SessionState::Closed ==> final(self).device == old(self).device,
            result is Err ==> r == result,
            result is Ok ==> r == result || (r is Err && is_native_failure(r->Err_0)),
    {
        let closing = self.shutdown();
        proof {
            assert(old(self).device.native_log().push(NativeCall::EndProgramming).push(NativeCall::Release)
                =~= old(self).device.native_log() + closing_calls());
        }
        match result {
            Ok(out) => match closing {
                Ok(()) => Ok(out),
                Err(e) => Err(e),
            },
            Err(e) => Err(e),
        }
    }
}

} // verus!
