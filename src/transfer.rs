//! The sector transfer engine: bounds- and alignment-checked reads and writes
//! split into chunks of at most `sectors_per_op` sectors per native call, and
//! digest retrieval.
use vstd::prelude::*;
use vstd::slice::slice_subrange;
use crate::device::{DIGEST_LEN, DSMCFunctions, NativeCall, all_zero, lemma_status_push, one_status, overwrite};
use crate::error::{DSmcError, is_native_failure};
use crate::geometry::{BLOCK_SIZE, Geometry, chunk_count, sector_count_for, sectors_for};
use crate::session::{
    Progress, Session, SessionState, lemma_overwrite_extend, lemma_progress_push, lemma_progress_unchanged,
    progress_done, progress_ok, read_result, written,
    write_fits,
};

verus! {

/// The BlockRead calls that read sectors `[sector, end)`, at most `per_op`
/// sectors per call, in ascending order.
pub open spec fn read_calls(sector: int, end: int, per_op: int) -> Seq<NativeCall>
    decreases end - sector,
{
    if sector >= end || per_op <= 0 {
        Seq::empty()
    } else {
        let n = if end - sector < per_op {
            end - sector
        } else {
            per_op
        };
        seq![NativeCall::BlockRead(sector, n)] + read_calls(sector + n, end, per_op)
    }
}

/// The BlockWrite calls that write sectors `[done, upto)` of `data` to the chip
/// from sector `start + done` on, at most `per_op` sectors per call, in
/// ascending order.
pub open spec fn write_calls(start: int, data: Seq<u8>, done: int, upto: int, per_op: int) -> Seq<
    NativeCall,
>
    decreases upto - done,
{
    if done >= upto || per_op <= 0 {
        Seq::empty()
    } else {
        let n = if upto - done < per_op {
            upto - done
        } else {
            per_op
        };
        seq![NativeCall::BlockWrite(start + done, data.subrange(done * BLOCK_SIZE, (done + n) * BLOCK_SIZE))]
            + write_calls(start, data, done + n, upto, per_op)
    }
}

/// Sectors of a `len`-byte write that go out before an unaligned tail: all of
/// them when `len` is a whole number of sectors, else those of the whole
/// chunks of `per_op` sectors.
pub open spec fn writable_sectors(len: int, per_op: int) -> int {
    if len % 512 == 0 {
        len / 512
    } else {
        (len / (per_op * 512)) * per_op
    }
}

/// The progress updates `(done, total)` sent after each chunk when sectors
/// `[from, upto)` of a transfer move `per_op` at a time, `done` counting the
/// bytes of sectors `[0, ..)` moved so far.
pub open spec fn progress_marks(from: int, upto: int, per_op: int, total: u64) -> Seq<(u64, u64)>
    decreases upto - from,
{
    if from >= upto || per_op <= 0 {
        Seq::empty()
    } else {
        let n = if upto - from < per_op {
            upto - from
        } else {
            per_op
        };
        seq![(((from + n) * BLOCK_SIZE) as u64, total)] + progress_marks(from + n, upto, per_op, total)
    }
}

/// The calls after `before` all succeeded but the last, whose non-zero status
/// `e` carries.
pub open spec fn failed_on_last(before: Seq<i32>, after: Seq<i32>, e: DSmcError) -> bool {
    &&& after.len() > before.len()
    &&& after.last() != 0
    &&& e == DSmcError::GenericError(after.last())
    &&& all_zero(after.drop_last(), before.len() as int)
}

/// One more planned item keeps a sequence on its plan.
pub proof fn lemma_seq_step<T>(before: Seq<T>, plan: Seq<T>, done: Seq<T>, x: T, rest: Seq<T>)
    requires
        before + plan == done + (seq![x] + rest),
    ensures
        before + plan == done.push(x) + rest,
{
    assert(done + (seq![x] + rest) =~= done.push(x) + rest);
}

/// `after` is `before` followed by the first calls of `plan`, at least one:
/// the calls stopped at the one that failed.
pub open spec fn stopped_within(before: Seq<NativeCall>, after: Seq<NativeCall>, plan: Seq<NativeCall>) -> bool {
    &&& before.len() < after.len() <= before.len() + plan.len()
    &&& after == before + plan.subrange(0, after.len() - before.len())
}

/// One more planned call keeps the log on its plan; if it was the last one
/// made, the calls stopped within the plan.
pub proof fn lemma_plan_step(
    before: Seq<NativeCall>,
    plan: Seq<NativeCall>,
    log: Seq<NativeCall>,
    x: NativeCall,
    rest: Seq<NativeCall>,
)
    requires
        before + plan == log + (seq![x] + rest),
        before.len() <= log.len(),
    ensures
        before + plan == log.push(x) + rest,
        stopped_within(before, log.push(x), plan),
{
    assert(log + (seq![x] + rest) =~= log.push(x) + rest);
    let after = log.push(x);
    assert(after =~= (before + plan).subrange(0, after.len() as int));
    assert((before + plan).subrange(0, after.len() as int) =~= before + plan.subrange(
        0,
        after.len() - before.len(),
    ));
}

/// A read request of `length` bytes at byte `offset` that lies inside the chip
/// starts in the sector holding `offset`, and reading its sectors yields
/// `sector_count * BLOCK_SIZE` bytes.
pub proof fn lemma_read_request(g: Geometry, offset: u64, length: Option<u64>, c: Seq<u8>)
    requires
        g.wf(),
        g.in_bounds((offset / BLOCK_SIZE) as int, g.read_sectors(offset, length)),
        c.len() == g.total_sectors * BLOCK_SIZE,
    ensures
        ({
            let start = (offset / BLOCK_SIZE) as int;
            let count = g.read_sectors(offset, length);
            &&& start * BLOCK_SIZE <= offset < (start + 1) * BLOCK_SIZE
            &&& read_result(c, start, count).len() == count * BLOCK_SIZE
        }),
{
    crate::geometry::lemma_sector_of(offset as int);
}

/// Writing whole sectors of `data` at sector `start` and reading the same
/// sectors back yields `data`.
pub proof fn lemma_write_then_read(c: Seq<u8>, start: int, data: Seq<u8>)
    requires
        0 <= start,
        data.len() % (BLOCK_SIZE as nat) == 0,
        write_fits(c, start, data),
    ensures
        read_result(written(c, start, data), start, (data.len() / (BLOCK_SIZE as nat)) as int) == data,
{
    let n = (data.len() / (BLOCK_SIZE as nat)) as int;
    assert(n * 512 == data.len()) by (nonlinear_arith)
        requires
            n == data.len() as int / 512,
            data.len() as int % 512 == 0,
    ;
    if data.len() > 0 {
        let w = written(c, start, data);
        assert(w.subrange(start * 512, (start + n) * 512) =~= data);
    } else {
        assert(data =~= Seq::<u8>::empty());
    }
}


/// Number of sectors of a `len`-byte write that go out before an unaligned
/// tail.
pub fn writable_sector_count(len: u64, per_op: u64) -> (full: u64)
    requires
        1 <= per_op <= 8,
    ensures
        full == writable_sectors(len as int, per_op as int),
        full * BLOCK_SIZE <= len,
        len % 512 == 0 ==> full * BLOCK_SIZE == len,
        full <= sectors_for(len as int),
{
    let chunk_bytes: u64 = per_op * BLOCK_SIZE;
    let full: u64 = if len % BLOCK_SIZE == 0 {
        len / BLOCK_SIZE
    } else {
        proof {
            assert((len / chunk_bytes) * per_op * 512 <= len) by (nonlinear_arith)
                requires
                    chunk_bytes == per_op * 512,
                    per_op >= 1,
            ;
        }
        (len / chunk_bytes) * per_op
    };
    proof {
        assert(full * 512 <= len && (len % 512 == 0 ==> full * 512 == len)) by (nonlinear_arith)
            requires
                len % 512 == 0 ==> full == len / 512,
                len % 512 != 0 ==> full * 512 <= len,
        ;
        assert(full <= sectors_for(len as int)) by (nonlinear_arith)
            requires
                full * 512 <= len,
                sectors_for(len as int) == (len + 511) / 512,
        ;
    }
    full
}

impl<D: DSMCFunctions> Session<D> {
    /// Reads `sector_count` sectors from `start_sector` on, one native call per
    /// chunk of at most `sectors_per_op` sectors, and returns their bytes in
    /// ascending sector order. Stops at the first failing call.
    #[verifier::rlimit(40)]
    pub fn read<P: Progress>(&mut self, start_sector: u64, sector_count: u64, progress: &mut P) -> (r:
        Result<Vec<u8>, DSmcError>)
        requires
            old(self).geometry.wf(),
        ensures
            final(self).geometry == old(self).geometry,
            final(self).state == old(self).state,
            final(self).device.contents() == old(self).device.contents(),
            final(self).device.interface_version() == old(self).device.interface_version(),
            old(self).state != SessionState::Programming ==> r == Err::<Vec<u8>, DSmcError>(
                DSmcError::InvalidState,
            ) && *final(self) == *old(self),
            old(self).state == SessionState::Programming && !old(self).geometry.in_bounds(
                start_sector as int,
                sector_count as int,
            ) ==> r == Err::<Vec<u8>, DSmcError>(DSmcError::OutOfRange) && *final(self) == *old(self),
            old(self).state == SessionState::Programming && old(self).geometry.in_bounds(
                start_sector as int,
                0,
            ) && sector_count == 0 ==> r is Ok && r->Ok_0@.len() == 0 && *final(self) == *old(self),
            r is Ok ==> {
                &&& old(self).state == SessionState::Programming
                &&& old(self).geometry.in_bounds(start_sector as int, sector_count as int)
                &&& r->Ok_0@.len() == sector_count * BLOCK_SIZE
                &&& r->Ok_0@ == read_result(
                    old(self).device.contents(),
                    start_sector as int,
                    sector_count as int,
                )
                &&& final(self).device.native_log() == old(self).device.native_log() + read_calls(
                    start_sector as int,
                    start_sector + sector_count,
                    old(self).geometry.sectors_per_op as int,
                )
            },
            r is Err && old(self).state == SessionState::Programming && old(self).geometry.in_bounds(
                start_sector as int,
                sector_count as int,
            ) ==> is_native_failure(r->Err_0) && stopped_within(
                old(self).device.native_log(),
                final(self).device.native_log(),
                read_calls(
                    start_sector as int,
                    start_sector + sector_count,
                    old(self).geometry.sectors_per_op as int,
                ),
            ),
            old(self).device.native_statuses().len() <= final(self).device.native_statuses().len(),
            final(self).device.native_statuses().len() - old(self).device.native_statuses().len()
                == final(self).device.native_log().len() - old(self).device.native_log().len(),
            final(self).device.native_statuses().subrange(0, old(self).device.native_statuses().len() as int)
                == old(self).device.native_statuses(),
            old(self).state == SessionState::Programming && old(self).geometry.in_bounds(
                start_sector as int,
                sector_count as int,
            ) ==> (r is Ok <==> all_zero(
                final(self).device.native_statuses(),
                old(self).device.native_statuses().len() as int,
            )),
            r is Err && old(self).state == SessionState::Programming && old(self).geometry.in_bounds(
                start_sector as int,
                sector_count as int,
            ) ==> failed_on_last(old(self).device.native_statuses(), final(self).device.native_statuses(), r->Err_0),
            progress_ok(
                old(progress).reported(),
                final(progress).reported(),
                (sector_count * BLOCK_SIZE) as u64,
            ),
            old(self).state != SessionState::Programming || !old(self).geometry.in_bounds(
                start_sector as int,
                sector_count as int,
            ) ==> final(progress).reported() == old(progress).reported(),
            r is Ok ==> progress_done(
                old(progress).reported(),
                final(progress).reported(),
                (sector_count * BLOCK_SIZE) as u64,
                chunk_count(sector_count as int, old(self).geometry.sectors_per_op as int),
            ),
            r is Ok ==> final(progress).reported() == old(progress).reported() + progress_marks(
                0,
                sector_count as int,
                old(self).geometry.sectors_per_op as int,
                (sector_count * BLOCK_SIZE) as u64,
            ),
    {
        proof {
            lemma_progress_unchanged(old(progress).reported(), (sector_count * BLOCK_SIZE) as u64);
        }
        if self.state != SessionState::Programming {
            return Err(DSmcError::InvalidState);
        }
        if let Err(e) = self.geometry.check_bounds(start_sector, sector_count) {
            return Err(e);
        }
        let ghost c0 = self.device.contents();
        let ghost log0 = self.device.native_log();
        let ghost st0 = self.device.native_statuses();
        let per_op = self.geometry.sectors_per_op;
        let end: u64 = start_sector + sector_count;
        let ghost plan = read_calls(start_sector as int, end as int, per_op as int);
        let total_bytes: u64 = sector_count * BLOCK_SIZE;
        let mut out: Vec<u8> = Vec::new();
        let mut sector: u64 = start_sector;
        let ghost marks = progress_marks(0, sector_count as int, per_op as int, total_bytes);
        proof {
            assert(old(progress).reported() + marks =~= progress.reported() + progress_marks(
                0,
                sector_count as int,
                per_op as int,
                total_bytes,
            ));
            assert(log0 + plan =~= self.device.native_log() + read_calls(sector as int, end as int, per_op as int));
        }
        while sector < end
            invariant
                self.geometry == old(self).geometry,
                self.state == SessionState::Programming,
                old(self).state == SessionState::Programming,
                c0 == old(self).device.contents(),
                log0 == old(self).device.native_log(),
                plan == read_calls(start_sector as int, end as int, per_op as int),
                self.geometry.wf(),
                per_op == self.geometry.sectors_per_op,
                end == start_sector + sector_count,
                end <= self.geometry.total_sectors,
                start_sector <= sector <= end,
                total_bytes == sector_count * BLOCK_SIZE,
                self.device.contents() == c0,
                self.device.interface_version() == old(self).device.interface_version(),
                log0.len() <= self.device.native_log().len(),
                log0 + plan == self.device.native_log() + read_calls(sector as int, end as int, per_op as int),
                sector > start_sector ==> sector * BLOCK_SIZE <= c0.len(),
                sector == start_sector ==> out@.len() == 0,
                sector == start_sector ==> self.device == old(self).device,
                st0 == old(self).device.native_statuses(),
                st0.len() <= self.device.native_statuses().len(),
                self.device.native_statuses().subrange(0, st0.len() as int) == st0,
                all_zero(self.device.native_statuses(), st0.len() as int),
                self.device.native_statuses().len() - st0.len() == self.device.native_log().len()
                    - log0.len(),
                marks == progress_marks(0, sector_count as int, per_op as int, total_bytes),
                old(progress).reported() + marks == progress.reported() + progress_marks(
                    sector - start_sector,
                    sector_count as int,
                    per_op as int,
                    total_bytes,
                ),
                progress_ok(old(progress).reported(), progress.reported(), total_bytes),
                progress.reported().len() + chunk_count(end - sector, per_op as int) == old(
                    progress,
                ).reported().len() + chunk_count(sector_count as int, per_op as int),
                progress.reported().len() > old(progress).reported().len() ==> progress.reported().last().0
                    == (sector - start_sector) * BLOCK_SIZE,
                sector > start_sector ==> out@ == c0.subrange(start_sector * BLOCK_SIZE, sector * BLOCK_SIZE),
            decreases end - sector,
        {
            let n: u64 = if end - sector < per_op {
                end - sector
            } else {
                per_op
            };
            let ghost log = self.device.native_log();
            let ghost st = self.device.native_statuses();
            let chunk = self.device.block_read(sector as i32, n as i32);
            proof {
                lemma_status_push(st0, st, self.device.native_statuses().last());
                lemma_plan_step(
                    log0,
                    plan,
                    log,
                    NativeCall::BlockRead(sector as int, n as int),
                    read_calls(sector + n, end as int, per_op as int),
                );
            }
            match chunk {
                Ok(v) => {
                    let mut v = v;
                    proof {
                        assert(sector == start_sector ==> v@ =~= c0.subrange(start_sector * BLOCK_SIZE, (sector + n) * BLOCK_SIZE));
                        assert(sector > start_sector ==> c0.subrange(start_sector * BLOCK_SIZE, sector * BLOCK_SIZE) + c0.subrange(
                            sector * BLOCK_SIZE,
                            (sector + n) * BLOCK_SIZE,
                        ) =~= c0.subrange(start_sector * BLOCK_SIZE, (sector + n) * BLOCK_SIZE));
                    }
                    out.append(&mut v);
                },
                Err(e) => return Err(e),
            }
            sector = sector + n;
            proof {
                lemma_progress_push(
                    old(progress).reported(),
                    progress.reported(),
                    total_bytes,
                    (((sector - start_sector) * BLOCK_SIZE) as u64, total_bytes),
                );
                lemma_seq_step(
                    old(progress).reported(),
                    marks,
                    progress.reported(),
                    (((sector - start_sector) * BLOCK_SIZE) as u64, total_bytes),
                    progress_marks(sector - start_sector, sector_count as int, per_op as int, total_bytes),
                );
            }
            progress.update((sector - start_sector) * BLOCK_SIZE, total_bytes);
        }
        proof {
            assert(self.device.native_log() + Seq::<NativeCall>::empty() =~= self.device.native_log());
            assert(progress.reported() + Seq::<(u64, u64)>::empty() =~= progress.reported());
            if sector_count == 0 {
                assert(out@ =~= Seq::<u8>::empty());
            }
        }
        Ok(out)
    }

    /// Writes `data` from `start_sector` on, one native call per chunk of
    /// `sectors_per_op` sectors, the last chunk possibly shorter. Chunks that
    /// are a whole number of sectors go out in order; a last chunk that is not
    /// is refused with `AlignmentError` before any native call for it. Stops at
    /// the first failing call.
    #[verifier::rlimit(100)]
    pub fn write<P: Progress>(&mut self, start_sector: u64, data: &[u8], progress: &mut P) -> (r:
        Result<(), DSmcError>)
        requires
            old(self).geometry.wf(),
        ensures
            final(self).geometry == old(self).geometry,
            final(self).state == old(self).state,
            final(self).device.contents().len() == old(self).device.contents().len(),
            final(self).device.interface_version() == old(self).device.interface_version(),
            old(self).state != SessionState::Programming ==> r == Err::<(), DSmcError>(
                DSmcError::InvalidState,
            ) && *final(self) == *old(self),
            old(self).state == SessionState::Programming && !old(self).geometry.in_bounds(
                start_sector as int,
                sectors_for(data@.len() as int),
            ) ==> r == Err::<(), DSmcError>(DSmcError::OutOfRange) && *final(self) == *old(self),
            old(self).state == SessionState::Programming && old(self).geometry.in_bounds(
                start_sector as int,
                0,
            ) && data@.len() == 0 ==> r is Ok && *final(self) == *old(self),
            r is Ok ==> {
                &&& old(self).state == SessionState::Programming
                &&& old(self).geometry.in_bounds(start_sector as int, sectors_for(data@.len() as int))
                &&& data@.len() % (BLOCK_SIZE as nat) == 0
                &&& write_fits(old(self).device.contents(), start_sector as int, data@)
                &&& final(self).device.contents() == written(
                    old(self).device.contents(),
                    start_sector as int,
                    data@,
                )
                &&& final(self).device.native_log() == old(self).device.native_log() + write_calls(
                    start_sector as int,
                    data@,
                    0,
                    (data@.len() / (BLOCK_SIZE as nat)) as int,
                    old(self).geometry.sectors_per_op as int,
                )
            },
            r == Err::<(), DSmcError>(DSmcError::AlignmentError) ==> ({
                let w = writable_sectors(data@.len() as int, old(self).geometry.sectors_per_op as int);
                &&& old(self).state == SessionState::Programming
                &&& old(self).geometry.in_bounds(start_sector as int, sectors_for(data@.len() as int))
                &&& data@.len() % (BLOCK_SIZE as nat) != 0
                &&& write_fits(
                    old(self).device.contents(),
                    start_sector as int,
                    data@.subrange(0, w * BLOCK_SIZE),
                )
                &&& final(self).device.contents() == written(
                    old(self).device.contents(),
                    start_sector as int,
                    data@.subrange(0, w * BLOCK_SIZE),
                )
                &&& final(self).device.native_log() == old(self).device.native_log() + write_calls(
                    start_sector as int,
                    data@,
                    0,
                    w,
                    old(self).geometry.sectors_per_op as int,
                )
            }),
            old(self).state == SessionState::Programming && old(self).geometry.in_bounds(
                start_sector as int,
                sectors_for(data@.len() as int),
            ) && r is Err && r != Err::<(), DSmcError>(DSmcError::AlignmentError) ==> is_native_failure(
                r->Err_0,
            ) && stopped_within(
                old(self).device.native_log(),
                final(self).device.native_log(),
                write_calls(
                    start_sector as int,
                    data@,
                    0,
                    writable_sectors(data@.len() as int, old(self).geometry.sectors_per_op as int),
                    old(self).geometry.sectors_per_op as int,
                ),
            ),
            old(self).device.native_statuses().len() <= final(self).device.native_statuses().len(),
            final(self).device.native_statuses().len() - old(self).device.native_statuses().len()
                == final(self).device.native_log().len() - old(self).device.native_log().len(),
            final(self).device.native_statuses().subrange(0, old(self).device.native_statuses().len() as int)
                == old(self).device.native_statuses(),
            old(self).state == SessionState::Programming && old(self).geometry.in_bounds(
                start_sector as int,
                sectors_for(data@.len() as int),
            ) ==> (r is Ok <==> data@.len() % (BLOCK_SIZE as nat) == 0 && all_zero(
                final(self).device.native_statuses(),
                old(self).device.native_statuses().len() as int,
            )),
            old(self).state == SessionState::Programming && old(self).geometry.in_bounds(
                start_sector as int,
                sectors_for(data@.len() as int),
            ) ==> (r == Err::<(), DSmcError>(DSmcError::AlignmentError) <==> data@.len() % (
            BLOCK_SIZE as nat) != 0 && all_zero(
                final(self).device.native_statuses(),
                old(self).device.native_statuses().len() as int,
            )),
            r is Err && r != Err::<(), DSmcError>(DSmcError::AlignmentError) && old(self).state
                == SessionState::Programming && old(self).geometry.in_bounds(
                start_sector as int,
                sectors_for(data@.len() as int),
            ) ==> failed_on_last(old(self).device.native_statuses(), final(self).device.native_statuses(), r->Err_0),
            progress_ok(old(progress).reported(), final(progress).reported(), data@.len() as u64),
            old(self).state != SessionState::Programming || !old(self).geometry.in_bounds(
                start_sector as int,
                sectors_for(data@.len() as int),
            ) ==> final(progress).reported() == old(progress).reported(),
            r is Ok ==> progress_done(
                old(progress).reported(),
                final(progress).reported(),
                data@.len() as u64,
                chunk_count(
                    (data@.len() / (BLOCK_SIZE as nat)) as int,
                    old(self).geometry.sectors_per_op as int,
                ),
            ),
            r is Ok || r == Err::<(), DSmcError>(DSmcError::AlignmentError) ==> final(progress).reported()
                == old(progress).reported() + progress_marks(
                0,
                writable_sectors(data@.len() as int, old(self).geometry.sectors_per_op as int),
                old(self).geometry.sectors_per_op as int,
                data@.len() as u64,
            ),
    {
        proof {
            lemma_progress_unchanged(old(progress).reported(), data@.len() as u64);
        }
        if self.state != SessionState::Programming {
            return Err(DSmcError::InvalidState);
        }
        let len: usize = data.len();
        if let Err(e) = self.geometry.check_bounds(start_sector, sector_count_for(len as u64)) {
            return Err(e);
        }
        let ghost c0 = self.device.contents();
        let ghost log0 = self.device.native_log();
        let ghost st0 = self.device.native_statuses();
        let per_op = self.geometry.sectors_per_op;
        let len64: u64 = len as u64;
        let full = writable_sector_count(len64, per_op);
        let ghost plan = write_calls(start_sector as int, data@, 0, full as int, per_op as int);
        proof {
            assert(log0 + plan =~= self.device.native_log() + write_calls(
                start_sector as int,
                data@,
                0,
                full as int,
                per_op as int,
            ));
        }
        let mut done: u64 = 0;
        let ghost marks = progress_marks(0, full as int, per_op as int, len64);
        proof {
            assert(old(progress).reported() + marks =~= progress.reported() + progress_marks(
                0,
                full as int,
                per_op as int,
                len64,
            ));
        }
        while done < full
            invariant
                self.geometry == old(self).geometry,
                self.state == SessionState::Programming,
                old(self).state == SessionState::Programming,
                c0 == old(self).device.contents(),
                log0 == old(self).device.native_log(),
                plan == write_calls(start_sector as int, data@, 0, full as int, per_op as int),
                full == writable_sectors(len as int, per_op as int),
                old(self).geometry.in_bounds(start_sector as int, sectors_for(data@.len() as int)),
                self.geometry.wf(),
                per_op == self.geometry.sectors_per_op,
                len == data@.len(),
                len64 == len,
                full * BLOCK_SIZE <= len,
                start_sector + full <= self.geometry.total_sectors,
                done <= full,
                self.device.contents().len() == c0.len(),
                self.device.interface_version() == old(self).device.interface_version(),
                log0.len() <= self.device.native_log().len(),
                log0 + plan == self.device.native_log() + write_calls(
                    start_sector as int,
                    data@,
                    done as int,
                    full as int,
                    per_op as int,
                ),
                done == 0 ==> self.device.contents() == c0,
                done == 0 ==> self.device == old(self).device,
                st0 == old(self).device.native_statuses(),
                st0.len() <= self.device.native_statuses().len(),
                self.device.native_statuses().subrange(0, st0.len() as int) == st0,
                all_zero(self.device.native_statuses(), st0.len() as int),
                self.device.native_statuses().len() - st0.len() == self.device.native_log().len()
                    - log0.len(),
                marks == progress_marks(0, full as int, per_op as int, len64),
                old(progress).reported() + marks == progress.reported() + progress_marks(
                    done as int,
                    full as int,
                    per_op as int,
                    len64,
                ),
                progress_ok(old(progress).reported(), progress.reported(), len as u64),
                progress.reported().len() + chunk_count(full - done, per_op as int) == old(
                    progress,
                ).reported().len() + chunk_count(full as int, per_op as int),
                progress.reported().len() > old(progress).reported().len() ==> progress.reported().last().0
                    == done * BLOCK_SIZE,
                done > 0 ==> (start_sector + done) * BLOCK_SIZE <= c0.len(),
                done > 0 ==> self.device.contents() == overwrite(
                    c0,
                    start_sector * BLOCK_SIZE,
                    data@.subrange(0, done * BLOCK_SIZE),
                ),
            decreases full - done,
        {
            let n: u64 = if full - done < per_op {
                full - done
            } else {
                per_op
            };
            let i: usize = (done * BLOCK_SIZE) as usize;
            let j: usize = ((done + n) * BLOCK_SIZE) as usize;
            let chunk = slice_subrange(data, i, j);
            let ghost log = self.device.native_log();
            let ghost st = self.device.native_statuses();
            let r = self.device.block_write((start_sector + done) as i32, chunk);
            proof {
                assert(chunk@.len() % 512 == 0);
                lemma_status_push(st0, st, self.device.native_statuses().last());
                lemma_plan_step(
                    log0,
                    plan,
                    log,
                    NativeCall::BlockWrite(
                        start_sector + done,
                        data@.subrange(done * BLOCK_SIZE, (done + n) * BLOCK_SIZE),
                    ),
                    write_calls(start_sector as int, data@, done + n, full as int, per_op as int),
                );
            }
            if let Err(e) = r {
                return Err(e);
            }
            proof {
                if done > 0 {
                    lemma_overwrite_extend(c0, start_sector * BLOCK_SIZE, data@, i as int, j as int);
                } else {
                    assert(data@.subrange(0, j as int) =~= chunk@);
                }
            }
            done = done + n;
            proof {
                lemma_progress_push(
                    old(progress).reported(),
                    progress.reported(),
                    len as u64,
                    ((done * BLOCK_SIZE) as u64, len as u64),
                );
                lemma_seq_step(
                    old(progress).reported(),
                    marks,
                    progress.reported(),
                    ((done * BLOCK_SIZE) as u64, len64),
                    progress_marks(done as int, full as int, per_op as int, len64),
                );
            }
            progress.update(done * BLOCK_SIZE, len as u64);
        }
        proof {
            assert(self.device.native_log() + Seq::<NativeCall>::empty() =~= self.device.native_log());
            assert(progress.reported() + Seq::<(u64, u64)>::empty() =~= progress.reported());
            if full == 0 {
                assert(data@.subrange(0, 0) =~= Seq::<u8>::empty());
            }
            if len64 % BLOCK_SIZE == 0 {
                assert(data@.subrange(0, full * BLOCK_SIZE) =~= data@);
            }
        }
        if len64 % BLOCK_SIZE != 0 {
            return Err(DSmcError::AlignmentError);
        }
        Ok(())
    }

    /// The expected digest of the first-stage bootloader, fetched by one
    /// native call inside an open programming session.
    pub fn get_exp_digest_1smcbl(&mut self) -> (r: Result<Vec<u8>, DSmcError>)
        ensures
            final(self).geometry == old(self).geometry,
            final(self).state == old(self).state,
            final(self).device.contents() == old(self).device.contents(),
            final(self).device.interface_version() == old(self).device.interface_version(),
            old(self).state != SessionState::Programming ==> r == Err::<Vec<u8>, DSmcError>(
                DSmcError::InvalidState,
            ) && *final(self) == *old(self),
            old(self).state == SessionState::Programming ==> final(self).device.native_log()
                == old(self).device.native_log().push(NativeCall::GetExpDigest1SMCBL),
            old(self).state == SessionState::Programming ==> one_status(
                old(self).device.native_statuses(),
                final(self).device.native_statuses(),
            ),
            old(self).state == SessionState::Programming ==> (r is Ok
                <==> final(self).device.native_statuses().last() == 0),
            old(self).state == SessionState::Programming && r is Err ==> r->Err_0
                == DSmcError::GenericError(final(self).device.native_statuses().last()),
            r is Ok ==> r->Ok_0@.len() == DIGEST_LEN,
            r is Err && old(self).state == SessionState::Programming ==> is_native_failure(r->Err_0),
    {
        if self.state != SessionState::Programming {
            return Err(DSmcError::InvalidState);
        }
        self.device.get_exp_digest_1smcbl()
    }
}

} // verus!
