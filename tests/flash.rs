use dsmc::{
    check_status, to_hexstr, Command, DSMCFunctions, DSmcError, Geometry, Outcome, Progress,
    SectorRange, Session, SessionState, SimNand, NAND_SECTORS, SIM_FAIL, SIM_INVALID_ARG,
};

struct Recorder {
    updates: Vec<(u64, u64)>,
}

impl Progress for Recorder {
    fn update(&mut self, done: u64, total: u64) {
        self.updates.push((done, total));
    }
}

fn recorder() -> Recorder {
    Recorder { updates: Vec::new() }
}

const DIGEST: [u8; 16] = [
    0x00, 0x11, 0x22, 0x33, 0x44, 0x55, 0x66, 0x77, 0x88, 0x99, 0xaa, 0xbb, 0xcc, 0xdd, 0xee, 0xff,
];

fn small_session(sectors: u64, per_op: u64) -> Session<SimNand> {
    Session::new(SimNand::new(sectors, 3, &DIGEST), Geometry::new(sectors, per_op))
}

fn open_session(sectors: u64, per_op: u64) -> Session<SimNand> {
    let mut s = small_session(sectors, per_op);
    assert_eq!(s.check_version(), Ok(3));
    assert_eq!(s.initialize(0), Ok(()));
    assert_eq!(s.begin_programming(), Ok(()));
    s
}

fn pattern(len: usize) -> Vec<u8> {
    (0..len).map(|i| (i * 7 % 251) as u8).collect()
}

#[test]
fn nand_geometry_has_expected_sector_count() {
    assert_eq!(NAND_SECTORS, 10_354_688);
    let g = Geometry::nand();
    assert_eq!(g.total_sectors, 10_354_688);
    assert_eq!(g.sectors_per_op, 8);
}

#[test]
fn read_range_starts_in_sector_of_offset() {
    let g = Geometry::nand();
    let r = g.read_range(1000, Some(1)).unwrap();
    assert_eq!(r, SectorRange { start_sector: 1, sector_count: 1 });
    assert!(r.start_sector * 512 <= 1000 && 1000 < (r.start_sector + 1) * 512);
    let r = g.read_range(512, Some(1025)).unwrap();
    assert_eq!(r, SectorRange { start_sector: 1, sector_count: 3 });
    let r = g.read_range(0, None).unwrap();
    assert_eq!(r, SectorRange { start_sector: 0, sector_count: 10_354_688 });
    let r = g.read_range(1024, None).unwrap();
    assert_eq!(r, SectorRange { start_sector: 2, sector_count: 10_354_686 });
}

#[test]
fn read_range_out_of_bounds() {
    let g = Geometry::nand();
    assert_eq!(g.read_range(10_354_688 * 512, Some(1)), Err(DSmcError::OutOfRange));
    assert_eq!(g.read_range(10_354_688 * 512, None), Err(DSmcError::OutOfRange));
    assert_eq!(g.read_range(10_354_687 * 512, Some(513)), Err(DSmcError::OutOfRange));
    assert_eq!(
        g.read_range(10_354_687 * 512, Some(512)),
        Ok(SectorRange { start_sector: 10_354_687, sector_count: 1 })
    );
}

#[test]
fn write_range_rounds_up() {
    let g = Geometry::new(16, 8);
    assert_eq!(g.write_range(0, 1), Ok(SectorRange { start_sector: 0, sector_count: 1 }));
    assert_eq!(g.write_range(600, 4096), Ok(SectorRange { start_sector: 1, sector_count: 8 }));
    assert_eq!(g.write_range(0, 16 * 512 + 1), Err(DSmcError::OutOfRange));
    assert_eq!(g.write_range(16 * 512, 0), Err(DSmcError::OutOfRange));
}

#[test]
fn status_codes_map_to_results() {
    assert_eq!(check_status(0), Ok(()));
    assert_eq!(check_status(5), Err(DSmcError::GenericError(5)));
    assert_eq!(check_status(-1), Err(DSmcError::GenericError(-1)));
}

#[test]
fn hex_rendering() {
    assert_eq!(to_hexstr(&[]), "");
    assert_eq!(to_hexstr(&[0x00, 0xab, 0x7f, 0x10]), "00ab7f10");
    let h = to_hexstr(&DIGEST);
    assert_eq!(h, "00112233445566778899aabbccddeeff");
    assert_eq!(h.len(), 32);
    assert!(h.chars().all(|c| c.is_ascii_hexdigit() && !c.is_ascii_uppercase()));
}

#[test]
fn write_then_read_round_trip() {
    let mut s = open_session(64, 8);
    let data = pattern(10 * 512);
    let mut p = recorder();
    assert_eq!(s.write(3, &data, &mut p), Ok(()));
    assert_eq!(p.updates, vec![(4096, 5120), (5120, 5120)]);
    let mut p = recorder();
    let back = s.read(3, 10, &mut p).unwrap();
    assert_eq!(back, data);
    assert_eq!(p.updates, vec![(4096, 5120), (5120, 5120)]);
    // sectors around the written range stay erased
    let before = s.read(2, 1, &mut recorder()).unwrap();
    assert!(before.iter().all(|b| *b == 0xff));
    let after = s.read(13, 1, &mut recorder()).unwrap();
    assert!(after.iter().all(|b| *b == 0xff));
}

#[test]
fn read_chunks_are_concatenated_in_order() {
    let mut s = open_session(32, 3);
    let data = pattern(32 * 512);
    assert_eq!(s.write(0, &data, &mut recorder()), Ok(()));
    let mut p = recorder();
    let back = s.read(5, 7, &mut p).unwrap();
    assert_eq!(back.len(), 7 * 512);
    assert_eq!(back, data[5 * 512..12 * 512].to_vec());
    let done: Vec<u64> = p.updates.iter().map(|u| u.0).collect();
    assert_eq!(done, vec![1536, 3072, 3584]);
}

#[test]
fn out_of_range_read_and_write_are_refused() {
    let mut s = open_session(16, 8);
    let before = s.device.data().clone();
    assert_eq!(s.read(16, 1, &mut recorder()), Err(DSmcError::OutOfRange));
    assert_eq!(s.read(10, 7, &mut recorder()), Err(DSmcError::OutOfRange));
    assert_eq!(s.write(15, &pattern(1024), &mut recorder()), Err(DSmcError::OutOfRange));
    assert_eq!(s.write(16, &[], &mut recorder()), Err(DSmcError::OutOfRange));
    assert_eq!(s.device.data(), &before);
    assert_eq!(s.state, SessionState::Programming);
}

#[test]
fn unaligned_write_sends_whole_chunks_then_fails() {
    let mut s = open_session(16, 8);
    let data = pattern(4096 + 100);
    let mut p = recorder();
    assert_eq!(s.write(2, &data, &mut p), Err(DSmcError::AlignmentError));
    assert_eq!(p.updates, vec![(4096, 4196)]);
    let written = s.device.data();
    assert_eq!(written[2 * 512..2 * 512 + 4096].to_vec(), data[..4096].to_vec());
    assert!(written[2 * 512 + 4096..].iter().all(|b| *b == 0xff));
}

#[test]
fn short_unaligned_write_sends_nothing() {
    let mut s = open_session(16, 8);
    let before = s.device.data().clone();
    let mut p = recorder();
    assert_eq!(s.write(0, &pattern(1000), &mut p), Err(DSmcError::AlignmentError));
    assert!(p.updates.is_empty());
    assert_eq!(s.device.data(), &before);
}

#[test]
fn device_refuses_unaligned_buffer() {
    let mut d = SimNand::new(2, 3, &DIGEST);
    assert_eq!(d.block_write(0, &[0u8]), Err(DSmcError::AlignmentError));
    assert!(d.data().iter().all(|b| *b == 0xff));
}

#[test]
fn empty_transfers_succeed() {
    let mut s = open_session(16, 8);
    assert_eq!(s.read(15, 0, &mut recorder()), Ok(vec![]));
    assert_eq!(s.write(15, &[], &mut recorder()), Ok(()));
}

#[test]
fn one_byte_write_on_full_nand_is_alignment_error() {
    let mut s = Session::new(SimNand::new(4, 3, &DIGEST), Geometry::nand());
    let r = s.run(&Command::Write { offset: 0, data: vec![0x42] }, false, &mut recorder());
    assert_eq!(r, Err(DSmcError::AlignmentError));
    assert_eq!(s.state, SessionState::Closed);
    assert!(s.device.data().iter().all(|b| *b == 0xff));
}

#[test]
fn read_on_unopened_session_fails() {
    let mut s = small_session(16, 8);
    let mut p = recorder();
    assert_eq!(s.read(0, 16, &mut p), Err(DSmcError::InvalidState));
    assert!(p.updates.is_empty());
    assert_eq!(s.state, SessionState::Unopened);
}

#[test]
fn lifecycle_out_of_order_is_refused() {
    let mut s = small_session(16, 8);
    assert_eq!(s.initialize(0), Err(DSmcError::InvalidState));
    assert_eq!(s.begin_programming(), Err(DSmcError::InvalidState));
    assert_eq!(s.end_programming(), Err(DSmcError::InvalidState));
    assert_eq!(s.set_safe_transfer_mode(true), Err(DSmcError::InvalidState));
    assert_eq!(s.write(0, &pattern(512), &mut recorder()), Err(DSmcError::InvalidState));
    assert_eq!(s.get_exp_digest_1smcbl(), Err(DSmcError::InvalidState));
    assert_eq!(s.check_version(), Ok(3));
    assert_eq!(s.state, SessionState::VersionChecked);
    assert_eq!(s.check_version(), Err(DSmcError::InvalidState));
    assert_eq!(s.initialize(0), Ok(()));
    assert_eq!(s.set_safe_transfer_mode(true), Ok(()));
    assert_eq!(s.begin_programming(), Ok(()));
    assert_eq!(s.state, SessionState::Programming);
    assert_eq!(s.end_programming(), Ok(()));
    assert_eq!(s.state, SessionState::Initialized);
    s.release();
    assert_eq!(s.state, SessionState::Closed);
    s.release();
    assert_eq!(s.state, SessionState::Closed);
}

#[test]
fn wrong_version_is_rejected() {
    let mut s = Session::new(SimNand::new(16, 2, &DIGEST), Geometry::new(16, 8));
    assert_eq!(s.check_version(), Err(DSmcError::InvalidVersion(2)));
    assert_eq!(s.state, SessionState::Unopened);
    let mut s = Session::new(SimNand::new(16, 4, &DIGEST), Geometry::new(16, 8));
    let r = s.run(&Command::Read { offset: 0, length: None }, false, &mut recorder());
    assert_eq!(r, Err(DSmcError::InvalidVersion(4)));
    assert_eq!(s.state, SessionState::Closed);
}

#[test]
fn native_failure_is_surfaced() {
    // the geometry claims more sectors than the simulated chip holds
    let mut s = Session::new(SimNand::new(4, 3, &DIGEST), Geometry::new(16, 8));
    let r = s.run(&Command::Read { offset: 0, length: Some(8 * 512) }, false, &mut recorder());
    assert_eq!(r, Err(DSmcError::GenericError(SIM_INVALID_ARG)));
    assert_eq!(s.state, SessionState::Closed);
    let mut s = Session::new(SimNand::new(4, 3, &[1, 2, 3]), Geometry::new(4, 8));
    let r = s.run(&Command::Digest, false, &mut recorder());
    assert_eq!(r, Err(DSmcError::GenericError(SIM_FAIL)));
}

#[test]
fn run_write_then_run_read() {
    let mut s = Session::new(SimNand::new(32, 3, &DIGEST), Geometry::new(32, 8));
    let data = pattern(9 * 512);
    let r = s.run(&Command::Write { offset: 1024 + 17, data: data.clone() }, true, &mut recorder());
    assert_eq!(r, Ok(Outcome::Written));
    assert_eq!(s.state, SessionState::Closed);
    let mut s = Session::new(s.device, Geometry::new(32, 8));
    let r = s.run(&Command::Read { offset: 1024 + 300, length: Some(9 * 512 - 400) }, false, &mut recorder());
    assert_eq!(r, Ok(Outcome::Data(data)));
    let mut s = Session::new(s.device, Geometry::new(32, 8));
    let r = s.run(&Command::Read { offset: 31 * 512, length: None }, false, &mut recorder());
    assert_eq!(r, Ok(Outcome::Data(vec![0xff; 512])));
}

#[test]
fn run_out_of_range_read_is_refused() {
    let mut s = Session::new(SimNand::new(16, 3, &DIGEST), Geometry::new(16, 8));
    let mut p = recorder();
    let r = s.run(&Command::Read { offset: 16 * 512, length: Some(1) }, false, &mut p);
    assert_eq!(r, Err(DSmcError::OutOfRange));
    assert_eq!(s.state, SessionState::Unopened);
    assert!(p.updates.is_empty());
    let r = s.run(&Command::Write { offset: 15 * 512, data: pattern(1024) }, false, &mut p);
    assert_eq!(r, Err(DSmcError::OutOfRange));
    assert_eq!(s.state, SessionState::Unopened);
    assert!(s.device.data().iter().all(|b| *b == 0xff));
}

#[test]
fn digest_is_sixteen_bytes_rendered_as_hex() {
    let mut s = Session::new(SimNand::new(4, 3, &DIGEST), Geometry::new(4, 8));
    let r = s.run(&Command::Digest, false, &mut recorder());
    let digest = match r {
        Ok(Outcome::Digest(d)) => d,
        other => panic!("unexpected {:?}", other),
    };
    assert_eq!(digest.len(), 16);
    assert_eq!(to_hexstr(&digest), "00112233445566778899aabbccddeeff");
}

#[test]
fn simulated_device_counts_contents() {
    let mut d = SimNand::new(2, 3, &DIGEST);
    assert_eq!(d.get_interface_version(), Ok(3));
    assert_eq!(d.block_write(1, &pattern(512)), Ok(()));
    assert_eq!(d.block_read(1, 1), Ok(pattern(512)));
    assert_eq!(d.block_read(1, 2), Err(DSmcError::GenericError(SIM_INVALID_ARG)));
    assert_eq!(d.power_button(), Ok(()));
    assert_eq!(d.set_exit_event(), Ok(()));
}

#[test]
fn progress_log_records_every_chunk() {
    let mut s = open_session(64, 4);
    let mut log = dsmc::ProgressLog::new();
    assert_eq!(s.write(0, &pattern(9 * 512), &mut log), Ok(()));
    assert_eq!(log.updates, vec![(2048, 4608), (4096, 4608), (4608, 4608)]);
    let mut log = dsmc::ProgressLog::new();
    assert_eq!(s.read(0, 0, &mut log), Ok(vec![]));
    assert!(log.updates.is_empty());
}

#[test]
fn shutdown_closes_programming_then_releases() {
    let mut s = open_session(8, 8);
    assert_eq!(s.shutdown(), Ok(()));
    assert_eq!(s.state, SessionState::Closed);
    let mut s = small_session(8, 8);
    assert_eq!(s.shutdown(), Ok(()));
    assert_eq!(s.state, SessionState::Closed);
}

#[test]
fn run_unaligned_write_keeps_whole_chunks() {
    let mut s = Session::new(SimNand::new(32, 3, &DIGEST), Geometry::new(32, 2));
    let data = pattern(3 * 1024 + 10);
    let mut p = recorder();
    let r = s.run(&Command::Write { offset: 0, data: data.clone() }, false, &mut p);
    assert_eq!(r, Err(DSmcError::AlignmentError));
    assert_eq!(s.state, SessionState::Closed);
    assert_eq!(p.updates, vec![(1024, 3082), (2048, 3082), (3072, 3082)]);
    assert_eq!(s.device.data()[..3072].to_vec(), data[..3072].to_vec());
    assert!(s.device.data()[3072..].iter().all(|b| *b == 0xff));
}
