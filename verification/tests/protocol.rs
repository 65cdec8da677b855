//! The bulk-drain protocol over scripted sessions.

use bpf_iter::{append_chunk, drain_mem, Error, MemSession, ReadOutcome, Record, TaskStat};

fn rec_bytes(pid: i32, tid: i32, uid: u64) -> Vec<u8> {
    let mut b = Vec::new();
    b.extend_from_slice(&pid.to_le_bytes());
    b.extend_from_slice(&tid.to_le_bytes());
    b.extend_from_slice(&uid.to_le_bytes());
    b
}

fn chunk(recs: &[(i32, i32, u64)]) -> Vec<u8> {
    let mut b = Vec::new();
    for &(pid, tid, uid) in recs {
        b.extend_from_slice(&rec_bytes(pid, tid, uid));
    }
    b
}

#[test]
fn drain_complete_two_chunks() {
    // record size 16, reads of 32, 48 and 0 bytes: (32/16)+(48/16) = 5 records,
    // three reads attempted, one close
    let script = vec![
        ReadOutcome::Bytes(chunk(&[(1, 10, 100), (2, 20, 200)])),
        ReadOutcome::Bytes(chunk(&[(3, 30, 300), (4, 40, 400), (5, 50, 500)])),
        ReadOutcome::Bytes(Vec::new()),
    ];
    let mut sess = MemSession::new(script);
    let report = drain_mem::<TaskStat>(3, &mut sess);
    let recs = report.result.unwrap();
    assert_eq!(recs.len(), 5);
    let pids: Vec<i32> = recs.iter().map(|r| r.pid).collect();
    assert_eq!(pids, vec![1, 2, 3, 4, 5]);
    assert_eq!(recs[4], TaskStat { pid: 5, tid: 50, uid: 500 });
    assert_eq!(report.reads, 3);
    assert_eq!(sess.closes, 1);
}

#[test]
fn drain_empty_stream() {
    let mut sess = MemSession::new(vec![ReadOutcome::Bytes(Vec::new())]);
    let report = drain_mem::<TaskStat>(0, &mut sess);
    assert_eq!(report.result.unwrap().len(), 0);
    assert_eq!(report.reads, 1);
    assert_eq!(sess.closes, 1);
}

#[test]
fn drain_exhausted_script() {
    // a script with no outcomes left hands back end-of-stream
    let mut sess = MemSession::new(Vec::new());
    let report = drain_mem::<TaskStat>(0, &mut sess);
    assert_eq!(report.result.unwrap().len(), 0);
    assert_eq!(report.reads, 1);
    assert_eq!(sess.closes, 1);
}

#[test]
fn drain_misaligned_chunk() {
    // 17 bytes with record size 16: InternalError, close called once
    let mut sess = MemSession::new(vec![ReadOutcome::Bytes(vec![0u8; 17])]);
    let report = drain_mem::<TaskStat>(0, &mut sess);
    assert!(matches!(report.result, Err(Error::Internal(_))));
    assert_eq!(report.reads, 1);
    assert_eq!(sess.closes, 1);
}

#[test]
fn drain_misaligned_discards_earlier_records() {
    let script = vec![
        ReadOutcome::Bytes(chunk(&[(1, 10, 100), (2, 20, 200)])),
        ReadOutcome::Bytes(vec![0u8; 17]),
    ];
    let mut sess = MemSession::new(script);
    let report = drain_mem::<TaskStat>(0, &mut sess);
    assert!(matches!(report.result, Err(Error::Internal(_))));
    assert_eq!(report.reads, 2);
    assert_eq!(sess.closes, 1);
}

#[test]
fn drain_read_failure() {
    // a failed read surfaces its error code, close still called once
    let script = vec![
        ReadOutcome::Bytes(chunk(&[(1, 10, 100)])),
        ReadOutcome::Failure(5),
    ];
    let mut sess = MemSession::new(script);
    let report = drain_mem::<TaskStat>(0, &mut sess);
    assert_eq!(report.result.unwrap_err(), Error::System(5));
    assert_eq!(report.reads, 2);
    assert_eq!(sess.closes, 1);
}

#[test]
fn drain_create_failure() {
    // failed session creation: SystemError, no read and no close ever issued
    let script = vec![ReadOutcome::Bytes(chunk(&[(1, 10, 100)]))];
    let mut sess = MemSession::new(script);
    let report = drain_mem::<TaskStat>(-9, &mut sess);
    assert_eq!(report.result.unwrap_err(), Error::System(9));
    assert_eq!(report.reads, 0);
    assert_eq!(sess.closes, 0);
}

#[test]
fn emission_order_preserved() {
    // pids 7 and 3 arrive in that order in one chunk; the drain preserves
    // raw emission order, and only a downstream sort reorders them
    let script = vec![
        ReadOutcome::Bytes(chunk(&[(7, 70, 700), (3, 30, 300)])),
        ReadOutcome::Bytes(Vec::new()),
    ];
    let mut sess = MemSession::new(script);
    let report = drain_mem::<TaskStat>(0, &mut sess);
    let recs = report.result.unwrap();
    let pids: Vec<i32> = recs.iter().map(|r| r.pid).collect();
    assert_eq!(pids, vec![7, 3]);
    let mut sorted = recs.clone();
    sorted.sort_by_key(|r| r.pid);
    let sorted_pids: Vec<i32> = sorted.iter().map(|r| r.pid).collect();
    assert_eq!(sorted_pids, vec![3, 7]);
}

#[test]
fn append_chunk_whole_records() {
    let mut recs: Vec<TaskStat> = Vec::new();
    let c = chunk(&[(1, 2, 3)]);
    assert!(append_chunk::<TaskStat>(&mut recs, &c, 16).is_ok());
    assert_eq!(recs, vec![TaskStat { pid: 1, tid: 2, uid: 3 }]);
}

#[test]
fn append_chunk_partial_record() {
    let mut recs: Vec<TaskStat> = Vec::new();
    let c = chunk(&[(1, 2, 3)]);
    let r = append_chunk::<TaskStat>(&mut recs, &c, 7);
    assert!(matches!(r, Err(Error::Internal(_))));
    assert_eq!(recs.len(), 0);
}

#[test]
fn error_code_accessor() {
    assert_eq!(Error::System(5).code(), Some(5));
    assert_eq!(Error::Internal(String::from("x")).code(), None);
}
