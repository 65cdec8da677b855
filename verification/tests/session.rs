//! The live, descriptor-backed session, exercised over pipes.

use bpf_iter::{drain_created, drain_session, Error, Iter, Link, OpenIter, Record, TaskStat};
use nix::errno::Errno;
use nix::unistd;

fn rec_bytes(pid: i32, tid: i32, uid: u64) -> Vec<u8> {
    let mut b = Vec::new();
    b.extend_from_slice(&pid.to_le_bytes());
    b.extend_from_slice(&tid.to_le_bytes());
    b.extend_from_slice(&uid.to_le_bytes());
    b
}

#[test]
fn parse_exact_values() {
    assert_eq!(TaskStat::size(), 16);
    let b = rec_bytes(-1, 2, 0x0102030405060708);
    let r = TaskStat::parse(&b);
    assert_eq!(r, TaskStat { pid: -1, tid: 2, uid: 0x0102030405060708 });
    let b2 = vec![
        0x07, 0x00, 0x00, 0x00, // pid 7
        0x00, 0x00, 0x00, 0x80, // tid i32::MIN
        0xff, 0xff, 0xff, 0xff, 0xff, 0xff, 0xff, 0xff, // uid u64::MAX
    ];
    let r2 = TaskStat::parse(&b2);
    assert_eq!(r2, TaskStat { pid: 7, tid: i32::MIN, uid: u64::MAX });
}

#[test]
fn link_and_iter_hold_descriptor() {
    let link = Link::new(42);
    assert_eq!(link.get_fd(), 42);
    let it = Iter::new(link);
    assert_eq!(it.link_fd(), 42);
}

#[test]
fn from_create_outcomes() {
    let s = OpenIter::from_create(5).unwrap();
    assert_eq!(s.fd, 5);
    assert!(!s.closed);
    assert_eq!(OpenIter::from_create(-2).unwrap_err(), Error::System(2));
}

#[test]
fn stream_reads_bytes_then_eof() {
    let (rfd, wfd) = unistd::pipe().unwrap();
    let payload = rec_bytes(1, 2, 3);
    assert_eq!(unistd::write(wfd, &payload).unwrap(), 16);
    let mut sess = OpenIter::new(rfd);
    let mut buf = vec![0u8; 8];
    assert_eq!(sess.read(&mut buf).unwrap(), 8);
    assert_eq!(&buf[..], &payload[..8]);
    assert_eq!(sess.read(&mut buf).unwrap(), 8);
    assert_eq!(&buf[..], &payload[8..]);
    unistd::close(wfd).unwrap();
    assert_eq!(sess.read(&mut buf).unwrap(), 0);
    sess.close();
    assert!(sess.closed);
}

#[test]
fn stream_close_once_after_read_errors() {
    // reads never close the session; close releases it exactly once even
    // after several failed reads
    let mut sess = OpenIter::new(-1);
    let mut buf = vec![0u8; 4];
    let ebadf = Errno::EBADF as i32;
    assert_eq!(sess.read(&mut buf).unwrap_err(), Error::System(ebadf));
    assert_eq!(sess.read(&mut buf).unwrap_err(), Error::System(ebadf));
    assert!(!sess.closed);
    sess.close();
    assert!(sess.closed);
    sess.close();
    assert!(sess.closed);
}

#[test]
fn drain_session_reads_pipe_to_end() {
    let (rfd, wfd) = unistd::pipe().unwrap();
    let mut payload = rec_bytes(7, 70, 700);
    payload.extend_from_slice(&rec_bytes(3, 30, 300));
    assert_eq!(unistd::write(wfd, &payload).unwrap(), 32);
    unistd::close(wfd).unwrap();
    let mut sess = OpenIter::new(rfd);
    let recs = drain_session::<TaskStat>(&mut sess, 4).unwrap();
    assert!(sess.closed);
    let pids: Vec<i32> = recs.iter().map(|r| r.pid).collect();
    assert_eq!(pids, vec![7, 3]);
}

#[test]
fn drain_session_misaligned_pipe() {
    let (rfd, wfd) = unistd::pipe().unwrap();
    assert_eq!(unistd::write(wfd, &[0u8; 17]).unwrap(), 17);
    unistd::close(wfd).unwrap();
    let mut sess = OpenIter::new(rfd);
    let r = drain_session::<TaskStat>(&mut sess, 4);
    assert!(matches!(r, Err(Error::Internal(_))));
    assert!(sess.closed);
}

#[test]
fn drain_session_bad_descriptor() {
    let mut sess = OpenIter::new(-1);
    let r = drain_session::<TaskStat>(&mut sess, 4);
    assert_eq!(r.unwrap_err(), Error::System(Errno::EBADF as i32));
    assert!(sess.closed);
}

#[test]
fn drain_created_failure_issues_nothing() {
    let r = drain_created::<TaskStat>(-7, 4);
    assert_eq!(r.unwrap_err(), Error::System(7));
}

#[test]
fn drain_created_reads_pipe() {
    let (rfd, wfd) = unistd::pipe().unwrap();
    assert_eq!(unistd::write(wfd, &rec_bytes(9, 90, 900)).unwrap(), 16);
    unistd::close(wfd).unwrap();
    let recs = drain_created::<TaskStat>(rfd, 4).unwrap();
    assert_eq!(recs, vec![TaskStat { pid: 9, tid: 90, uid: 900 }]);
}
