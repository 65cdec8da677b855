//! Fixed-layout records and how their bytes denote values.
//!
//! A kernel-side producer emits records as fixed-size groups of bytes whose
//! layout is agreed out of band.  A [`Record`] type states how many bytes one
//! record occupies and what value a record-sized group of bytes denotes.

use vstd::prelude::*;

verus! {

/// The unsigned value of four little-endian bytes.
pub open spec fn le32(b: Seq<u8>) -> u32
    recommends
        b.len() == 4,
{
    (b[0] + b[1] * 0x100 + b[2] * 0x1_0000 + b[3] * 0x100_0000) as u32
}

/// The unsigned value of eight little-endian bytes.
pub open spec fn le64(b: Seq<u8>) -> u64
    recommends
        b.len() == 8,
{
    (b[0] + b[1] * 0x100 + b[2] * 0x1_0000 + b[3] * 0x100_0000
        + b[4] * 0x1_0000_0000 + b[5] * 0x100_0000_0000 + b[6] * 0x1_0000_0000_0000
        + b[7] * 0x100_0000_0000_0000) as u64
}

/// The value of a 32-bit word read back as a signed (two's complement) number.
pub open spec fn signed32(v: u32) -> int {
    if v >= 0x8000_0000 {
        v - 0x1_0000_0000
    } else {
        v as int
    }
}

/// The signed value of four little-endian bytes.
pub open spec fn le32_i32(b: Seq<u8>) -> i32
    recommends
        b.len() == 4,
{
    signed32(le32(b)) as i32
}

/// Reads the four little-endian bytes at `at` as an unsigned value.
pub fn read_le32(b: &[u8], at: usize) -> (r: u32)
    requires
        at + 4 <= b@.len(),
    ensures
        r == le32(b@.subrange(at as int, at as int + 4)),
{
    let r = b[at] as u32 + b[at + 1] as u32 * 0x100 + b[at + 2] as u32 * 0x1_0000
        + b[at + 3] as u32 * 0x100_0000;
    proof {
        let s = b@.subrange(at as int, at as int + 4);
        assert(s[0] == b@[at as int]);
        assert(s[1] == b@[at as int + 1]);
        assert(s[2] == b@[at as int + 2]);
        assert(s[3] == b@[at as int + 3]);
    }
    r
}

/// Reads the eight little-endian bytes at `at` as an unsigned value.
pub fn read_le64(b: &[u8], at: usize) -> (r: u64)
    requires
        at + 8 <= b@.len(),
    ensures
        r == le64(b@.subrange(at as int, at as int + 8)),
{
    let r = b[at] as u64 + b[at + 1] as u64 * 0x100 + b[at + 2] as u64 * 0x1_0000
        + b[at + 3] as u64 * 0x100_0000 + b[at + 4] as u64 * 0x1_0000_0000
        + b[at + 5] as u64 * 0x100_0000_0000 + b[at + 6] as u64 * 0x1_0000_0000_0000
        + b[at + 7] as u64 * 0x100_0000_0000_0000;
    proof {
        let s = b@.subrange(at as int, at as int + 8);
        assert(s[0] == b@[at as int]);
        assert(s[1] == b@[at as int + 1]);
        assert(s[2] == b@[at as int + 2]);
        assert(s[3] == b@[at as int + 3]);
        assert(s[4] == b@[at as int + 4]);
        assert(s[5] == b@[at as int + 5]);
        assert(s[6] == b@[at as int + 6]);
        assert(s[7] == b@[at as int + 7]);
    }
    r
}

/// Reinterprets a 32-bit word as a signed (two's complement) number.
pub fn u32_to_i32(v: u32) -> (r: i32)
    ensures
        r as int == signed32(v),
{
    if v >= 0x8000_0000 {
        let d: u32 = v - 0x8000_0000;
        i32::MIN + (d as i32)
    } else {
        v as i32
    }
}

/// A fixed-size, fixed-layout record type whose byte representation matches
/// what the kernel-side producer emits.  The layout contract itself is agreed
/// out of band; a `Record` impl only states how many bytes one record
/// occupies and which value those bytes denote.
pub trait Record: Sized {
    /// The number of bytes one record occupies in the stream.
    spec fn size_spec() -> nat;

    /// The record denoted by one record-sized group of bytes.
    spec fn parse_spec(bytes: Seq<u8>) -> Self;

    /// A record occupies at least one byte.
    proof fn size_positive()
        ensures
            Self::size_spec() > 0,
    ;

    /// The number of bytes one record occupies, as a runtime value.
    fn size() -> (n: usize)
        ensures
            n == Self::size_spec(),
    ;

    /// Reconstructs one record from its bytes.
    fn parse(bytes: &[u8]) -> (r: Self)
        requires
            bytes@.len() == Self::size_spec(),
        ensures
            r == Self::parse_spec(bytes@),
    ;
}

/// One per-task statistics record as the producer lays it out: pid and tid as
/// little-endian 32-bit signed values, then uid as a little-endian 64-bit
/// value — 16 bytes in all.
#[derive(Clone, Copy, Debug, PartialEq, Eq, Structural)]
pub struct TaskStat {
    pub pid: i32,
    pub tid: i32,
    pub uid: u64,
}

impl Record for TaskStat {
    open spec fn size_spec() -> nat {
        16
    }

    open spec fn parse_spec(bytes: Seq<u8>) -> Self {
        TaskStat {
            pid: le32_i32(bytes.subrange(0, 4)),
            tid: le32_i32(bytes.subrange(4, 8)),
            uid: le64(bytes.subrange(8, 16)),
        }
    }

    proof fn size_positive() {
    }

    fn size() -> (n: usize) {
        16
    }

    fn parse(bytes: &[u8]) -> (r: Self) {
        let pid = u32_to_i32(read_le32(bytes, 0));
        let tid = u32_to_i32(read_le32(bytes, 4));
        let uid = read_le64(bytes, 8);
        TaskStat { pid, tid, uid }
    }
}

} // verus!
