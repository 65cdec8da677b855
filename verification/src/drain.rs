//! The bulk-drain protocol: reading a session to end-of-stream and
//! materializing every record it emitted.
//!
//! A drain issues read after read.  A read hands back either some bytes — a
//! chunk — or an OS error; an empty chunk means end-of-stream.  Every chunk
//! must be a whole number of records; anything else is a protocol violation
//! the drain cannot recover from.  Whatever happens, a session that was
//! created is closed exactly once.
//!
//! The model here is explicit: a whole read sequence is a value, and spec
//! functions say with which status a drain of it ends, how many reads it
//! issues, and which records it accumulates.  [`drain_mem`] runs the protocol
//! over such a sequence and is proved to agree with the model; the lemmas at
//! the end state the protocol's laws over the model.

use vstd::arithmetic::div_mod::lemma_fundamental_div_mod;
use vstd::arithmetic::div_mod::lemma_mod_add_multiples_vanish;
use vstd::arithmetic::div_mod::lemma_mod_multiples_basic;
use vstd::arithmetic::div_mod::lemma_mod_sub_multiples_vanish;
use vstd::arithmetic::div_mod::lemma_small_mod;
use vstd::arithmetic::mul::lemma_mul_basics;
use vstd::arithmetic::mul::lemma_mul_is_commutative;
use vstd::arithmetic::mul::lemma_mul_is_distributive_add;
use vstd::arithmetic::mul::lemma_mul_is_distributive_sub;
use vstd::prelude::*;
use vstd::slice::slice_subrange;

use crate::error::Error;
use crate::record::Record;

verus! {

/// One outcome of a read from a byte-stream session: the bytes the producer
/// handed back (none meaning end-of-stream), or an OS error code.
#[derive(Debug)]
pub enum ReadOutcome {
    Bytes(Vec<u8>),
    Failure(i32),
}

/// How a bulk drain of a read sequence ends.
pub enum DrainStatus {
    /// End-of-stream was reached; every chunk was a whole number of records.
    Done,
    /// A read failed with this OS error code.
    Sys(i32),
    /// A read handed back a byte count that is not a whole number of records.
    Misaligned,
}

/// The records denoted by a chunk: the first record-sized group of bytes,
/// then the records of the rest, in order.
pub open spec fn parse_all<R: Record>(chunk: Seq<u8>) -> Seq<R>
    decreases chunk.len(),
{
    if R::size_spec() == 0 || chunk.len() < R::size_spec() {
        Seq::empty()
    } else {
        seq![R::parse_spec(chunk.take(R::size_spec() as int))]
            + parse_all::<R>(chunk.skip(R::size_spec() as int))
    }
}

/// The status a bulk drain of these read outcomes ends with, for records of
/// `rs` bytes.
pub open spec fn model_status(script: Seq<ReadOutcome>, rs: nat) -> DrainStatus
    decreases script.len(),
{
    if script.len() == 0 {
        DrainStatus::Done
    } else {
        match script[0] {
            ReadOutcome::Failure(e) => DrainStatus::Sys(e),
            ReadOutcome::Bytes(b) => if b@.len() == 0 {
                DrainStatus::Done
            } else if b@.len() % rs == 0 {
                model_status(script.drop_first(), rs)
            } else {
                DrainStatus::Misaligned
            },
        }
    }
}

/// The number of reads a bulk drain of these outcomes issues, the stopping
/// read included; a drain that exhausts the outcomes issues one read more,
/// which hands back end-of-stream.
pub open spec fn model_reads(script: Seq<ReadOutcome>, rs: nat) -> nat
    decreases script.len(),
{
    if script.len() == 0 {
        1
    } else {
        match script[0] {
            ReadOutcome::Failure(_) => 1,
            ReadOutcome::Bytes(b) => if b@.len() == 0 || b@.len() % rs != 0 {
                1
            } else {
                1 + model_reads(script.drop_first(), rs)
            },
        }
    }
}

/// The records a bulk drain of these outcomes accumulates before it stops:
/// chunk by chunk, record by record within each chunk, in emission order.
pub open spec fn model_records<R: Record>(script: Seq<ReadOutcome>) -> Seq<R>
    decreases script.len(),
{
    if script.len() == 0 {
        Seq::empty()
    } else {
        match script[0] {
            ReadOutcome::Failure(_) => Seq::empty(),
            ReadOutcome::Bytes(b) => if b@.len() == 0 || b@.len() % R::size_spec() != 0 {
                Seq::empty()
            } else {
                parse_all::<R>(b@) + model_records::<R>(script.drop_first())
            },
        }
    }
}

/// A session backed by a fixed sequence of read outcomes, counting how often
/// its close function is invoked.  It stands in for a live kernel session
/// whose reads are known up front, so that a drain over it is determined by
/// its script alone.
pub struct MemSession {
    /// The outcomes its reads hand back, in order.
    pub script: Vec<ReadOutcome>,
    /// How many times `close` has been invoked.
    pub closes: u64,
}

impl MemSession {
    /// A session that will hand back these outcomes, never yet closed.
    pub fn new(script: Vec<ReadOutcome>) -> (s: Self)
        ensures
            s.script == script,
            s.closes == 0,
    {
        MemSession { script, closes: 0 }
    }

    /// Invokes the session's close function: here, that only counts.
    pub fn close(&mut self)
        requires
            old(self).closes < u64::MAX,
        ensures
            final(self).script == old(self).script,
            final(self).closes == old(self).closes + 1,
    {
        self.closes = self.closes + 1;
    }
}

/// What a bulk drain reports: the typed result, and how many reads it issued.
pub struct DrainReport<R> {
    /// The accumulated records, or the failure that discarded them.
    pub result: Result<Vec<R>, Error>,
    /// How many reads the drain issued.
    pub reads: u64,
}

/// Appends the records carried by the first `n` bytes of `chunk`, where `n`
/// is the byte count one read handed back.  A count that is not a whole
/// number of records is a protocol violation: nothing is appended and the
/// drain must stop.
pub fn append_chunk<R: Record>(records: &mut Vec<R>, chunk: &Vec<u8>, n: usize) -> (r: Result<
    (),
    Error,
>)
    requires
        n <= chunk@.len(),
        R::size_spec() > 0,
    ensures
        n as nat % R::size_spec() == 0 ==> r is Ok && final(records)@ == old(records)@
            + parse_all::<R>(chunk@.take(n as int)),
        n as nat % R::size_spec() != 0 ==> r is Err && r->Err_0 is Internal && final(records)@
            == old(records)@,
{
    let rs = R::size();
    if n % rs != 0 {
        return Err(Error::Internal("read size is not a whole number of records".to_owned()));
    }
    let mut off: usize = 0;
    while off < n
        invariant
            off <= n,
            off % rs == 0,
            n % rs == 0,
            n <= chunk@.len(),
            rs == R::size_spec(),
            rs > 0,
            old(records)@ + parse_all::<R>(chunk@.take(n as int)) == records@ + parse_all::<R>(
                chunk@.subrange(off as int, n as int),
            ),
        decreases n - off,
    {
        proof {
            let m = rs as int;
            lemma_fundamental_div_mod(off as int, m);
            lemma_fundamental_div_mod(n as int, m);
            let qo = off as int / m;
            let qn = n as int / m;
            lemma_mul_is_distributive_sub(m, qn, qo);
            assert(n as int - off as int == m * (qn - qo));
            lemma_mul_is_commutative(m, qn - qo);
            lemma_mod_multiples_basic(qn - qo, m);
            assert((n as int - off as int) % m == 0);
            if n - off < rs {
                lemma_small_mod((n - off) as nat, rs as nat);
            }
            assert(n - off >= rs);
            lemma_mod_add_multiples_vanish(off as int, m);
            assert((off as int + m) % m == 0);
        }
        let piece = slice_subrange(chunk.as_slice(), off, off + rs);
        let rec = R::parse(piece);
        proof {
            let rest = chunk@.subrange(off as int, n as int);
            assert(rest.take(rs as int) =~= piece@);
            assert(rest.skip(rs as int) =~= chunk@.subrange(off as int + rs, n as int));
            assert(parse_all::<R>(rest) == seq![R::parse_spec(piece@)] + parse_all::<R>(
                chunk@.subrange(off as int + rs, n as int),
            ));
        }
        let ghost prev = records@;
        records.push(rec);
        proof {
            assert(prev + (seq![rec] + parse_all::<R>(chunk@.subrange(off as int + rs, n as int)))
                =~= records@ + parse_all::<R>(chunk@.subrange(off as int + rs, n as int)));
        }
        off = off + rs;
    }
    proof {
        assert(chunk@.subrange(n as int, n as int) =~= Seq::<u8>::empty());
        assert(parse_all::<R>(chunk@.subrange(n as int, n as int)) == Seq::<R>::empty());
        assert(records@ + Seq::<R>::empty() =~= records@);
    }
    Ok(())
}

/// Dropping the head of a suffix of `s` gives the next suffix.
proof fn lemma_skip_unfold<A>(s: Seq<A>, i: int)
    requires
        0 <= i < s.len(),
    ensures
        s.skip(i).len() == s.len() - i,
        s.skip(i)[0] == s[i],
        s.skip(i).drop_first() == s.skip(i + 1),
{
    assert(s.skip(i).drop_first() =~= s.skip(i + 1));
}

/// Fully drains a scripted session into typed records, per the bulk-drain
/// protocol: create the session (a negative `created` means the creation
/// call failed with that error, negated), then read chunk after chunk until
/// end-of-stream, a failed read, or a chunk that is not a whole number of
/// records.  A session that was created is closed exactly once, on every
/// exit path; on a failed creation, no read and no close is ever issued.
#[verifier::loop_isolation(false)]
pub fn drain_mem<R: Record>(created: i32, sess: &mut MemSession) -> (r: DrainReport<R>)
    requires
        created > i32::MIN,
        old(sess).script@.len() < usize::MAX,
        old(sess).closes < u64::MAX,
    ensures
        final(sess).script == old(sess).script,
        created < 0 ==> final(sess).closes == old(sess).closes && r.reads == 0 && r.result
            == Err::<Vec<R>, Error>(Error::System((0 - created) as i32)),
        created >= 0 ==> {
            &&& final(sess).closes == old(sess).closes + 1
            &&& r.reads == model_reads(old(sess).script@, R::size_spec())
            &&& (model_status(old(sess).script@, R::size_spec()) is Done ==> r.result is Ok
                && r.result->Ok_0@ == model_records::<R>(old(sess).script@))
            &&& (model_status(old(sess).script@, R::size_spec()) matches DrainStatus::Sys(e)
                ==> r.result == Err::<Vec<R>, Error>(Error::System(e)))
            &&& (model_status(old(sess).script@, R::size_spec()) is Misaligned ==> r.result
                is Err && r.result->Err_0 is Internal)
        },
{
    if created < 0 {
        return DrainReport { result: Err(Error::System(-created)), reads: 0 };
    }
    proof {
        R::size_positive();
    }
    let ghost script = old(sess).script@;
    let ghost rs = R::size_spec();
    let mut records: Vec<R> = Vec::new();
    let mut i: usize = 0;
    proof {
        assert(script.skip(0) =~= script);
        assert(Seq::<R>::empty() + model_records::<R>(script) =~= model_records::<R>(script));
    }
    loop
        invariant
            i <= script.len(),
            sess.script == old(sess).script,
            sess.script@ == script,
            sess.closes == old(sess).closes,
            model_status(script.skip(i as int), rs) == model_status(script, rs),
            i + model_reads(script.skip(i as int), rs) == model_reads(script, rs),
            records@ + model_records::<R>(script.skip(i as int)) == model_records::<R>(script),
        decreases script.len() - i,
    {
        if i >= sess.script.len() {
            proof {
                assert(script.skip(i as int) =~= Seq::<ReadOutcome>::empty());
                assert(records@ + Seq::<R>::empty() =~= records@);
            }
            sess.close();
            return DrainReport { result: Ok(records), reads: i as u64 + 1 };
        }
        proof {
            lemma_skip_unfold(script, i as int);
        }
        match &sess.script[i] {
            ReadOutcome::Failure(e) => {
                let code = *e;
                sess.close();
                return DrainReport { result: Err(Error::System(code)), reads: i as u64 + 1 };
            },
            ReadOutcome::Bytes(b) => {
                let n = b.len();
                if n == 0 {
                    proof {
                        assert(records@ + Seq::<R>::empty() =~= records@);
                    }
                    sess.close();
                    return DrainReport { result: Ok(records), reads: i as u64 + 1 };
                }
                let ghost prev = records@;
                match append_chunk::<R>(&mut records, b, n) {
                    Ok(_) => {
                        proof {
                            assert(b@.take(n as int) =~= b@);
                            assert((prev + parse_all::<R>(b@)) + model_records::<R>(
                                script.skip(i as int + 1),
                            ) =~= prev + (parse_all::<R>(b@) + model_records::<R>(
                                script.skip(i as int + 1),
                            )));
                        }
                    },
                    Err(err) => {
                        sess.close();
                        return DrainReport { result: Err(err), reads: i as u64 + 1 };
                    },
                }
                i = i + 1;
            },
        }
    }
}

/// All the bytes the reads of a script hand back, in order.
pub open spec fn concat_chunks(script: Seq<ReadOutcome>) -> Seq<u8>
    decreases script.len(),
{
    if script.len() == 0 {
        Seq::empty()
    } else {
        match script[0] {
            ReadOutcome::Failure(_) => Seq::empty(),
            ReadOutcome::Bytes(b) => b@ + concat_chunks(script.drop_first()),
        }
    }
}

/// Parsing distributes over splitting the byte stream at a record boundary.
pub proof fn lemma_parse_all_append<R: Record>(a: Seq<u8>, b: Seq<u8>)
    requires
        a.len() % R::size_spec() == 0,
    ensures
        parse_all::<R>(a + b) == parse_all::<R>(a) + parse_all::<R>(b),
    decreases a.len(),
{
    R::size_positive();
    let rs = R::size_spec();
    if a.len() == 0 {
        assert(a + b =~= b);
        assert(parse_all::<R>(a) == Seq::<R>::empty());
        assert(Seq::<R>::empty() + parse_all::<R>(b) =~= parse_all::<R>(b));
    } else {
        if a.len() < rs {
            lemma_small_mod(a.len(), rs);
        }
        assert(a.len() >= rs);
        assert((a + b).take(rs as int) =~= a.take(rs as int));
        assert((a + b).skip(rs as int) =~= a.skip(rs as int) + b);
        lemma_mod_sub_multiples_vanish(a.len() as int, rs as int);
        assert(a.skip(rs as int).len() % rs == 0);
        lemma_parse_all_append::<R>(a.skip(rs as int), b);
        assert(seq![R::parse_spec(a.take(rs as int))] + (parse_all::<R>(a.skip(rs as int))
            + parse_all::<R>(b)) =~= (seq![R::parse_spec(a.take(rs as int))] + parse_all::<R>(
            a.skip(rs as int),
        )) + parse_all::<R>(b));
    }
}

/// A chunk of whole records parses to chunk-length-over-record-size records.
pub proof fn lemma_parse_all_len<R: Record>(chunk: Seq<u8>)
    requires
        chunk.len() % R::size_spec() == 0,
    ensures
        R::size_spec() * parse_all::<R>(chunk).len() == chunk.len(),
    decreases chunk.len(),
{
    R::size_positive();
    let rs = R::size_spec();
    lemma_mul_basics(rs as int);
    if chunk.len() == 0 {
        assert(parse_all::<R>(chunk) == Seq::<R>::empty());
    } else {
        if chunk.len() < rs {
            lemma_small_mod(chunk.len(), rs);
        }
        assert(chunk.len() >= rs);
        lemma_mod_sub_multiples_vanish(chunk.len() as int, rs as int);
        assert(chunk.skip(rs as int).len() % rs == 0);
        lemma_parse_all_len::<R>(chunk.skip(rs as int));
        let tail_count = parse_all::<R>(chunk.skip(rs as int)).len();
        assert(parse_all::<R>(chunk).len() == 1 + tail_count);
        lemma_mul_is_distributive_add(rs as int, 1, tail_count as int);
        assert(rs * (1 + tail_count) == rs + rs * tail_count);
    }
}

/// Law: when every read hands back a whole number of records and the stream
/// then ends with a zero-byte read, the drain completes, issues one read per
/// outcome, and its records are exactly the records of the concatenated byte
/// stream, chunk by chunk in emission order — as many as the bytes hold.
pub proof fn lemma_drain_complete<R: Record>(script: Seq<ReadOutcome>)
    requires
        script.len() > 0,
        forall|i: int| 0 <= i < script.len() ==> (#[trigger] script[i]) is Bytes,
        forall|i: int| 0 <= i < script.len() ==> ((#[trigger] script[i])->Bytes_0)@.len()
            % R::size_spec() == 0,
        forall|i: int| 0 <= i < script.len() - 1 ==> ((#[trigger] script[i])->Bytes_0)@.len() > 0,
        (script[script.len() - 1]->Bytes_0)@.len() == 0,
    ensures
        model_status(script, R::size_spec()) is Done,
        model_reads(script, R::size_spec()) == script.len(),
        model_records::<R>(script) == parse_all::<R>(concat_chunks(script)),
        R::size_spec() * model_records::<R>(script).len() == concat_chunks(script).len(),
    decreases script.len(),
{
    R::size_positive();
    let rs = R::size_spec();
    let b = script[0]->Bytes_0;
    if script.len() == 1 {
        assert(b@.len() == 0);
        assert(script.drop_first().len() == 0);
        assert(b@ + concat_chunks(script.drop_first()) =~= Seq::<u8>::empty());
        assert(model_records::<R>(script) == Seq::<R>::empty());
        lemma_mul_basics(rs as int);
    } else {
        let rest = script.drop_first();
        assert(forall|j: int| 0 <= j < rest.len() ==> rest[j] == script[j + 1]);
        assert(b@.len() > 0);
        lemma_drain_complete::<R>(rest);
        lemma_parse_all_append::<R>(b@, concat_chunks(rest));
        assert(model_records::<R>(script) == parse_all::<R>(b@) + model_records::<R>(rest));
        lemma_parse_all_len::<R>(b@);
        lemma_mul_is_distributive_add(
            rs as int,
            parse_all::<R>(b@).len() as int,
            model_records::<R>(rest).len() as int,
        );
        assert(model_records::<R>(script).len() == parse_all::<R>(b@).len()
            + model_records::<R>(rest).len());
    }
}

/// Law: when some read hands back a byte count that is not a whole number of
/// records, and every read before it handed back whole, non-zero counts, the
/// drain stops right there with a misaligned status — the result is
/// discarded, not buffered across reads.
pub proof fn lemma_drain_misaligned(script: Seq<ReadOutcome>, rs: nat, k: int)
    requires
        rs > 0,
        0 <= k < script.len(),
        script[k] is Bytes,
        (script[k]->Bytes_0)@.len() % rs != 0,
        forall|i: int| 0 <= i < k ==> (#[trigger] script[i]) is Bytes
            && (script[i]->Bytes_0)@.len() % rs == 0 && (script[i]->Bytes_0)@.len() > 0,
    ensures
        model_status(script, rs) is Misaligned,
        model_reads(script, rs) == k + 1,
    decreases k,
{
    if k == 0 {
        lemma_small_mod(0, rs);
        assert((script[0]->Bytes_0)@.len() != 0);
    } else {
        let rest = script.drop_first();
        assert(forall|j: int| 0 <= j < rest.len() ==> rest[j] == script[j + 1]);
        lemma_drain_misaligned(rest, rs, k - 1);
    }
}

/// Law: when some read fails, and every read before it handed back whole,
/// non-zero counts, the drain stops right there carrying that error code.
pub proof fn lemma_drain_read_failure(script: Seq<ReadOutcome>, rs: nat, k: int)
    requires
        rs > 0,
        0 <= k < script.len(),
        script[k] is Failure,
        forall|i: int| 0 <= i < k ==> (#[trigger] script[i]) is Bytes
            && (script[i]->Bytes_0)@.len() % rs == 0 && (script[i]->Bytes_0)@.len() > 0,
    ensures
        model_status(script, rs) == DrainStatus::Sys(script[k]->Failure_0),
        model_reads(script, rs) == k + 1,
    decreases k,
{
    if k == 0 {
    } else {
        let rest = script.drop_first();
        assert(forall|j: int| 0 <= j < rest.len() ==> rest[j] == script[j + 1]);
        lemma_drain_read_failure(rest, rs, k - 1);
    }
}

} // verus!
