//! Reading a kernel data-structure iterator through a descriptor-backed
//! session.
//!
//! An [`Iter`] owns the link to an attached kernel-side producer.  Creating a
//! session from the link is a kernel call that hands back a new raw
//! descriptor; [`OpenIter`] owns that descriptor, reads bytes from it, and
//! releases it exactly once.  [`drain_session`] runs the bulk-drain protocol
//! over a live session; the same protocol over a scripted session, with the
//! full model contract, is [`crate::drain::drain_mem`].

use vstd::prelude::*;

use crate::drain::append_chunk;
use crate::error::Error;
use crate::record::Record;

verus! {

/// An ownership handle to a kernel-side attached producer, held as the raw
/// descriptor that identifies it for the session-creation call.
pub struct Link {
    pub fd: i32,
}

impl Link {
    /// Wraps the raw descriptor of an attached producer.
    pub fn new(fd: i32) -> (s: Self)
        ensures
            s.fd == fd,
    {
        Link { fd }
    }

    /// The raw descriptor, borrowed; the link keeps ownership.
    pub fn get_fd(&self) -> (r: i32)
        ensures
            r == self.fd,
    {
        self.fd
    }
}

/// A kernel data-structure iterator, owning the link to the attached
/// producer it reads.  Requires Linux 5.8.
pub struct Iter {
    pub link: Link,
}

impl Iter {
    /// Takes ownership of the link.  No kernel call is made.
    pub fn new(link: Link) -> (s: Self)
        ensures
            s.link == link,
    {
        Iter { link }
    }

    /// The raw descriptor of the owned link, for the session-creation call.
    pub fn link_fd(&self) -> (r: i32)
        ensures
            r == self.link.fd,
    {
        self.link.get_fd()
    }
}

/// Relies on nix::unistd::read: reads up to `buf.len()` bytes from the
/// descriptor into the front of `buf` and hands back how many, zero meaning
/// end-of-stream, or the OS error code.  Which bytes arrive is up to the
/// kernel-side producer, so nothing is stated about the contents.
#[verifier::external_body]
fn read_fd(fd: i32, buf: &mut Vec<u8>) -> (r: Result<usize, i32>)
    ensures
        final(buf)@.len() == old(buf)@.len(),
        r is Ok ==> r->Ok_0 <= old(buf)@.len(),
{
    match nix::unistd::read(fd, buf.as_mut_slice()) {
        Ok(n) => Ok(n),
        Err(e) => Err(e as i32),
    }
}

/// Relies on nix::unistd::close: releases the descriptor.  The outcome is
/// deliberately ignored — the descriptor is being discarded either way.
#[verifier::external_body]
fn close_fd(fd: i32) {
    let _ = nix::unistd::close(fd);
}

/// An open instance of a kernel data-structure iterator: the live,
/// descriptor-backed session bytes are read from.  Requires Linux 5.8.
///
/// The owner calls [`OpenIter::close`] when done; the descriptor is released
/// the first time and never again, so every exit path may close.
#[derive(Debug)]
pub struct OpenIter {
    pub fd: i32,
    pub closed: bool,
}

impl OpenIter {
    /// Wraps a session descriptor returned by the creation call.
    pub fn new(fd: i32) -> (s: Self)
        ensures
            s.fd == fd,
            !s.closed,
    {
        OpenIter { fd, closed: false }
    }

    /// The session for a creation call that returned `created`: a negative
    /// value is an OS error, negated, and no session exists; anything else
    /// is the new session's descriptor.
    pub fn from_create(created: i32) -> (r: Result<OpenIter, Error>)
        requires
            created > i32::MIN,
        ensures
            created >= 0 ==> (r matches Ok(s) && s.fd == created && !s.closed),
            created < 0 ==> r == Err::<OpenIter, Error>(Error::System((0 - created) as i32)),
    {
        if created < 0 {
            Err(Error::System(-created))
        } else {
            Ok(OpenIter::new(created))
        }
    }

    /// One read of up to `buf.len()` bytes from the session into the front
    /// of `buf`, handing back how many arrived; zero means end-of-stream.
    /// Reading never closes the session, however often it fails.
    pub fn read(&mut self, buf: &mut Vec<u8>) -> (r: Result<usize, Error>)
        ensures
            *final(self) == *old(self),
            final(buf)@.len() == old(buf)@.len(),
            r matches Ok(n) ==> n <= old(buf)@.len(),
            r is Err ==> r->Err_0 is System,
    {
        match read_fd(self.fd, buf) {
            Ok(n) => Ok(n),
            Err(code) => Err(Error::System(code)),
        }
    }

    /// Releases the session descriptor the first time it is called; after
    /// that it does nothing, so the descriptor is closed exactly once and a
    /// double close never occurs.
    pub fn close(&mut self)
        ensures
            final(self).closed,
            final(self).fd == old(self).fd,
    {
        if !self.closed {
            close_fd(self.fd);
            self.closed = true;
        }
    }
}

/// Fully drains an open session into typed records: reads of up to
/// `buf_records` records at a time into one reused buffer, until
/// end-of-stream, a failed read, or a chunk that is not a whole number of
/// records.  The session is closed on every exit path; an error discards the
/// records accumulated so far.
#[verifier::loop_isolation(false)]
pub fn drain_session<R: Record>(sess: &mut OpenIter, buf_records: usize) -> (r: Result<
    Vec<R>,
    Error,
>)
    requires
        !old(sess).closed,
        buf_records >= 1,
        buf_records * R::size_spec() <= usize::MAX,
    ensures
        final(sess).closed,
        final(sess).fd == old(sess).fd,
{
    proof {
        R::size_positive();
    }
    let rs = R::size();
    let cap = buf_records * rs;
    let mut buf: Vec<u8> = Vec::new();
    let mut j: usize = 0;
    while j < cap
        invariant
            buf@.len() == j,
            j <= cap,
        decreases cap - j,
    {
        buf.push(0u8);
        j = j + 1;
    }
    let mut records: Vec<R> = Vec::new();
    let mut reads: usize = 0;
    while reads < usize::MAX
        invariant
            buf@.len() == cap,
            !sess.closed,
            sess.fd == old(sess).fd,
        decreases usize::MAX - reads,
    {
        reads = reads + 1;
        match read_fd(sess.fd, &mut buf) {
            Err(code) => {
                sess.close();
                return Err(Error::System(code));
            },
            Ok(n) => {
                if n == 0 {
                    sess.close();
                    return Ok(records);
                }
                match append_chunk::<R>(&mut records, &buf, n) {
                    Ok(_) => {},
                    Err(err) => {
                        sess.close();
                        return Err(err);
                    },
                }
            },
        }
    }
    // a stream that outlives any possible read count never reached
    // end-of-stream: give up rather than loop forever
    sess.close();
    Err(Error::Internal("stream did not reach end-of-stream".to_owned()))
}

/// The whole bulk-drain operation, from the result of the session-creation
/// call: a negative `created` is the failed creation — the OS error comes
/// back, negated, and no read or close is ever issued; otherwise the new
/// session is drained to end-of-stream and closed.
pub fn drain_created<R: Record>(created: i32, buf_records: usize) -> (r: Result<Vec<R>, Error>)
    requires
        created > i32::MIN,
        buf_records >= 1,
        buf_records * R::size_spec() <= usize::MAX,
    ensures
        created < 0 ==> r == Err::<Vec<R>, Error>(Error::System((0 - created) as i32)),
{
    match OpenIter::from_create(created) {
        Err(e) => Err(e),
        Ok(mut sess) => drain_session::<R>(&mut sess, buf_records),
    }
}

} // verus!
