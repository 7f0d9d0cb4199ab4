//! Admission control: a counting token pool capping the connections in
//! flight at `shard_count * per_shard_capacity`. Acquisition never blocks:
//! when the pool is exhausted the caller writes the fixed 503 bytes on the
//! socket and closes it, before any parsing or routing happens.

use vstd::prelude::*;
use vstd::string::*;

verus! {

/// The counting admission token pool.
pub struct AdmissionPool {
    capacity: usize,
    available: usize,
}

impl AdmissionPool {
    pub closed spec fn capacity(&self) -> int {
        self.capacity as int
    }

    pub closed spec fn available(&self) -> int {
        self.available as int
    }

    pub open spec fn wf(&self) -> bool {
        self.available() <= self.capacity()
    }

    /// A full pool sized `shard_count * per_shard_capacity`.
    pub fn new(shard_count: usize, per_shard_capacity: usize) -> (r: Self)
        requires
            shard_count * per_shard_capacity <= usize::MAX,
        ensures
            r.wf(),
            r.capacity() == shard_count * per_shard_capacity,
            r.available() == r.capacity(),
    {
        let capacity = shard_count * per_shard_capacity;
        AdmissionPool { capacity, available: capacity }
    }

    /// Takes one token without blocking; fails exactly when the pool is
    /// exhausted.
    pub fn try_acquire(&mut self) -> (ok: bool)
        requires
            old(self).wf(),
        ensures
            final(self).wf(),
            final(self).capacity() == old(self).capacity(),
            ok <==> old(self).available() > 0,
            ok ==> final(self).available() == old(self).available() - 1,
            !ok ==> final(self).available() == old(self).available(),
    {
        if self.available > 0 {
            self.available = self.available - 1;
            true
        } else {
            false
        }
    }

    /// How many tokens are free right now.
    pub fn available_tokens(&self) -> (r: usize)
        ensures
            r == self.available(),
    {
        self.available
    }

    /// The pool's fixed size.
    pub fn capacity_tokens(&self) -> (r: usize)
        ensures
            r == self.capacity(),
    {
        self.capacity
    }

    /// Returns one token when a connection's handling completes, whether
    /// it succeeded or failed.
    pub fn release(&mut self)
        requires
            old(self).wf(),
            old(self).available() < old(self).capacity(),
        ensures
            final(self).wf(),
            final(self).capacity() == old(self).capacity(),
            final(self).available() == old(self).available() + 1,
    {
        self.available = self.available + 1;
    }
}

/// The exact response an admission-rejected connection receives before it
/// is closed, as text.
pub open spec fn spec_admission_reject() -> Seq<char> {
    "HTTP/1.1 503 Service Unavailable\r\nContent-Length: 0\r\nConnection: close\r\n\r\n"@
}

/// The fixed bytes written to a connection the pool rejected.
pub fn service_unavailable_bytes() -> (r: Vec<u8>)
    ensures
        r@ == vstd::utf8::encode_utf8(spec_admission_reject()),
{
    let s = "HTTP/1.1 503 Service Unavailable\r\nContent-Length: 0\r\nConnection: close\r\n\r\n";
    s.as_bytes_vec()
}

} // verus!
