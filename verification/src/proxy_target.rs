//! Target-side data: resolved socket addresses, the nugget forwarded to
//! a freshly connected target, and the caching DNS resolver.

use vstd::prelude::*;

use std::sync::Arc;

verus! {

/// A resolved socket address, as the library reasons about it: the IP
/// bits and the port as plain integers. A v4 address keeps its 32 bits
/// in the low end of `ip`.
#[derive(Clone, Copy, PartialEq, Eq, Structural, Debug)]
pub struct SockAddr {
    pub is_v6: bool,
    pub ip: u128,
    pub port: u16,
}

/// An immutable byte block carried with a handshake result; the
/// connector writes it to the target right after connecting, before any
/// relaying. Shared ownership: it is never mutated after construction.
#[derive(Debug)]
pub struct Nugget {
    data: Arc<Vec<u8>>,
}

impl View for Nugget {
    type V = Seq<u8>;

    closed spec fn view(&self) -> Seq<u8> {
        self.data@
    }
}

impl Nugget {
    pub fn new(data: Vec<u8>) -> (r: Self)
        ensures
            r@ == data@,
    {
        Nugget { data: Arc::new(data) }
    }

    pub fn data(&self) -> (r: &Vec<u8>)
        ensures
            r@ == self@,
    {
        &*self.data
    }
}

/// Element-wise comparison of two byte strings.
pub(crate) fn bytes_eq(x: &[u8], y: &[u8]) -> (r: bool)
    ensures
        r == (x@ == y@),
{
    let n = x.len();
    if n != y.len() {
        proof {
            if x@ == y@ {
                assert(x@.len() == y@.len());
            }
        }
        return false;
    }
    let mut i: usize = 0;
    while i < n
        invariant
            n == x@.len(),
            n == y@.len(),
            i <= n,
            forall|j: int| 0 <= j < i ==> x@[j] == y@[j],
        decreases n - i,
    {
        if x[i] != y[i] {
            proof {
                if x@ == y@ {
                    assert(x@[i as int] == y@[i as int]);
                }
            }
            return false;
        }
        i = i + 1;
    }
    proof {
        assert(x@ =~= y@);
    }
    true
}

impl PartialEq for Nugget {
    fn eq(&self, other: &Self) -> (r: bool) {
        bytes_eq(self.data().as_slice(), other.data().as_slice())
    }
}

impl vstd::std_specs::cmp::PartialEqSpecImpl for Nugget {
    open spec fn obeys_eq_spec() -> bool {
        true
    }

    open spec fn eq_spec(&self, other: &Self) -> bool {
        self@ == other@
    }
}

/// An error from resolving an authority.
#[derive(Clone, Copy, PartialEq, Eq, Structural, Debug)]
pub enum ResolveError {
    /// The system resolver returned no addresses.
    AddressNotAvailable,
}

/// One cached answer set with the instant it expires, in milliseconds on
/// the resolver's own monotonic clock.
pub struct CachedAddrs {
    pub addrs: Vec<SockAddr>,
    pub expires_at_millis: u128,
}

/// Caching of DNS answers to minimize look-ups. The cache is a table
/// from authority to answer set, with unique keys and only nonempty
/// answer sets. Entries expire `ttl` after insertion, softened by a
/// random jitter of up to five seconds so that many connections do not
/// re-resolve in the same instant.
///
/// The surrounding tasks share one resolver behind a lock and perform
/// the actual system look-up; a cache miss hands the fresh answer set to
/// [`Self::cache_and_pick`]. Concurrent misses for one key may each look
/// up; the last writer wins, which is sound because every answer is
/// interchangeable.
pub struct SimpleCachingDnsResolver {
    cache: Vec<(String, CachedAddrs)>,
    ttl_millis: u64,
}

impl View for SimpleCachingDnsResolver {
    /// One triple per cache entry: key, answer set, expiry instant.
    type V = Seq<(Seq<char>, Seq<SockAddr>, u128)>;

    closed spec fn view(&self) -> Seq<(Seq<char>, Seq<SockAddr>, u128)> {
        Seq::new(
            self.cache@.len(),
            |i: int| (self.cache@[i].0@, self.cache@[i].1.addrs@, self.cache@[i].1.expires_at_millis),
        )
    }
}

impl SimpleCachingDnsResolver {
    /// Keys are unique and every cached answer set is nonempty.
    pub open spec fn well_formed(&self) -> bool {
        &&& forall|i: int, j: int|
            0 <= i < self@.len() && 0 <= j < self@.len() && i != j ==> self@[i].0 != self@[j].0
        &&& forall|i: int| 0 <= i < self@.len() ==> self@[i].1.len() > 0
    }

    pub closed spec fn spec_ttl_millis(&self) -> u64 {
        self.ttl_millis
    }

    pub fn new(ttl_millis: u64) -> (r: Self)
        ensures
            r@.len() == 0,
            r.spec_ttl_millis() == ttl_millis,
            r.well_formed(),
    {
        SimpleCachingDnsResolver { cache: Vec::new(), ttl_millis }
    }

    pub fn ttl_millis(&self) -> (r: u64)
        ensures
            r == self.spec_ttl_millis(),
    {
        self.ttl_millis
    }

    /// One address of the answer set, picked at random.
    fn pick(&self, addrs: &Vec<SockAddr>) -> (r: SockAddr)
        requires
            addrs@.len() > 0,
        ensures
            addrs@.contains(r),
    {
        let idx = crate::rng::random_usize() % addrs.len();
        let r = addrs[idx];
        proof {
            assert(addrs@.contains(addrs@[idx as int]));
        }
        r
    }

    /// The cache slot holding this key, if any.
    fn find_key(&self, target: &String) -> (r: Option<usize>)
        ensures
            match r {
                Some(i) => 0 <= i < self@.len() && self@[i as int].0 == target@,
                None => forall|i: int| 0 <= i < self@.len() ==> self@[i].0 != target@,
            },
    {
        let n = self.cache.len();
        let mut i: usize = 0;
        while i < n
            invariant
                n == self.cache@.len(),
                n == self@.len(),
                i <= n,
                forall|j: int| 0 <= j < i ==> self@[j].0 != target@,
                forall|j: int| 0 <= j < n ==> self@[j].0 == self.cache@[j].0@,
            decreases n - i,
        {
            if self.cache[i].0.eq(target) {
                return Some(i);
            }
            i = i + 1;
        }
        None
    }

    /// A cached answer for the target, if one is fresh enough. An entry
    /// strictly before its expiry always answers; one at least five
    /// seconds past it never does; in between, the random jitter
    /// decides. The answer is drawn from the entry's own set.
    pub fn try_find(&self, target: &String, now_millis: u128) -> (r: Option<SockAddr>)
        requires
            self.well_formed(),
        ensures
            match r {
                Some(addr) => exists|i: int|
                    0 <= i < self@.len() && #[trigger] self@[i].0 == target@
                        && self@[i].1.contains(addr) && now_millis < self@[i].2 + 5000,
                None => forall|i: int|
                    0 <= i < self@.len() && #[trigger] self@[i].0 == target@ ==> now_millis
                        >= self@[i].2,
            },
    {
        match self.find_key(target) {
            None => None,
            Some(i) => {
                let entry = &self.cache[i];
                let jitter = crate::rng::jitter_millis();
                proof {
                    assert(self@[i as int].1 == entry.1.addrs@);
                    assert(self@[i as int].2 == entry.1.expires_at_millis);
                }
                let expires_at_millis = entry.1.expires_at_millis;
                // `now < expires + jitter`, phrased to avoid overflow.
                if now_millis < expires_at_millis || now_millis - expires_at_millis < (
                jitter as u128) {
                    let addr = self.pick(&entry.1.addrs);
                    Some(addr)
                } else {
                    None
                }
            },
        }
    }

    /// Record a fresh answer set for the target — replacing any previous
    /// entry for the same key, leaving every other entry untouched —
    /// and pick one address from it. An empty answer set is the
    /// resolver's failure and changes nothing.
    pub fn cache_and_pick(&mut self, target: &String, now_millis: u128, resolved: Vec<SockAddr>) -> (r:
        Result<SockAddr, ResolveError>)
        requires
            old(self).well_formed(),
            now_millis + old(self).spec_ttl_millis() <= u128::MAX,
        ensures
            final(self).well_formed(),
            final(self).spec_ttl_millis() == old(self).spec_ttl_millis(),
            resolved@.len() == 0 ==> r == Err::<SockAddr, _>(ResolveError::AddressNotAvailable)
                && final(self)@ == old(self)@,
            resolved@.len() > 0 ==> {
                &&& r matches Ok(addr) && resolved@.contains(addr)
                &&& ({
                    let entry = (
                        target@,
                        resolved@,
                        (now_millis + old(self).spec_ttl_millis()) as u128,
                    );
                    if exists|i: int| 0 <= i < old(self)@.len() && #[trigger] old(self)@[i].0
                        == target@ {
                        final(self)@ == old(self)@.update(
                            choose|i: int|
                                0 <= i < old(self)@.len() && #[trigger] old(self)@[i].0 == target@,
                            entry,
                        )
                    } else {
                        final(self)@ == old(self)@.push(entry)
                    }
                })
            },
    {
        if resolved.len() == 0 {
            return Err(ResolveError::AddressNotAvailable);
        }
        let picked = self.pick(&resolved);
        let expires_at_millis = now_millis + (self.ttl_millis as u128);
        let pos = self.find_key(target);
        let key = target.clone();
        let entry = CachedAddrs { addrs: resolved, expires_at_millis };
        let ghost gentry = (target@, entry.addrs@, expires_at_millis);
        match pos {
            Some(i) => {
                self.cache[i] = (key, entry);
                proof {
                    assert(self@ =~= old(self)@.update(i as int, gentry));
                    let wi = choose|w: int|
                        0 <= w < old(self)@.len() && #[trigger] old(self)@[w].0 == target@;
                    assert(old(self)@[i as int].0 == target@);
                    assert(wi == i as int);
                }
            },
            None => {
                self.cache.push((key, entry));
                proof {
                    assert(self@ =~= old(self)@.push(gentry));
                }
            },
        }
        Ok(picked)
    }
}

} // verus!
