use vstd::prelude::*;
use crate::pull::{cache_pull, pull_len, CACHE_LEN};
use crate::source::{
    fill_from, fresh_byte, is_native_word, try_fill_from, u32_from_native, u64_from_native,
};

verus! {

/// The one way a fill can fail: the wrapped generator reported an error, which
/// is passed on as it came.
pub enum FillError {
    Source(rand::Error),
}

/// `out` starts with the cache's first `pull_len(out.len())` bytes.
pub open spec fn serves_from_cache(cache: Seq<u8>, out: Seq<u8>) -> bool {
    let p = pull_len(out.len() as int);
    out.subrange(0, p) == cache.subrange(0, p)
}

/// A generator that serves requests from a block of bytes drawn once from
/// `inner`, topped up with fresh bytes from `inner`.
pub struct RngCache<R> {
    inner: R,
    cache: [u8; 65536],
}

impl<R> View for RngCache<R> {
    type V = Seq<u8>;

    /// The cached bytes.
    closed spec fn view(&self) -> Seq<u8> {
        self.cache@
    }
}

impl<R: rand::RngCore> RngCache<R> {
    /// Takes `rng` and fills the whole cache from it, with one call of its fill.
    /// The cache holds `CACHE_LEN` bytes; no method changes them.
    pub fn new(rng: R) -> (r: Self)
        ensures
            r@.len() == CACHE_LEN,
    {
        let mut res = RngCache { inner: rng, cache: [0u8; 65536] };
        fill_from(&mut res.inner, &mut res.cache, 0);
        res
    }

    /// The 32-bit word of the cache's first three bytes followed by `fresh`,
    /// read in the machine's byte order.
    pub fn compose_u32(&self, fresh: u8) -> (r: u32)
        ensures
            is_native_word(self@.subrange(0, 3).push(fresh), r as nat),
    {
        let bytes: [u8; 4] = [self.cache[0], self.cache[1], self.cache[2], fresh];
        assert(bytes@ == self@.subrange(0, 3).push(fresh));
        u32_from_native(bytes)
    }

    /// The 64-bit word of the cache's first seven bytes followed by `fresh`,
    /// read in the machine's byte order.
    pub fn compose_u64(&self, fresh: u8) -> (r: u64)
        ensures
            is_native_word(self@.subrange(0, 7).push(fresh), r as nat),
    {
        let bytes: [u8; 8] = [
            self.cache[0],
            self.cache[1],
            self.cache[2],
            self.cache[3],
            self.cache[4],
            self.cache[5],
            self.cache[6],
            fresh,
        ];
        assert(bytes@ == self@.subrange(0, 7).push(fresh));
        u64_from_native(bytes)
    }

    /// Three cached bytes and one fresh byte from the wrapped generator.
    pub fn next_u32(&mut self) -> (r: u32)
        ensures
            final(self)@ == old(self)@,
            exists|b: u8| is_native_word(old(self)@.subrange(0, 3).push(b), r as nat),
    {
        let fresh = fresh_byte(&mut self.inner);
        let r = self.compose_u32(fresh);
        assert(is_native_word(old(self)@.subrange(0, 3).push(fresh), r as nat));
        r
    }

    /// Seven cached bytes and one fresh byte from the wrapped generator.
    pub fn next_u64(&mut self) -> (r: u64)
        ensures
            final(self)@ == old(self)@,
            exists|b: u8| is_native_word(old(self)@.subrange(0, 7).push(b), r as nat),
    {
        let fresh = fresh_byte(&mut self.inner);
        let r = self.compose_u64(fresh);
        assert(is_native_word(old(self)@.subrange(0, 7).push(fresh), r as nat));
        r
    }

    /// Copies the cache's first `cache_pull(dest.len())` bytes to the front of
    /// `dest` and returns that count; the rest of `dest` is left as it was.
    pub fn fill_prefix(&self, dest: &mut [u8]) -> (p: usize)
        ensures
            p as int == pull_len(old(dest)@.len() as int),
            final(dest)@.len() == old(dest)@.len(),
            serves_from_cache(self@, final(dest)@),
            final(dest)@.subrange(p as int, old(dest)@.len() as int) == old(dest)@.subrange(
                p as int,
                old(dest)@.len() as int,
            ),
    {
        let n = dest.len();
        let p = cache_pull(n);
        let mut i: usize = 0;
        while i < p
            invariant
                self@.len() == CACHE_LEN,
                p <= n,
                p <= CACHE_LEN,
                i <= p,
                n == dest@.len(),
                n == old(dest)@.len(),
                forall|k: int| 0 <= k < i ==> dest@[k] == self@[k],
                forall|k: int| p <= k < n ==> dest@[k] == old(dest)@[k],
            decreases p - i,
        {
            dest[i] = self.cache[i];
            i = i + 1;
        }
        assert(dest@.subrange(0, p as int) =~= self@.subrange(0, p as int));
        assert(dest@.subrange(p as int, n as int) =~= old(dest)@.subrange(p as int, n as int));
        p
    }

    /// Fills `dest`: its first `cache_pull(dest.len())` bytes from the cache,
    /// the rest from the wrapped generator. The wrapped generator is not asked
    /// for anything when `dest` is empty. The cache is left as it was.
    pub fn fill_bytes(&mut self, dest: &mut [u8])
        ensures
            final(self)@ == old(self)@,
            final(dest)@.len() == old(dest)@.len(),
            serves_from_cache(old(self)@, final(dest)@),
    {
        let p = self.fill_prefix(dest);
        if p < dest.len() {
            let ghost copied = dest@;
            fill_from(&mut self.inner, dest, p);
            assert(dest@.subrange(0, p as int) == copied.subrange(0, p as int));
        }
    }

    /// As `fill_bytes`, through the wrapped generator's fallible fill; its
    /// error, if any, is returned as `FillError::Source`. The cached bytes are
    /// in place whichever way it goes, and an empty `dest` always succeeds.
    pub fn try_fill_bytes(&mut self, dest: &mut [u8]) -> (r: Result<(), FillError>)
        ensures
            final(self)@ == old(self)@,
            final(dest)@.len() == old(dest)@.len(),
            serves_from_cache(old(self)@, final(dest)@),
            old(dest)@.len() == 0 ==> r is Ok,
    {
        let p = self.fill_prefix(dest);
        if p < dest.len() {
            let ghost copied = dest@;
            let res = try_fill_from(&mut self.inner, dest, p);
            assert(dest@.subrange(0, p as int) == copied.subrange(0, p as int));
            match res {
                Ok(()) => Ok(()),
                Err(e) => Err(FillError::Source(e)),
            }
        } else {
            Ok(())
        }
    }
}

/// Two fills of the same length served from one cache start with the same
/// `pull_len` bytes: the cache is never refreshed, so its bytes come back.
pub proof fn lemma_cache_reuse(cache: Seq<u8>, first: Seq<u8>, second: Seq<u8>)
    requires
        serves_from_cache(cache, first),
        serves_from_cache(cache, second),
        first.len() == second.len(),
    ensures
        first.subrange(0, pull_len(first.len() as int)) == second.subrange(
            0,
            pull_len(second.len() as int),
        ),
{
}

/// The output of a fill is fixed by the cache and by what the wrapped
/// generator wrote after the cached bytes: two fills of one length from equal
/// caches, whose wrapped generators wrote the same bytes, give the same output.
pub proof fn lemma_fill_determined(cache: Seq<u8>, first: Seq<u8>, second: Seq<u8>)
    requires
        serves_from_cache(cache, first),
        serves_from_cache(cache, second),
        first.len() == second.len(),
        first.subrange(pull_len(first.len() as int), first.len() as int) == second.subrange(
            pull_len(second.len() as int),
            second.len() as int,
        ),
    ensures
        first == second,
{
    let n = first.len() as int;
    let p = pull_len(n);
    assert(0 <= p <= n) by {
        crate::pull::lemma_pull_len_bounds(n);
    }
    assert(first =~= first.subrange(0, p) + first.subrange(p, n));
    assert(second =~= second.subrange(0, p) + second.subrange(p, n));
}

/// The decorator is itself a generator, usable wherever one is expected.
impl<R: rand::RngCore> rand::RngCore for RngCache<R> {
    fn next_u32(&mut self) -> u32 {
        RngCache::next_u32(self)
    }

    fn next_u64(&mut self) -> u64 {
        RngCache::next_u64(self)
    }

    fn fill_bytes(&mut self, dest: &mut [u8]) {
        RngCache::fill_bytes(self, dest)
    }

    fn try_fill_bytes(&mut self, dest: &mut [u8]) -> Result<(), rand::Error> {
        match RngCache::try_fill_bytes(self, dest) {
            Ok(()) => Ok(()),
            Err(FillError::Source(e)) => Err(e),
        }
    }
}

/// Marked as fit for cryptography whenever the wrapped generator is, by that
/// mark alone: the cached bytes repeat from fill to fill, which the mark does
/// not take into account.
impl<R: rand::CryptoRng + rand::RngCore> rand::CryptoRng for RngCache<R> {

}

} // verus!
