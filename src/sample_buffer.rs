//! Fixed-capacity sample queue between the resampler and the audio device.
//!
//! Samples are held as the raw 32-bit patterns of the device's sample format.
//! The producer pushes a frame only when it fits whole; the consumer never
//! waits: what the queue lacks is filled with the format's silence value.
use vstd::prelude::*;
use ringbuf::HeapRb;
use ringbuf::Rb;

verus! {

/// A ring of samples from `ringbuf`, kept opaque: what it holds is read
/// through `ring_samples` and `ring_capacity`.
#[verifier::external_body]
pub struct SampleRing {
    rb: HeapRb<u32>,
}

/// The samples held by a ring, oldest first.
pub uninterp spec fn ring_samples(rb: SampleRing) -> Seq<u32>;

/// The fixed capacity of a ring.
pub uninterp spec fn ring_capacity(rb: SampleRing) -> nat;

/// Relies on `HeapRb::new`: an empty ring of the given capacity (it panics on
/// a zero capacity).
#[verifier::external_body]
fn ring_new(capacity: usize) -> (r: SampleRing)
    requires
        capacity > 0,
    ensures
        ring_samples(r) == Seq::<u32>::empty(),
        ring_capacity(r) == capacity,
{
    SampleRing { rb: HeapRb::new(capacity) }
}

/// Relies on `Rb::len`: the number of samples held.
#[verifier::external_body]
fn ring_len(rb: &SampleRing) -> (r: usize)
    ensures
        r == ring_samples(*rb).len(),
{
    rb.rb.len()
}

/// Relies on `Rb::free_len`: the number of vacant places.
#[verifier::external_body]
fn ring_free_len(rb: &SampleRing) -> (r: usize)
    ensures
        r == ring_capacity(*rb) - ring_samples(*rb).len(),
{
    rb.rb.free_len()
}

/// Relies on `Rb::push_slice`: appends all of `elems` (it panics when they do
/// not fit).
#[verifier::external_body]
fn ring_push_slice(rb: &mut SampleRing, elems: &[u32])
    requires
        elems@.len() <= ring_capacity(*old(rb)) - ring_samples(*old(rb)).len(),
    ensures
        ring_samples(*final(rb)) == ring_samples(*old(rb)) + elems@,
        ring_capacity(*final(rb)) == ring_capacity(*old(rb)),
{
    rb.rb.push_slice(elems)
}

/// Relies on `Rb::pop_slice`: moves the oldest `elems.len()` samples into
/// `elems` (it panics when fewer are held).
#[verifier::external_body]
fn ring_pop_slice(rb: &mut SampleRing, elems: &mut [u32])
    requires
        old(elems)@.len() <= ring_samples(*old(rb)).len(),
    ensures
        final(elems)@ == ring_samples(*old(rb)).take(old(elems)@.len() as int),
        ring_samples(*final(rb)) == ring_samples(*old(rb)).skip(old(elems)@.len() as int),
        ring_capacity(*final(rb)) == ring_capacity(*old(rb)),
{
    rb.rb.pop_slice(elems)
}

/// `n` copies of `v`.
pub open spec fn repeat(v: u32, n: nat) -> Seq<u32> {
    Seq::new(n, |_i: int| v)
}

/// What a consumer asking for `len` samples sees when `held` are queued: the
/// oldest of them, then silence for the shortfall.
pub open spec fn drained(held: Seq<u32>, len: nat, silence: u32) -> Seq<u32> {
    if len <= held.len() {
        held.take(len as int)
    } else {
        held + repeat(silence, (len - held.len()) as nat)
    }
}

/// A bounded first-in first-out queue of samples.
pub struct SampleBuffer {
    ring: SampleRing,
}

impl SampleBuffer {
    /// The queued samples, oldest first.
    pub closed spec fn view(&self) -> Seq<u32> {
        ring_samples(self.ring)
    }

    pub closed spec fn capacity(&self) -> nat {
        ring_capacity(self.ring)
    }

    pub open spec fn wf(&self) -> bool {
        &&& self@.len() <= self.capacity()
        &&& self.capacity() > 0
    }

    /// An empty queue holding up to `capacity` samples.
    pub fn new(capacity: usize) -> (r: Self)
        requires
            capacity > 0,
        ensures
            r.wf(),
            r@ == Seq::<u32>::empty(),
            r.capacity() == capacity,
    {
        SampleBuffer { ring: ring_new(capacity) }
    }

    /// Number of samples that can be pushed now.
    pub fn free_len(&self) -> (r: usize)
        requires
            self.wf(),
        ensures
            r == self.capacity() - self@.len(),
    {
        ring_free_len(&self.ring)
    }

    /// Number of samples queued.
    pub fn len(&self) -> (r: usize)
        ensures
            r == self@.len(),
    {
        ring_len(&self.ring)
    }

    /// Pushes all of `samples` when they fit in the free space, and reports
    /// whether it did; when they do not fit the queue is left as it was.
    pub fn try_push(&mut self, samples: &[u32]) -> (r: bool)
        requires
            old(self).wf(),
        ensures
            final(self).wf(),
            final(self).capacity() == old(self).capacity(),
            r == (samples@.len() <= old(self).capacity() - old(self)@.len()),
            r ==> final(self)@ == old(self)@ + samples@,
            !r ==> final(self)@ == old(self)@,
    {
        let free = ring_free_len(&self.ring);
        if samples.len() <= free {
            ring_push_slice(&mut self.ring, samples);
            true
        } else {
            false
        }
    }

    /// Fills `out` from the front of the queue; what the queue lacks is
    /// filled with `silence`. Returns how many samples came from the queue.
    pub fn fill(&mut self, out: &mut Vec<u32>, silence: u32) -> (r: usize)
        requires
            old(self).wf(),
        ensures
            final(self).wf(),
            final(self).capacity() == old(self).capacity(),
            r == if old(out)@.len() <= old(self)@.len() { old(out)@.len() } else { old(self)@.len() },
            final(out)@ == drained(old(self)@, old(out)@.len(), silence),
            final(self)@ == old(self)@.skip(r as int),
    {
        let want = out.len();
        let held = ring_len(&self.ring);
        let n = if want <= held { want } else { held };
        let mut taken: Vec<u32> = Vec::new();
        let mut i: usize = 0;
        while i < n
            invariant
                i <= n,
                taken@.len() == i,
            decreases n - i,
        {
            taken.push(silence);
            i = i + 1;
        }
        ring_pop_slice(&mut self.ring, taken.as_mut_slice());
        let ghost queued = old(self)@;
        let mut j: usize = 0;
        while j < want
            invariant
                j <= want,
                want == old(out)@.len(),
                out@.len() == want,
                n <= want,
                n <= queued.len(),
                taken@ == queued.take(n as int),
                forall|k: int| 0 <= k < j ==> out@[k] == (if k < n { queued[k] } else { silence }),
            decreases want - j,
        {
            if j < n {
                out.set(j, taken[j]);
            } else {
                out.set(j, silence);
            }
            j = j + 1;
        }
        proof {
            let expect = drained(queued, want as nat, silence);
            assert(expect.len() == want);
            assert forall|k: int| 0 <= k < want implies out@[k] == expect[k] by {
                if k < n {
                } else {
                    assert(k >= queued.len());
                }
            }
            assert(out@ =~= expect);
        }
        n
    }
}

/// The number of interleaved samples in a resampled frame of `samples` samples
/// per channel over `channels` channels, when its plane of `available` samples
/// holds them all.
pub fn frame_sample_count(samples: usize, channels: u16, available: usize) -> (r: Option<usize>)
    ensures
        samples * channels <= available ==> r == Some((samples * channels) as usize),
        samples * channels > available ==> r.is_none(),
{
    if channels == 0 {
        proof {
            assert(samples * channels == 0) by (nonlinear_arith)
                requires
                    channels == 0,
            ;
        }
        return Some(0);
    }
    if samples > available / (channels as usize) {
        proof {
            let c: int = channels as int;
            let a: int = available as int;
            let s: int = samples as int;
            vstd::arithmetic::div_mod::lemma_fundamental_div_mod(a, c);
            vstd::arithmetic::div_mod::lemma_mod_bound(a, c);
            assert(s * c > a) by (nonlinear_arith)
                requires
                    s > a / c,
                    a == c * (a / c) + a % c,
                    a % c < c,
                    c > 0,
            ;
        }
        None
    } else {
        proof {
            let c: int = channels as int;
            let a: int = available as int;
            let s: int = samples as int;
            vstd::arithmetic::div_mod::lemma_fundamental_div_mod(a, c);
            vstd::arithmetic::div_mod::lemma_mod_bound(a, c);
            assert(s * c <= a) by (nonlinear_arith)
                requires
                    s <= a / c,
                    a == c * (a / c) + a % c,
                    a % c >= 0,
                    c > 0,
            ;
        }
        Some(samples * channels as usize)
    }
}

} // verus!
