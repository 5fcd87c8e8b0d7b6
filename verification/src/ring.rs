//! The bounded buffer between the audio producer and the displays.

use vstd::prelude::*;
use std::collections::VecDeque;

verus! {

/// Number of samples that the buffer of the displays holds.
pub const SAMPLE_BUF_SIZE: usize = 8192;

/// What a buffer of capacity `capacity` holds after `sample` was pushed:
/// when it was full, the oldest sample has left.
pub open spec fn pushed<T>(held: Seq<T>, capacity: nat, sample: T) -> Seq<T> {
    if held.len() >= capacity && held.len() > 0 {
        held.drop_first().push(sample)
    } else {
        held.push(sample)
    }
}

/// A bounded first-in first-out buffer that overwrites its oldest sample
/// when it is full, so that a push never waits and never fails.
pub struct SampleRing<T> {
    buf: VecDeque<T>,
    capacity: usize,
}

impl<T> View for SampleRing<T> {
    type V = Seq<T>;

    /// The samples held, oldest first.
    closed spec fn view(&self) -> Seq<T> {
        self.buf@
    }
}

impl<T> SampleRing<T> {
    /// The number of samples from which on a push drops the oldest one.
    pub closed spec fn spec_capacity(&self) -> usize {
        self.capacity
    }

    /// An empty buffer of the given capacity.
    pub fn new(capacity: usize) -> (r: SampleRing<T>)
        ensures
            r@ == Seq::<T>::empty(),
            r.spec_capacity() == capacity,
    {
        SampleRing { buf: VecDeque::new(), capacity }
    }

    #[verifier::when_used_as_spec(spec_capacity)]
    pub fn capacity(&self) -> (c: usize)
        ensures
            c == self.spec_capacity(),
    {
        self.capacity
    }

    /// Number of samples held.
    pub fn len(&self) -> (n: usize)
        ensures
            n == self@.len(),
    {
        self.buf.len()
    }

    pub fn is_empty(&self) -> (b: bool)
        ensures
            b == (self@.len() == 0),
    {
        self.buf.len() == 0
    }

    /// Appends a sample; a full buffer first drops its oldest sample.
    pub fn push(&mut self, sample: T)
        ensures
            final(self).spec_capacity() == old(self).spec_capacity(),
            final(self)@ == pushed(old(self)@, old(self).spec_capacity() as nat, sample),
            old(self)@.len() <= old(self).spec_capacity() && old(self).spec_capacity() >= 1
                ==> final(self)@.len() <= old(self).spec_capacity(),
    {
        if self.buf.len() >= self.capacity {
            let _ = self.buf.pop_front();
        }
        self.buf.push_back(sample);
    }

    /// Drops every sample.
    pub fn clear(&mut self)
        ensures
            final(self).spec_capacity() == old(self).spec_capacity(),
            final(self)@ == Seq::<T>::empty(),
    {
        self.buf.clear();
    }
}

impl<T: Copy> SampleRing<T> {
    /// The sample at place `i`, counted from the oldest.
    pub fn get(&self, i: usize) -> (r: Option<T>)
        ensures
            r == (if i < self@.len() {
                Some(self@[i as int])
            } else {
                None
            }),
    {
        if i < self.buf.len() {
            Some(self.buf[i])
        } else {
            None
        }
    }

    /// A copy of the samples held, oldest first.
    pub fn snapshot(&self) -> (v: Vec<T>)
        ensures
            v@ == self@,
    {
        let mut v: Vec<T> = Vec::new();
        let n = self.buf.len();
        let mut i: usize = 0;
        while i < n
            invariant
                n == self.buf@.len(),
                i <= n,
                v@ == self.buf@.take(i as int),
            decreases n - i,
        {
            v.push(self.buf[i]);
            proof {
                assert(self.buf@.take(i as int + 1) =~= self.buf@.take(i as int).push(
                    self.buf@[i as int],
                ));
            }
            i += 1;
        }
        proof {
            assert(self.buf@.take(n as int) =~= self.buf@);
        }
        v
    }
}

} // verus!
