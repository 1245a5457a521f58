//! Oscilloscope-style capture buffer with an optional rising-edge trigger.
//!
//! Incoming samples either roll through a bounded window (free-running
//! mode, no threshold), or arm on a rising edge through the threshold and
//! then fill the buffer once to capacity before disarming (triggered mode).
//! This is the sample-routing logic of the host-side scope display; the
//! transport that delivers the samples stays outside.

use vstd::prelude::*;

verus! {

/// Capture buffer state: the collected samples, the optional trigger
/// threshold, whether a capture is armed, and the last sample seen while
/// waiting for the edge.
pub struct TriggerBuffer {
    samples: Vec<u16>,
    threshold: Option<u16>,
    triggered: bool,
    prev_value: u16,
    capacity: usize,
}

impl TriggerBuffer {
    /// The collected samples, oldest first.
    pub closed spec fn samples(self) -> Seq<u16> {
        self.samples@
    }

    /// The trigger threshold; `None` means free-running.
    pub closed spec fn threshold(self) -> Option<u16> {
        self.threshold
    }

    /// Whether a triggered capture is filling the buffer.
    pub closed spec fn triggered(self) -> bool {
        self.triggered
    }

    /// The last sample seen while waiting for the trigger edge.
    pub closed spec fn prev_value(self) -> int {
        self.prev_value as int
    }

    /// The buffer capacity.
    pub closed spec fn capacity(self) -> int {
        self.capacity as int
    }

    /// Well-formed: a positive capacity never exceeded by the contents,
    /// and an armed capture always has room for the next sample.
    pub open spec fn wf(self) -> bool {
        &&& 0 < self.capacity()
        &&& self.samples().len() <= self.capacity()
        &&& (self.triggered() ==> self.samples().len() < self.capacity())
    }

    /// An empty, disarmed buffer.
    pub fn new(capacity: usize, threshold: Option<u16>) -> (b: TriggerBuffer)
        requires
            0 < capacity,
        ensures
            b.wf(),
            b.samples() == Seq::<u16>::empty(),
            b.threshold() == threshold,
            !b.triggered(),
            b.prev_value() == 0,
            b.capacity() == capacity,
    {
        let b = TriggerBuffer {
            samples: Vec::new(),
            threshold,
            triggered: false,
            prev_value: 0,
            capacity,
        };
        proof {
            assert(b.samples@ =~= Seq::<u16>::empty());
        }
        b
    }

    /// Sets the threshold from a raw control value, as the display's
    /// slider hands it over: zero switches the trigger off.
    pub fn set_threshold_code(&mut self, code: u16)
        ensures
            final(self).threshold() == (if code == 0 {
                Option::<u16>::None
            } else {
                Option::<u16>::Some(code)
            }),
            final(self).samples() == old(self).samples(),
            final(self).triggered() == old(self).triggered(),
            final(self).prev_value() == old(self).prev_value(),
            final(self).capacity() == old(self).capacity(),
    {
        if code == 0 {
            self.threshold = None;
        } else {
            self.threshold = Some(code);
        }
    }

    /// Changes the trigger threshold without touching the collected
    /// samples.
    pub fn set_threshold(&mut self, threshold: Option<u16>)
        ensures
            final(self).threshold() == threshold,
            final(self).samples() == old(self).samples(),
            final(self).triggered() == old(self).triggered(),
            final(self).prev_value() == old(self).prev_value(),
            final(self).capacity() == old(self).capacity(),
    {
        self.threshold = threshold;
    }

    /// Routes one incoming sample. Free-running: append, dropping the
    /// oldest sample once the window is full. Triggered and armed: append
    /// until the buffer reaches capacity, then disarm. Triggered and
    /// waiting: arm and clear the buffer on a rising edge through the
    /// threshold, and remember the sample for the next edge test.
    pub fn push_sample(&mut self, v: u16)
        requires
            old(self).wf(),
        ensures
            final(self).wf(),
            final(self).threshold() == old(self).threshold(),
            final(self).capacity() == old(self).capacity(),
            match old(self).threshold() {
                None => {
                    &&& final(self).samples() == (if old(self).samples().len() + 1 > old(
                        self,
                    ).capacity() {
                        old(self).samples().push(v).drop_first()
                    } else {
                        old(self).samples().push(v)
                    })
                    &&& !final(self).triggered()
                    &&& final(self).prev_value() == old(self).prev_value()
                },
                Some(th) => {
                    if old(self).triggered() {
                        &&& final(self).samples() == old(self).samples().push(v)
                        &&& final(self).triggered() == (old(self).samples().len() + 1 < old(
                            self,
                        ).capacity())
                        &&& final(self).prev_value() == old(self).prev_value()
                    } else {
                        if old(self).prev_value() <= th as int && v > th {
                            &&& final(self).samples() == Seq::<u16>::empty()
                            &&& final(self).triggered()
                            &&& final(self).prev_value() == v as int
                        } else {
                            &&& final(self).samples() == old(self).samples()
                            &&& !final(self).triggered()
                            &&& final(self).prev_value() == v as int
                        }
                    }
                },
            },
    {
        match self.threshold {
            Some(threshold) => {
                if self.triggered {
                    self.samples.push(v);
                    if self.samples.len() >= self.capacity {
                        self.triggered = false;
                    }
                } else {
                    if self.prev_value <= threshold && v > threshold {
                        self.triggered = true;
                        self.samples.clear();
                        proof {
                            assert(self.samples@ =~= Seq::<u16>::empty());
                        }
                    }
                    self.prev_value = v;
                }
            },
            None => {
                self.samples.push(v);
                if self.samples.len() > self.capacity {
                    self.samples.remove(0);
                }
                self.triggered = false;
            },
        }
    }

    /// The collected samples as a vector copy, the snapshot a reader task
    /// takes at a cycle boundary.
    pub fn snapshot(&self) -> (r: Vec<u16>)
        ensures
            r@ == self.samples(),
    {
        let mut r: Vec<u16> = Vec::new();
        let mut i: usize = 0;
        while i < self.samples.len()
            invariant
                i <= self.samples@.len(),
                r@ == self.samples@.take(i as int),
            decreases self.samples@.len() - i,
        {
            r.push(self.samples[i]);
            proof {
                assert(r@ =~= self.samples@.take(i as int + 1));
            }
            i = i + 1;
        }
        proof {
            assert(self.samples@.take(self.samples@.len() as int) =~= self.samples@);
        }
        r
    }
}

} // verus!
