//! The coalescing update worker.
//!
//! One worker exists per independently adjustable quantity (a device's
//! color or brightness). A producer stores each new value into a shared
//! latest-value register and then sends a best-effort wake-up signal into a
//! channel of capacity one; the payload never travels through the channel.
//! The worker, when woken, drains pending signals, reads the register once,
//! and applies the value to hardware unless it equals the value it applied
//! last. Intermediate values of a burst may be skipped; the worker settles
//! on the latest.
//!
//! `Coalescer` is the worker-private decision state (the applied-value
//! memo); the thread that runs the blocking loop lives outside the library
//! and calls `on_wake` with each register value it reads. `WorkerSystem`
//! models one whole producer/worker pair — register, channel slot, memo and
//! the sequence of values applied to hardware — and carries the proofs that
//! coalescing loses nothing but staleness.

use vstd::prelude::*;

verus! {

/// The value carried by one worker: a packed color word or a brightness.
#[derive(Clone, Copy, PartialEq, Eq, Structural, Debug)]
pub enum Value {
    Color(u32),
    Brightness(i32),
}

/// What a woken worker decides to do with the register value it read.
#[derive(Clone, Copy, PartialEq, Eq, Structural, Debug)]
pub enum Action {
    /// The value is already on the hardware; perform no write.
    Skip,
    /// Write the value to the hardware paths and remember it.
    Apply,
}

/// The worker-private applied-value memo: the last value actually written
/// to hardware, or nothing right after spawn.
pub struct Coalescer {
    pub last_applied: Option<Value>,
}

impl Coalescer {
    /// A freshly spawned worker has applied nothing yet.
    pub fn new() -> (c: Coalescer)
        ensures
            c.last_applied == Option::<Value>::None,
    {
        Coalescer { last_applied: None }
    }

    /// Decide what to do after a wake-up, given the register value read.
    /// A value equal to the memo is suppressed; any other value is applied
    /// and becomes the new memo.
    pub fn on_wake(&mut self, current: Value) -> (a: Action)
        ensures
            old(self).last_applied == Some(current) ==> a == Action::Skip && *final(self)
                == *old(self),
            old(self).last_applied != Some(current) ==> a == Action::Apply
                && final(self).last_applied == Some(current),
    {
        match self.last_applied {
            Some(v) if v == current => Action::Skip,
            _ => {
                self.last_applied = Some(current);
                Action::Apply
            },
        }
    }
}

/// A model of one whole update pipeline: the shared latest-value register,
/// the capacity-one signal channel, the worker's memo, and the sequence of
/// values that reached the hardware, oldest first.
pub struct WorkerSystem {
    /// The latest requested value, independent of what has been applied.
    pub register: Value,
    /// Whether a wake-up signal sits in the channel's single slot.
    pub pending: bool,
    /// The worker's applied-value memo.
    pub worker: Coalescer,
    /// Every value applied to hardware so far, in order.
    pub applied: Vec<Value>,
    /// Every value ever stored into the register, the initial seed
    /// included. Bookkeeping only: it exists to state that nothing reaches
    /// the hardware that was never requested.
    pub stored: Ghost<Seq<Value>>,
}

impl WorkerSystem {
    /// Nothing reaches the register, the memo or the hardware that was
    /// never stored: whatever order stores, signals and wakes happen in,
    /// the worker applies only requested values.
    pub open spec fn sound(&self) -> bool {
        &&& self.stored@.contains(self.register)
        &&& (forall|i: int|
            0 <= i < self.applied@.len() ==> self.stored@.contains(#[trigger] self.applied@[i]))
        &&& (self.worker.last_applied matches Some(v) ==> self.stored@.contains(v))
    }

    /// The memo tells the truth about the hardware: it is empty exactly
    /// until the first write, and afterwards holds the value written last.
    /// This is what makes suppressing a repeated value safe — skipping it
    /// leaves the hardware already showing it.
    pub open spec fn memo_tracks(&self) -> bool {
        match self.worker.last_applied {
            None => self.applied@.len() == 0,
            Some(v) => self.applied@.len() > 0 && self.applied@.last() == v,
        }
    }
    /// Spawn: the register starts at the given value, the channel is empty,
    /// nothing has been applied.
    pub fn new(initial: Value) -> (s: WorkerSystem)
        ensures
            s.register == initial,
            !s.pending,
            s.worker.last_applied == Option::<Value>::None,
            s.applied@ == Seq::<Value>::empty(),
            s.stored@ == seq![initial],
            s.sound(),
            s.memo_tracks(),
    {
        let ghost initial_history: Seq<Value> = seq![initial];
        let s = WorkerSystem {
            register: initial,
            pending: false,
            worker: Coalescer::new(),
            applied: Vec::new(),
            stored: Ghost(initial_history),
        };
        proof {
            assert(s.stored@.contains(initial)) by {
                assert(s.stored@[0] == initial);
            }
        }
        s
    }

    /// Producer side: overwrite the register with the newest value. Nothing
    /// else moves; in particular no write happens here.
    pub fn store(&mut self, v: Value)
        ensures
            final(self).register == v,
            final(self).pending == old(self).pending,
            final(self).worker == old(self).worker,
            final(self).applied == old(self).applied,
            final(self).stored@ == old(self).stored@.push(v),
            old(self).sound() ==> final(self).sound(),
            old(self).memo_tracks() ==> final(self).memo_tracks(),
    {
        self.register = v;
        proof {
            self.stored@ = self.stored@.push(v);
            assert(self.stored@.contains(v)) by {
                assert(self.stored@.last() == v);
            }
            assert forall|x: Value| old(self).stored@.contains(x) implies self.stored@.contains(
                x,
            ) by {
                let i = choose|i: int| 0 <= i < old(self).stored@.len() && old(self).stored@[i] == x;
                assert(self.stored@[i] == x);
            }
        }
    }

    /// Producer side: best-effort signal. If the slot is empty the signal
    /// lands; if a signal is already pending the send is dropped silently.
    /// Either way a signal is pending afterwards, which is all the channel
    /// ever carries — the payload lives in the register.
    pub fn notify(&mut self)
        ensures
            final(self).pending,
            final(self).register == old(self).register,
            final(self).worker == old(self).worker,
            final(self).applied == old(self).applied,
            final(self).stored == old(self).stored,
            old(self).sound() ==> final(self).sound(),
            old(self).memo_tracks() ==> final(self).memo_tracks(),
    {
        self.pending = true;
    }

    /// Worker side: handle one wake-up. Drains the channel slot (collapsing
    /// any burst of signals into this one wake), reads the register once,
    /// and applies the value unless the memo already holds it. A wake never
    /// applies more than one value, and never one that is not the current
    /// register value: redundant wake-ups produce zero writes.
    pub fn wake(&mut self)
        requires
            old(self).pending,
        ensures
            !final(self).pending,
            final(self).register == old(self).register,
            old(self).worker.last_applied == Some(old(self).register) ==> final(self).worker
                == old(self).worker && final(self).applied == old(self).applied,
            old(self).worker.last_applied != Some(old(self).register)
                ==> final(self).worker.last_applied == Some(old(self).register)
                && final(self).applied@ == old(self).applied@.push(old(self).register),
            final(self).stored == old(self).stored,
            old(self).sound() ==> final(self).sound(),
            old(self).memo_tracks() ==> final(self).memo_tracks(),
    {
        self.pending = false;
        let v = self.register;
        match self.worker.on_wake(v) {
            Action::Skip => {},
            Action::Apply => {
                self.applied.push(v);
            },
        }
    }

    /// Producer side of one user-driven change: store the value, then
    /// signal. This is the exact protocol order — the value is published
    /// before the wake-up, so a worker woken by this signal reads a value
    /// at least as recent as `v`.
    pub fn request(&mut self, v: Value)
        ensures
            final(self).register == v,
            final(self).pending,
            final(self).worker == old(self).worker,
            final(self).applied == old(self).applied,
            final(self).stored@ == old(self).stored@.push(v),
            old(self).sound() ==> final(self).sound(),
            old(self).memo_tracks() ==> final(self).memo_tracks(),
    {
        self.store(v);
        self.notify();
    }
}

/// Coalescing correctness: a finite burst of stores, each followed by its
/// signal, then one wake of the worker (the drain collapses the burst's
/// other signals) applies the final stored value exactly once — or not at
/// all if it already sits on the hardware — and applies no other value.
/// However long the burst, the hardware sees at most one write.
pub fn run_burst(s: &mut WorkerSystem, burst: &Vec<Value>)
    requires
        burst@.len() > 0,
    ensures
        final(s).register == burst@.last(),
        !final(s).pending,
        final(s).worker.last_applied == Some(burst@.last()),
        old(s).worker.last_applied == Some(burst@.last()) ==> final(s).applied == old(s).applied,
        old(s).worker.last_applied != Some(burst@.last())
            ==> final(s).applied@ == old(s).applied@.push(burst@.last()),
        old(s).sound() ==> final(s).sound(),
        old(s).memo_tracks() ==> final(s).memo_tracks(),
{
    let n = burst.len();
    let mut i: usize = 0;
    while i < n
        invariant
            0 < n == burst@.len(),
            i <= n,
            s.worker == old(s).worker,
            s.applied == old(s).applied,
            i > 0 ==> s.pending && s.register == burst@[i - 1],
            old(s).sound() ==> s.sound(),
            old(s).memo_tracks() ==> s.memo_tracks(),
        decreases n - i,
    {
        s.request(burst[i]);
        i = i + 1;
    }
    s.wake();
}
} // verus!
