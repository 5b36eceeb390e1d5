//! The multi-path writer: apply one value to every path of a device's
//! target set, isolating failures per path.
//!
//! A device exposes one attribute file per path. A write to one path can
//! fail (the file may not be writable) without affecting the other paths: a
//! failed path is counted and skipped, the healthy paths still receive the
//! full content, and no failure stops the worker. `PathSet` models the
//! target set — which paths accept writes and what each one last received —
//! and `apply_to_all` carries the isolation proof. The process that holds
//! real file handles mirrors this loop outside the library, one independent
//! write per path.

use vstd::prelude::*;

verus! {

/// The number of `false` entries in a sequence of per-path write outcomes.
pub open spec fn count_failures(s: Seq<bool>) -> nat
    decreases s.len(),
{
    if s.len() == 0 {
        0
    } else {
        count_failures(s.drop_last()) + (if s.last() {
            0nat
        } else {
            1nat
        })
    }
}

/// A device's target set: for each path, whether it accepts writes this
/// session, and the content it last accepted, if any.
pub struct PathSet {
    /// Whether each path's attribute file accepts writes.
    pub writable: Vec<bool>,
    /// The bytes each path last accepted; `None` before any write landed.
    pub received: Vec<Option<Vec<u8>>>,
}

impl PathSet {
    /// One entry in `received` per path.
    pub open spec fn wf(&self) -> bool {
        self.received@.len() == self.writable@.len()
    }

    /// A target set in which no path has received anything yet.
    pub fn new(writable: Vec<bool>) -> (t: PathSet)
        ensures
            t.wf(),
            t.writable == writable,
            forall|i: int| 0 <= i < t.received@.len() ==> t.received@[i] is None,
    {
        let n = writable.len();
        let mut received: Vec<Option<Vec<u8>>> = Vec::new();
        let mut i: usize = 0;
        while i < n
            invariant
                i <= n,
                received@.len() == i,
                forall|j: int| 0 <= j < i ==> received@[j] is None,
            decreases n - i,
        {
            received.push(None);
            i = i + 1;
        }
        PathSet { writable, received }
    }

    /// Apply one content to every path, isolating failures: every writable
    /// path receives exactly the given bytes, an unwritable path keeps what
    /// it had, and the failure count — one diagnostic line per failed path —
    /// equals the number of unwritable paths. No failure interrupts the
    /// remaining paths.
    pub fn apply_to_all(&mut self, content: &Vec<u8>) -> (failures: usize)
        requires
            old(self).wf(),
        ensures
            final(self).wf(),
            final(self).writable == old(self).writable,
            final(self).received@.len() == old(self).received@.len(),
            forall|i: int|
                0 <= i < final(self).received@.len() ==> (if old(self).writable@[i] {
                    (#[trigger] final(self).received@[i]) matches Some(c) && c@ == content@
                } else {
                    final(self).received@[i] == old(self).received@[i]
                }),
            failures == count_failures(old(self).writable@),
    {
        let n = self.writable.len();
        let mut failures: usize = 0;
        let mut i: usize = 0;
        while i < n
            invariant
                self.wf(),
                n == self.writable@.len(),
                i <= n,
                self.writable == old(self).writable,
                self.received@.len() == old(self).received@.len(),
                forall|j: int|
                    0 <= j < self.received@.len() ==> (if j < i && old(self).writable@[j] {
                        (#[trigger] self.received@[j]) matches Some(c) && c@ == content@
                    } else {
                        self.received@[j] == old(self).received@[j]
                    }),
                failures == count_failures(old(self).writable@.subrange(0, i as int)),
                failures <= i,
            decreases n - i,
        {
            proof {
                assert(old(self).writable@.subrange(0, i + 1).drop_last() =~= old(
                    self,
                ).writable@.subrange(0, i as int));
            }
            if self.writable[i] {
                let c = copy_bytes(content);
                self.received.set(i, Some(c));
            } else {
                failures = failures + 1;
            }
            i = i + 1;
        }
        proof {
            assert(old(self).writable@.subrange(0, n as int) =~= old(self).writable@);
        }
        failures
    }
}

/// Byte-for-byte copy of a content buffer, as handed to each path.
pub fn copy_bytes(v: &Vec<u8>) -> (r: Vec<u8>)
    ensures
        r@ == v@,
{
    let mut r: Vec<u8> = Vec::new();
    let n = v.len();
    let mut i: usize = 0;
    while i < n
        invariant
            i <= n == v@.len(),
            r@ == v@.subrange(0, i as int),
        decreases n - i,
    {
        r.push(v[i]);
        proof {
            assert(v@.subrange(0, i + 1) =~= v@.subrange(0, i as int).push(v@[i as int]));
        }
        i = i + 1;
    }
    proof {
        assert(v@.subrange(0, n as int) =~= v@);
    }
    r
}

} // verus!
