//! The GJK simplex: up to four Minkowski support points (each with its
//! witness on the first body, carried in the payload `P`), the most recent
//! first.

use vstd::prelude::*;

verus! {

/// Up to four support points, newest at index 0; slots at `len` and beyond
/// are stale.
pub struct Simplex<P> {
    pub points: [P; 4],
    pub len: u32,
}

impl<P: Copy> Simplex<P> {
    /// At most four live points.
    pub open spec fn wf(&self) -> bool {
        self.len <= 4
    }

    /// The live points, newest first.
    pub open spec fn live(&self) -> Seq<P> {
        self.points@.take(self.len as int)
    }

    /// An empty simplex whose four slots hold `fill`.
    pub fn new(fill: P) -> (s: Self)
        ensures
            s.wf(),
            s.len == 0,
            s.points@ == seq![fill, fill, fill, fill],
    {
        let s = Simplex { points: [fill, fill, fill, fill], len: 0 };
        assert(s.points@ =~= seq![fill, fill, fill, fill]);
        s
    }

    /// Add a point as the newest; older points move one slot back.
    pub fn push_front(&mut self, point: P)
        requires
            old(self).len < 4,
        ensures
            final(self).wf(),
            final(self).len == old(self).len + 1,
            final(self).live() == seq![point] + old(self).live(),
            forall|i: int|
                old(self).len + 1 <= i < 4 ==> #[trigger] final(self).points@[i] == old(self).points@[i],
    {
        let ghost before = self.points@;
        let mut i = self.len;
        while i > 0
            invariant
                i <= old(self).len < 4,
                self.len == old(self).len,
                forall|j: int| 0 <= j <= i ==> #[trigger] self.points@[j] == before[j],
                forall|j: int| i < j <= old(self).len ==> #[trigger] self.points@[j] == before[j - 1],
                forall|j: int| old(self).len < j < 4 ==> #[trigger] self.points@[j] == before[j],
            decreases i,
        {
            let prev = self.points[(i - 1) as usize];
            self.points[i as usize] = prev;
            i -= 1;
        }
        self.points[0] = point;
        self.len = if self.len + 1 < 4 {
            self.len + 1
        } else {
            4
        };
        assert(self.live() =~= seq![point] + old(self).live());
    }

    /// Drop the point at `index`; later points move one slot forward (for
    /// an index past the live points, the last point is dropped).
    pub fn remove(&mut self, index: u32)
        requires
            old(self).wf(),
            0 < old(self).len,
        ensures
            final(self).wf(),
            final(self).len == old(self).len - 1,
            index < old(self).len ==> final(self).live() == old(self).live().remove(index as int),
            index >= old(self).len ==> final(self).live() == old(self).live().drop_last(),
    {
        let ghost before = self.points@;
        let mut i = index;
        while i < 4 && i + 1 < self.len
            invariant
                self.len == old(self).len,
                0 < self.len <= 4,
                index <= i,
                index < self.len ==> i < self.len,
                forall|j: int| 0 <= j < index ==> #[trigger] self.points@[j] == before[j],
                forall|j: int| index <= j < i ==> #[trigger] self.points@[j] == before[j + 1],
                forall|j: int| i <= j < 4 ==> #[trigger] self.points@[j] == before[j],
            decreases 4 - i,
        {
            let next = self.points[(i + 1) as usize];
            self.points[i as usize] = next;
            i += 1;
        }
        self.len = self.len - 1;
        proof {
            if index < old(self).len {
                assert(self.live() =~= old(self).live().remove(index as int));
            } else {
                assert(self.live() =~= old(self).live().drop_last());
            }
        }
    }

    /// Exchange the points in slots `i` and `j`.
    pub fn swap(&mut self, i: u32, j: u32)
        requires
            i < 4,
            j < 4,
        ensures
            final(self).wf() == old(self).wf(),
            final(self).len == old(self).len,
            final(self).points@ == old(self).points@.update(i as int, old(self).points@[j as int]).update(
                j as int,
                old(self).points@[i as int],
            ),
    {
        let p = self.points[i as usize];
        let q = self.points[j as usize];
        self.points[i as usize] = q;
        self.points[j as usize] = p;
    }

    /// Set the number of live points (keeping the `len` newest when
    /// shrinking).
    pub fn truncate(&mut self, len: u32)
        requires
            old(self).wf(),
            len <= 4,
        ensures
            final(self).wf(),
            final(self).len == len,
            final(self).points@ == old(self).points@,
            len <= old(self).len ==> final(self).live() == old(self).live().take(len as int),
    {
        self.len = len;
        proof {
            if len <= old(self).len {
                assert(self.live() =~= old(self).live().take(len as int));
            }
        }
    }
}

} // verus!
