use vstd::prelude::*;

verus! {

/// The Kronecker delta: 1 if the indices are equal, 0 if not.
pub fn kronecker_delta(x: usize, y: usize) -> (r: i64)
    ensures
        r == if x == y {
            1i64
        } else {
            0i64
        },
{
    if x == y {
        1
    } else {
        0
    }
}

/// An iterator over the components of a vector: the first `end` items
/// of its backing list, in order.
pub struct Components<T> {
    items: Vec<T>,
    cur: usize,
    end: usize,
}

impl<T: Copy> Components<T> {
    /// The component at offset `k` from the front.
    pub closed spec fn spec_item(&self, k: int) -> T {
        self.items@[self.cur + k]
    }

    /// How many components are still to come.
    pub closed spec fn spec_remaining(&self) -> int {
        self.end - self.cur
    }

    pub closed spec fn wf(&self) -> bool {
        self.cur <= self.end <= self.items@.len()
    }

    /// Iterates over all items of the backing list.
    pub fn new(items: Vec<T>) -> (r: Self)
        ensures
            r.wf(),
            r.spec_remaining() == items@.len(),
            forall|k: int| 0 <= k < items@.len() ==> #[trigger] r.spec_item(k) == items@[k],
    {
        let end = items.len();
        Components { items, cur: 0, end }
    }

    /// Iterates over the first `size` items of the backing list.
    pub fn with_length(items: Vec<T>, size: usize) -> (r: Self)
        requires
            size <= items@.len(),
        ensures
            r.wf(),
            r.spec_remaining() == size,
            forall|k: int| 0 <= k < size ==> #[trigger] r.spec_item(k) == items@[k],
    {
        Components { items, cur: 0, end: size }
    }

    /// The next component, or `None` past the end.
    pub fn next(&mut self) -> (r: Option<T>)
        requires
            old(self).wf(),
        ensures
            final (self).wf(),
            old(self).spec_remaining() == 0 ==> r is None && *final (self) == *old(self),
            old(self).spec_remaining() > 0 ==> {
                &&& r == Some(old(self).spec_item(0))
                &&& final (self).spec_remaining() == old(self).spec_remaining() - 1
                &&& forall|k: int|
                    0 <= k < final (self).spec_remaining() ==> #[trigger] final (self).spec_item(k)
                        == old(self).spec_item(k + 1)
            },
    {
        if self.cur >= self.end {
            return None;
        }
        let v = self.items[self.cur];
        self.cur = self.cur + 1;
        Some(v)
    }
}

} // verus!
