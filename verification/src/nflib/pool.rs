//! Fixed-capacity pools of reusable objects, addressed by handle.

use vstd::prelude::*;

verus! {

/// Why a pool operation was refused.
#[derive(Clone, Copy, Debug, PartialEq, Eq, Structural)]
pub enum PoolError {
    /// Every object of the pool is taken.
    Exhausted,
    /// The handle does not name an object that is currently taken.
    NotInUse,
}

/// A pool of `capacity` objects. The objects are named by the handles
/// `0 .. capacity`; the pool keeps the free handles on a stack.
pub struct Pool {
    free: Vec<usize>,
    used: Vec<bool>,
}

/// Whether `handle` is taken in a pool of `capacity` objects whose free
/// stack is `free`.
pub open spec fn handle_in_use(capacity: nat, free: Seq<usize>, handle: usize) -> bool {
    handle < capacity && !free.contains(handle)
}

/// The free stack after `handle` went back to the pool: a taken handle is
/// pushed, any other leaves the stack as it is.
pub open spec fn free_after_release(capacity: nat, free: Seq<usize>, handle: usize) -> Seq<usize> {
    if handle_in_use(capacity, free, handle) {
        free.push(handle)
    } else {
        free
    }
}

/// The free stack after the handles of `handles` went back one by one, the
/// first of them first.
pub open spec fn free_after_release_all(capacity: nat, free: Seq<usize>, handles: Seq<usize>) -> Seq<
    usize,
>
    decreases handles.len(),
{
    if handles.len() == 0 {
        free
    } else {
        free_after_release(
            capacity,
            free_after_release_all(capacity, free, handles.drop_last()),
            handles.last(),
        )
    }
}

/// Giving back the first `n + 1` handles is giving back the first `n` and
/// then the next one.
pub proof fn lemma_release_all_step(capacity: nat, free: Seq<usize>, handles: Seq<usize>, n: int)
    requires
        0 <= n < handles.len(),
    ensures
        free_after_release_all(capacity, free, handles.take(n + 1)) == free_after_release(
            capacity,
            free_after_release_all(capacity, free, handles.take(n)),
            handles[n],
        ),
{
    assert(handles.take(n + 1).drop_last() =~= handles.take(n));
}

/// A free stack holds handles of the pool only, each at most once.
pub open spec fn free_stack_wf(capacity: nat, free: Seq<usize>) -> bool {
    &&& forall|i: int| 0 <= i < free.len() ==> (#[trigger] free[i]) < capacity
    &&& forall|i: int, j: int| 0 <= i < j < free.len() ==> free[i] != free[j]
}

impl Pool {
    /// The number of objects in the pool, taken or free.
    pub closed spec fn spec_capacity(&self) -> nat {
        self.used@.len()
    }

    /// The stack of free handles; the next one handed out is the last.
    pub closed spec fn spec_free(&self) -> Seq<usize> {
        self.free@
    }

    /// Whether `handle` is currently taken.
    pub open spec fn in_use(&self, handle: usize) -> bool {
        handle_in_use(self.spec_capacity(), self.spec_free(), handle)
    }

    /// The bookkeeping agrees with itself: the free stack holds each free
    /// handle once, and the map of taken handles says the same.
    pub closed spec fn wf(&self) -> bool {
        &&& free_stack_wf(self.used@.len(), self.free@)
        &&& forall|h: usize|
            h < self.used@.len() ==> (#[trigger] self.used@[h as int] <==> !self.free@.contains(h))
    }

    /// A pool of `capacity` free objects. Handles are handed out from 0
    /// upwards.
    pub fn new(capacity: usize) -> (p: Self)
        ensures
            p.wf(),
            p.spec_capacity() == capacity,
            p.spec_free() == Seq::new(capacity as nat, |i: int| (capacity - 1 - i) as usize),
            forall|h: usize| !p.in_use(h),
    {
        let mut free: Vec<usize> = Vec::new();
        let mut used: Vec<bool> = Vec::new();
        let mut i: usize = 0;
        while i < capacity
            invariant
                i <= capacity,
                free@.len() == i,
                used@.len() == i,
                forall|k: int| 0 <= k < i ==> free@[k] == capacity - 1 - k,
                forall|k: int| 0 <= k < i ==> !used@[k],
            decreases capacity - i,
        {
            free.push(capacity - 1 - i);
            used.push(false);
            i = i + 1;
        }
        let p = Pool { free, used };
        proof {
            assert(p.free@ =~= Seq::new(capacity as nat, |i: int| (capacity - 1 - i) as usize));
            assert forall|h: usize| h < p.used@.len() implies (#[trigger] p.used@[h as int]
                <==> !p.free@.contains(h)) by {
                assert(p.free@[capacity - 1 - h] == h);
            }
            assert forall|h: usize| !p.in_use(h) by {
                if h < capacity {
                    assert(p.free@[capacity - 1 - h] == h);
                }
            }
        }
        p
    }

    /// The number of objects in the pool, taken or free.
    pub fn capacity(&self) -> (c: usize)
        ensures
            c == self.spec_capacity(),
    {
        self.used.len()
    }

    /// The number of free objects.
    pub fn available(&self) -> (n: usize)
        ensures
            n == self.spec_free().len(),
    {
        self.free.len()
    }

    /// Whether `handle` is currently taken.
    pub fn is_in_use(&self, handle: usize) -> (b: bool)
        requires
            self.wf(),
        ensures
            b == self.in_use(handle),
    {
        if handle < self.used.len() {
            self.used[handle]
        } else {
            false
        }
    }

    /// Takes the object on top of the free stack. A pool with nothing free
    /// reports exhaustion and stays as it was; nothing is retried.
    pub fn acquire(&mut self) -> (r: Result<usize, PoolError>)
        requires
            old(self).wf(),
        ensures
            final(self).wf(),
            final(self).spec_capacity() == old(self).spec_capacity(),
            old(self).spec_free().len() == 0 ==> r == Err::<usize, PoolError>(PoolError::Exhausted)
                && final(self).spec_free() == old(self).spec_free(),
            old(self).spec_free().len() > 0 ==> r == Ok::<usize, PoolError>(
                old(self).spec_free().last(),
            ) && final(self).spec_free() == old(self).spec_free().drop_last(),
            r matches Ok(h) ==> !old(self).in_use(h) && final(self).in_use(h),
    {
        match self.free.pop() {
            None => Err(PoolError::Exhausted),
            Some(h) => {
                proof {
                    let n = old(self).free@.len() - 1;
                    assert(old(self).free@[n] == h);
                    assert(h < self.used@.len());
                    assert(old(self).free@.contains(h));
                }
                self.used.set(h, true);
                proof {
                    let n = old(self).free@.len() - 1;
                    assert(self.free@ == old(self).free@.drop_last());
                    assert(!self.free@.contains(h)) by {
                        if self.free@.contains(h) {
                            let k = choose|k: int| 0 <= k < self.free@.len() && self.free@[k] == h;
                            assert(old(self).free@[k] == h);
                            assert(old(self).free@[n] == h);
                        }
                    }
                    assert forall|x: usize| x < self.used@.len() implies (#[trigger] self.used@[x as int]
                        <==> !self.free@.contains(x)) by {
                        if x != h {
                            assert(self.used@[x as int] == old(self).used@[x as int]);
                            if old(self).free@.contains(x) {
                                let k = choose|k: int|
                                    0 <= k < old(self).free@.len() && old(self).free@[k] == x;
                                assert(k != n);
                                assert(self.free@[k] == x);
                            }
                            if self.free@.contains(x) {
                                let k = choose|k: int| 0 <= k < self.free@.len() && self.free@[k] == x;
                                assert(old(self).free@[k] == x);
                            }
                        }
                    }
                }
                Ok(h)
            },
        }
    }

    /// Gives the object named by `handle` back. A handle that is not taken
    /// is refused and the pool stays as it was.
    pub fn release(&mut self, handle: usize) -> (r: Result<(), PoolError>)
        requires
            old(self).wf(),
        ensures
            final(self).wf(),
            final(self).spec_capacity() == old(self).spec_capacity(),
            final(self).spec_free() == free_after_release(
                old(self).spec_capacity(),
                old(self).spec_free(),
                handle,
            ),
            old(self).in_use(handle) ==> r is Ok && !final(self).in_use(handle),
            !old(self).in_use(handle) ==> r == Err::<(), PoolError>(PoolError::NotInUse),
    {
        if handle >= self.used.len() {
            return Err(PoolError::NotInUse);
        }
        if !self.used[handle] {
            return Err(PoolError::NotInUse);
        }
        self.used.set(handle, false);
        self.free.push(handle);
        proof {
            let n = old(self).free@.len() as int;
            assert(self.free@ == old(self).free@.push(handle));
            assert(self.free@[n] == handle);
            assert forall|i: int, j: int| 0 <= i < j < self.free@.len() implies self.free@[i]
                != self.free@[j] by {
                if j == n {
                    assert(old(self).free@[i] == self.free@[i]);
                }
            }
            assert forall|x: usize| x < self.used@.len() implies (#[trigger] self.used@[x as int]
                <==> !self.free@.contains(x)) by {
                if x != handle {
                    assert(self.used@[x as int] == old(self).used@[x as int]);
                    if old(self).free@.contains(x) {
                        let k = choose|k: int|
                            0 <= k < old(self).free@.len() && old(self).free@[k] == x;
                        assert(self.free@[k] == x);
                    }
                    if self.free@.contains(x) {
                        let k = choose|k: int| 0 <= k < self.free@.len() && self.free@[k] == x;
                        assert(k != n);
                        assert(old(self).free@[k] == x);
                    }
                }
            }
        }
        Ok(())
    }
}

} // verus!
