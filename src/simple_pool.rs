//! A fixed-capacity pool of same-typed values addressed by stable slot
//! indices.
use vstd::prelude::*;

verus! {

/// Why a pool refused an allocation.
#[derive(Clone, Copy, Debug, PartialEq, Eq, Structural)]
pub enum PoolError {
    /// Every slot has been handed out by the bump cursor.
    PoolExhausted,
}

/// One bump allocation from `cursor` in a pool of `capacity` slots: the slot
/// handed out (`None` when the pool is exhausted) and the cursor after it.
pub open spec fn bump(cursor: nat, capacity: nat) -> (Option<nat>, nat) {
    if cursor < capacity {
        (Some(cursor), cursor + 1)
    } else {
        (None, cursor)
    }
}

/// The slots handed out by `k` bump allocations in a row from `cursor`.
pub open spec fn bump_run(cursor: nat, capacity: nat, k: nat) -> Seq<Option<nat>>
    decreases k,
{
    if k == 0 {
        Seq::empty()
    } else {
        seq![bump(cursor, capacity).0] + bump_run(bump(cursor, capacity).1, capacity, (k - 1) as nat)
    }
}

/// From cursor `c`, the remaining bump allocations of a pool of `n` slots
/// hand out `c`, `c + 1`, ..., `n - 1`, and the one after them fails.
proof fn lemma_bump_run_from(c: nat, n: nat)
    requires
        c <= n,
    ensures
        bump_run(c, n, (n - c + 1) as nat) == Seq::new((n - c) as nat, |i: int| Some((c + i) as nat)).push(
            None,
        ),
    decreases n - c,
{
    let expected = Seq::new((n - c) as nat, |i: int| Some((c + i) as nat)).push(None);
    if c == n {
        assert(bump_run(c, n, 0) == Seq::<Option<nat>>::empty());
        assert(bump_run(c, n, 1) =~= expected);
    } else {
        lemma_bump_run_from(c + 1, n);
        let rest = Seq::new((n - (c + 1)) as nat, |i: int| Some((c + 1 + i) as nat)).push(None);
        assert(bump_run(c, n, (n - c + 1) as nat) == seq![Some(c)] + rest);
        assert(seq![Some(c)] + rest =~= expected);
    }
}

/// In a pool of `n` slots with its cursor at zero, `n` bump allocations in a
/// row return the slots `0` to `n - 1` in order, and the next one reports
/// the pool exhausted.
pub proof fn lemma_bump_allocations(n: nat)
    ensures
        bump_run(0, n, n + 1) == Seq::new(n, |i: int| Some(i as nat)).push(None),
{
    lemma_bump_run_from(0, n);
    assert(Seq::new(n, |i: int| Some((0 + i) as nat)) =~= Seq::new(n, |i: int| Some(i as nat)));
}

/// A pool of `capacity` slots. Fresh slots come from a bump cursor in
/// increasing order and are never handed out by it again: a freed slot is
/// reused only when its index is passed back to `allocate`.
pub struct SimplePool<T> {
    slots: Vec<Option<T>>,
    next: usize,
}

impl<T> View for SimplePool<T> {
    type V = Seq<Option<T>>;

    /// Each slot's value, `None` for a free slot.
    closed spec fn view(&self) -> Seq<Option<T>> {
        self.slots@
    }
}

impl<T> SimplePool<T> {
    /// Number of slots.
    pub closed spec fn capacity_spec(&self) -> nat {
        self.slots.len() as nat
    }

    /// The slot the bump cursor hands out next.
    pub closed spec fn cursor(&self) -> nat {
        self.next as nat
    }

    pub closed spec fn wf(&self) -> bool {
        &&& self.next <= self.slots.len()
        &&& forall|s: int| self.next <= s < self.slots.len() ==> #[trigger] self.slots@[s] is None
    }

    /// A pool of `capacity` free slots.
    pub fn new(capacity: usize) -> (r: Self)
        ensures
            r.wf(),
            r.capacity_spec() == capacity,
            r.cursor() == 0,
            r@ == Seq::new(capacity as nat, |i: int| None::<T>),
    {
        let mut slots: Vec<Option<T>> = Vec::new();
        let mut i: usize = 0;
        while i < capacity
            invariant
                i <= capacity,
                slots@ == Seq::new(i as nat, |k: int| None::<T>),
            decreases capacity - i,
        {
            slots.push(None);
            i = i + 1;
        }
        SimplePool { slots, next: 0 }
    }

    /// Number of slots.
    pub fn capacity(&self) -> (r: usize)
        ensures
            r == self.capacity_spec(),
    {
        self.slots.len()
    }

    /// The value in live slot `index`.
    pub fn get(&self, index: usize) -> (r: &T)
        requires
            index < self.capacity_spec(),
            self@[index as int] is Some,
        ensures
            *r == self@[index as int]->Some_0,
    {
        self.slots[index].as_ref().unwrap()
    }

    /// The value in live slot `index`, for update in place.
    pub fn get_mut(&mut self, index: usize) -> (r: &mut T)
        requires
            old(self).wf(),
            index < old(self).capacity_spec(),
            old(self)@[index as int] is Some,
        ensures
            *r == old(self)@[index as int]->Some_0,
            final(self)@ == old(self)@.update(index as int, Some(*final(r))),
            final(self).cursor() == old(self).cursor(),
            final(self).wf(),
            final(self).capacity_spec() == old(self).capacity_spec(),
    {
        self.slots[index].as_mut().unwrap()
    }

    /// Stores `value` and returns its slot: `free_id` when given (a slot the
    /// cursor has passed and that is free), else the cursor's next slot, or
    /// `PoolExhausted` when the cursor has passed every slot.
    pub fn allocate(&mut self, value: T, free_id: Option<usize>) -> (r: Result<usize, PoolError>)
        requires
            old(self).wf(),
            free_id matches Some(s) ==> s < old(self).cursor() && old(self)@[s as int] is None,
        ensures
            final(self).wf(),
            final(self).capacity_spec() == old(self).capacity_spec(),
            free_id matches Some(s) ==> {
                &&& r == Ok::<usize, PoolError>(s)
                &&& final(self)@ == old(self)@.update(s as int, Some(value))
                &&& final(self).cursor() == old(self).cursor()
            },
            free_id is None ==> bump(old(self).cursor(), old(self).capacity_spec()) == (
                match r {
                    Ok(s) => Some(s as nat),
                    Err(_) => None,
                },
                final(self).cursor(),
            ),
            free_id is None && old(self).cursor() < old(self).capacity_spec() ==> {
                &&& r == Ok::<usize, PoolError>(old(self).cursor() as usize)
                &&& final(self)@ == old(self)@.update(old(self).cursor() as int, Some(value))
                &&& final(self).cursor() == old(self).cursor() + 1
            },
            free_id is None && old(self).cursor() >= old(self).capacity_spec() ==> {
                &&& r == Err::<usize, PoolError>(PoolError::PoolExhausted)
                &&& *final(self) == *old(self)
            },
    {
        let index = match free_id {
            Some(index) => index,
            None => {
                if self.next < self.slots.len() {
                    let index = self.next;
                    self.next = self.next + 1;
                    index
                } else {
                    return Err(PoolError::PoolExhausted);
                }
            },
        };
        self.slots.set(index, Some(value));
        Ok(index)
    }

    /// Drops the value in live slot `index`, leaving the slot free. The
    /// cursor does not move back.
    pub fn deallocate(&mut self, index: usize)
        requires
            old(self).wf(),
            index < old(self).capacity_spec(),
            old(self)@[index as int] is Some,
        ensures
            final(self).wf(),
            final(self)@ == old(self)@.update(index as int, None),
            final(self).cursor() == old(self).cursor(),
    {
        self.slots.set(index, None);
    }
}

} // verus!
