use vstd::prelude::*;

verus! {

/// Capacity used by `CircularBuffer::default`.
pub const DEFAULT_CAPACITY: usize = 32;

/// Why a buffer could not be built.
#[derive(Debug, Clone, Copy, PartialEq, Eq, Structural)]
pub enum BufferError {
    /// A buffer must be able to hold at least one element.
    InvalidCapacity,
}

/// The last `c` elements of `s`, or all of `s` when it holds no more than `c`.
pub open spec fn keep_last<T>(s: Seq<T>, c: nat) -> Seq<T> {
    if s.len() <= c {
        s
    } else {
        s.subrange(s.len() - c, s.len() as int)
    }
}

/// Logical contents after appending `e` to contents `s` with capacity `c`.
pub open spec fn appended<T>(s: Seq<T>, c: nat, e: T) -> Seq<T> {
    keep_last(s.push(e), c)
}

/// Logical contents after appending each element of `xs`, in order, to contents `s`.
pub open spec fn after_appends<T>(s: Seq<T>, c: nat, xs: Seq<T>) -> Seq<T>
    decreases xs.len(),
{
    if xs.len() == 0 {
        s
    } else {
        appended(after_appends(s, c, xs.drop_last()), c, xs.last())
    }
}

proof fn lemma_keep_last_push<T>(t: Seq<T>, c: nat, e: T)
    requires
        c >= 1,
    ensures
        keep_last(keep_last(t, c).push(e), c) == keep_last(t.push(e), c),
{
    assert(keep_last(keep_last(t, c).push(e), c) =~= keep_last(t.push(e), c));
}

/// Appending a run of elements to contents that fit the capacity keeps exactly
/// the last `c` elements of the old contents followed by the run.
pub proof fn lemma_after_appends<T>(s: Seq<T>, c: nat, xs: Seq<T>)
    requires
        c >= 1,
        s.len() <= c,
    ensures
        after_appends(s, c, xs) == keep_last(s + xs, c),
    decreases xs.len(),
{
    if xs.len() == 0 {
        assert(s + xs =~= s);
    } else {
        lemma_after_appends(s, c, xs.drop_last());
        lemma_keep_last_push(s + xs.drop_last(), c, xs.last());
        assert((s + xs.drop_last()).push(xs.last()) =~= s + xs);
    }
}

/// Starting from an empty buffer of capacity `c`, after `n` appends the buffer
/// holds `min(n, c)` elements.
pub proof fn lemma_length_after_appends<T>(c: nat, xs: Seq<T>)
    requires
        c >= 1,
    ensures
        after_appends(Seq::<T>::empty(), c, xs).len() == if xs.len() <= c {
            xs.len()
        } else {
            c
        },
{
    lemma_after_appends(Seq::<T>::empty(), c, xs);
    assert(Seq::<T>::empty() + xs =~= xs);
}

/// Starting from an empty buffer of capacity `c`, after more than `c` appends
/// the buffer holds exactly the last `c` elements appended, oldest first.
pub proof fn lemma_oldest_evicted<T>(c: nat, xs: Seq<T>)
    requires
        c >= 1,
        xs.len() > c,
    ensures
        after_appends(Seq::<T>::empty(), c, xs) == xs.subrange(xs.len() - c, xs.len() as int),
{
    lemma_after_appends(Seq::<T>::empty(), c, xs);
    assert(Seq::<T>::empty() + xs =~= xs);
}

/// However many elements are appended to contents that fit the capacity, the
/// length never exceeds the capacity.
pub proof fn lemma_capacity_ceiling<T>(s: Seq<T>, c: nat, xs: Seq<T>)
    requires
        c >= 1,
        s.len() <= c,
    ensures
        after_appends(s, c, xs).len() <= c,
{
    lemma_after_appends(s, c, xs);
}

/// Physical slot of the element of logical rank `i` (0 is the oldest), when
/// the oldest element sits in slot `start`: `(start + i) mod c` for
/// `start < c` and `i < c`.
pub open spec fn slot_of(start: nat, i: nat, c: nat) -> nat {
    if start + i < c {
        start + i
    } else {
        (start + i - c) as nat
    }
}

/// A fixed-capacity buffer that overwrites its oldest element once full.
///
/// Elements are stored in `inner` by physical slot; `current` is the slot that
/// the next append overwrites once the buffer is full, which is also the slot
/// of the oldest element.
#[derive(Debug)]
pub struct CircularBuffer<T> {
    inner: Vec<T>,
    current: usize,
    capacity: usize,
}

impl<T> View for CircularBuffer<T> {
    type V = Seq<T>;

    /// The retained elements, oldest first.
    closed spec fn view(&self) -> Seq<T> {
        Seq::new(
            self.inner@.len(),
            |i: int| self.inner@[slot_of(self.current as nat, i as nat, self.capacity as nat) as int],
        )
    }
}

impl<T> CircularBuffer<T> {
    /// The capacity is positive and never exceeded, the write cursor is a
    /// valid slot, and it stays at slot 0 until the buffer first fills up.
    pub closed spec fn wf(&self) -> bool {
        &&& self.capacity >= 1
        &&& self.inner@.len() <= self.capacity
        &&& self.current < self.capacity
        &&& self.inner@.len() < self.capacity ==> self.current == 0
    }

    /// The fixed capacity.
    pub closed spec fn cap(&self) -> nat {
        self.capacity as nat
    }

    /// The raw storage, by physical slot.
    pub closed spec fn slots(&self) -> Seq<T> {
        self.inner@
    }

    /// The physical slot of the oldest element.
    pub closed spec fn oldest_slot(&self) -> nat {
        self.current as nat
    }

    /// The logical view is storage read from the oldest slot on, wrapping
    /// around at the capacity: a rotation of storage, and no rotation at all
    /// before the buffer first fills up.
    pub proof fn lemma_view_is_rotation(&self)
        requires
            self.wf(),
        ensures
            self.cap() >= 1,
            self@.len() == self.slots().len(),
            self@.len() <= self.cap(),
            self.oldest_slot() < self.cap(),
            self@.len() < self.cap() ==> self.oldest_slot() == 0,
            forall|i: int|
                0 <= i < self@.len() ==> #[trigger] self@[i] == self.slots()[((self.oldest_slot()
                    + i) % (self.cap() as int))],
    {
        assert forall|i: int| 0 <= i < self@.len() implies #[trigger] self@[i] == self.slots()[((
        self.oldest_slot() + i) % (self.cap() as int))] by {
            let c = self.cap() as int;
            let k = self.oldest_slot() + i;
            if k < c {
                vstd::arithmetic::div_mod::lemma_small_mod(k as nat, c as nat);
            } else {
                vstd::arithmetic::div_mod::lemma_mod_sub_multiples_vanish(k, c);
                vstd::arithmetic::div_mod::lemma_small_mod((k - c) as nat, c as nat);
            }
        }
    }

    /// An empty buffer that holds at most `capacity` elements; a capacity of
    /// zero is rejected.
    pub fn with_capacity(capacity: usize) -> (r: Result<Self, BufferError>)
        ensures
            capacity == 0 <==> r is Err,
            r is Err ==> r == Err::<Self, BufferError>(BufferError::InvalidCapacity),
            r matches Ok(b) ==> b.wf() && b@ == Seq::<T>::empty() && b.cap() == capacity
                && b.slots() == Seq::<T>::empty() && b.oldest_slot() == 0,
    {
        if capacity == 0 {
            return Err(BufferError::InvalidCapacity);
        }
        let r = CircularBuffer { inner: Vec::with_capacity(capacity), current: 0, capacity };
        assert(r@ =~= Seq::<T>::empty());
        assert(r.inner@ =~= Seq::<T>::empty());
        Ok(r)
    }

    /// Physical slot of the element of logical rank `rank` (0 is the oldest).
    pub fn physical_index(&self, rank: usize) -> (r: usize)
        requires
            self.wf(),
            rank < self@.len(),
        ensures
            r == slot_of(self.oldest_slot(), rank as nat, self.cap()),
            r < self.slots().len(),
            self.slots()[r as int] == self@[rank as int],
    {
        let c = self.capacity;
        let r = if self.current < c - rank {
            self.current + rank
        } else {
            self.current - (c - rank)
        };
        r
    }

    /// The element stored at physical slot `index`; this is not the logical
    /// (oldest-first) position.
    pub fn index(&self, index: usize) -> (r: &T)
        requires
            self.wf(),
            index < self@.len(),
        ensures
            *r == self.slots()[index as int],
    {
        &self.inner[index]
    }

    /// The element of logical rank `rank` (0 is the oldest).
    pub fn get(&self, rank: usize) -> (r: &T)
        requires
            self.wf(),
            rank < self@.len(),
        ensures
            *r == self@[rank as int],
    {
        let slot = self.physical_index(rank);
        self.index(slot)
    }

    /// Appends `element` as the newest entry, overwriting the oldest once full.
    pub fn append(&mut self, element: T)
        requires
            old(self).wf(),
        ensures
            final(self).wf(),
            final(self).cap() == old(self).cap(),
            final(self)@ == appended(old(self)@, old(self).cap(), element),
            final(self)@.len() <= final(self).cap(),
            old(self)@.len() < old(self).cap() ==> final(self).slots() == old(self).slots().push(
                element,
            ) && final(self).oldest_slot() == old(self).oldest_slot(),
            old(self)@.len() == old(self).cap() ==> final(self).slots() == old(self).slots().update(
                old(self).oldest_slot() as int,
                element,
            ) && final(self).oldest_slot() == (old(self).oldest_slot() + 1) % old(
                self,
            ).cap(),
    {
        let ghost before = self@;
        let c = self.capacity;
        if self.inner.len() == c {
            let cur = self.current;
            self.inner.set(cur, element);
            self.current = if cur + 1 == c {
                0
            } else {
                cur + 1
            };
            proof {
                assert(self@ =~= keep_last(before.push(element), c as nat));
                if cur + 1 == c {
                    vstd::arithmetic::div_mod::lemma_mod_self_0(c as int);
                } else {
                    vstd::arithmetic::div_mod::lemma_small_mod((cur + 1) as nat, c as nat);
                }
            }
        } else {
            self.inner.push(element);
            proof {
                assert(self@ =~= keep_last(before.push(element), c as nat));
            }
        }
    }

    /// Appends `element`; the same as `append`.
    pub fn push(&mut self, element: T)
        requires
            old(self).wf(),
        ensures
            final(self).wf(),
            final(self).cap() == old(self).cap(),
            final(self)@ == appended(old(self)@, old(self).cap(), element),
            final(self)@.len() <= final(self).cap(),
            old(self)@.len() < old(self).cap() ==> final(self).slots() == old(self).slots().push(
                element,
            ) && final(self).oldest_slot() == old(self).oldest_slot(),
            old(self)@.len() == old(self).cap() ==> final(self).slots() == old(self).slots().update(
                old(self).oldest_slot() as int,
                element,
            ) && final(self).oldest_slot() == (old(self).oldest_slot() + 1) % old(
                self,
            ).cap(),
    {
        self.append(element);
    }

    /// A walk over the retained elements, oldest first, as they stand now.
    pub fn iter(&self) -> (r: CircularBufferIterator<'_, T>)
        requires
            self.wf(),
        ensures
            r.wf(),
            r.buffer() == self,
            r.rest() == self@,
    {
        CircularBufferIterator { buffer: self, remaining: self.len() }
    }

    /// Number of retained elements.
    pub fn len(&self) -> (r: usize)
        requires
            self.wf(),
        ensures
            r == self@.len(),
            r == self.slots().len(),
            r <= self.cap(),
            self.cap() >= 1,
            self.oldest_slot() < self.cap(),
            r < self.cap() ==> self.oldest_slot() == 0,
    {
        self.inner.len()
    }

    /// The fixed capacity.
    pub fn capacity(&self) -> (r: usize)
        ensures
            r == self.cap(),
    {
        self.capacity
    }
}

impl<T> Default for CircularBuffer<T> {
    /// An empty buffer of capacity `DEFAULT_CAPACITY`.
    fn default() -> (r: Self)
        ensures
            r.wf(),
            r@ == Seq::<T>::empty(),
            r.cap() == DEFAULT_CAPACITY,
            r.slots() == Seq::<T>::empty(),
            r.oldest_slot() == 0,
    {
        let r = CircularBuffer { inner: Vec::with_capacity(DEFAULT_CAPACITY), current: 0, capacity: DEFAULT_CAPACITY };
        assert(r@ =~= Seq::<T>::empty());
        r
    }
}

/// Yields the elements of a buffer oldest first; `remaining` counts those not
/// yet yielded.
#[derive(Debug)]
pub struct CircularBufferIterator<'a, T> {
    buffer: &'a CircularBuffer<T>,
    remaining: usize,
}

impl<'a, T> CircularBufferIterator<'a, T> {
    /// The buffer is well formed and no more remain than it holds.
    pub closed spec fn wf(&self) -> bool {
        self.buffer.wf() && self.remaining <= self.buffer@.len()
    }

    /// The buffer being walked.
    pub closed spec fn buffer(&self) -> &'a CircularBuffer<T> {
        self.buffer
    }

    /// The elements still to be yielded, in order.
    pub closed spec fn rest(&self) -> Seq<T> {
        let n = self.buffer@.len();
        self.buffer@.subrange(n - self.remaining, n as int)
    }

    /// The next element, oldest first, or `None` once every element was yielded.
    pub fn next(&mut self) -> (r: Option<&'a T>)
        requires
            old(self).wf(),
        ensures
            final(self).wf(),
            final(self).buffer() == old(self).buffer(),
            old(self).rest().len() == 0 ==> r is None && final(self).rest() == old(self).rest(),
            old(self).rest().len() > 0 ==> r == Some(&old(self).rest()[0]) && final(self).rest()
                == old(self).rest().drop_first(),
    {
        if self.remaining == 0 {
            None
        } else {
            let rank = self.buffer.len() - self.remaining;
            let r = self.buffer.get(rank);
            self.remaining = self.remaining - 1;
            proof {
                assert(self.rest() =~= old(self).rest().drop_first());
            }
            Some(r)
        }
    }
}

} // verus!
