//! Fixed-capacity circular buffer with a read cursor and a write cursor.
//!
//! The buffer never grows: a push into a full buffer is dropped. Both cursors
//! are unset while the buffer is empty, and the number of queued items is
//! derived from the distance between them.

use vstd::arithmetic::div_mod::{
    lemma_add_mod_noop_right, lemma_mod_sub_multiples_vanish, lemma_small_mod,
};
use vstd::prelude::*;

verus! {

/// The mathematical state of a ring buffer: every storage slot, and the two
/// cursors. Queued items occupy the slots from `read` to `write`, wrapping
/// around the end of the storage.
pub struct RingState<T> {
    pub storage: Seq<T>,
    pub read: Option<usize>,
    pub write: Option<usize>,
}

/// `v` is a value that `T::default()` may return.
pub open spec fn is_default<T: Default>(v: T) -> bool {
    call_ensures(T::default, (), v)
}

impl<T> RingState<T> {
    pub open spec fn capacity(self) -> nat {
        self.storage.len()
    }

    /// The cursors are set together, and point into the storage when set.
    /// The storage is one that a machine can address.
    pub open spec fn wf(self) -> bool {
        &&& self.capacity() <= usize::MAX
        &&& match (self.read, self.write) {
            (Some(r), Some(w)) => r < self.capacity() && w < self.capacity(),
            (None, None) => true,
            _ => false,
        }
    }

    pub open spec fn is_empty(self) -> bool {
        self.read is None
    }

    /// Number of queued items, from the distance between the cursors.
    pub open spec fn len(self) -> nat {
        match (self.read, self.write) {
            (Some(r), Some(w)) => if w >= r {
                (w - r + 1) as nat
            } else {
                (w + self.capacity() - r + 1) as nat
            },
            _ => 0,
        }
    }

    pub open spec fn is_full(self) -> bool {
        self.len() == self.capacity()
    }

    /// The storage slot that lies `offset` places after the read cursor.
    pub open spec fn slot(self, offset: int) -> int
        recommends
            self.read is Some,
    {
        (self.read->0 + offset) % (self.capacity() as int)
    }

    /// The queued items, oldest first.
    pub open spec fn contents(self) -> Seq<T> {
        Seq::new(self.len(), |i: int| self.storage[self.slot(i)])
    }

    /// State after a push: dropped when full, otherwise written one slot past
    /// the write cursor (slot 0 for an empty buffer).
    pub open spec fn push(self, value: T) -> Self {
        if self.is_full() {
            self
        } else {
            match self.write {
                Some(w) => {
                    let next = ((w + 1) % (self.capacity() as int)) as usize;
                    RingState {
                        storage: self.storage.update(next as int, value),
                        read: self.read,
                        write: Some(next),
                    }
                },
                None => RingState {
                    storage: self.storage.update(0, value),
                    read: Some(0),
                    write: Some(0),
                },
            }
        }
    }

    /// The item that the next pop hands out.
    pub open spec fn front(self) -> Option<T> {
        match self.read {
            Some(r) => Some(self.storage[r as int]),
            None => None,
        }
    }

    /// State after a pop: the read cursor moves one slot on, and both cursors
    /// are cleared when the last item leaves.
    pub open spec fn pop(self) -> Self {
        match self.read {
            Some(r) => if self.read == self.write {
                RingState { storage: self.storage, read: None, write: None }
            } else {
                RingState {
                    storage: self.storage,
                    read: Some(((r + 1) % (self.capacity() as int)) as usize),
                    write: self.write,
                }
            },
            None => self,
        }
    }

    /// State after a write at the write cursor, which stays where it is.
    /// Nothing is written while the buffer is empty.
    pub open spec fn put(self, value: T) -> Self {
        match self.write {
            Some(w) => RingState {
                storage: self.storage.update(w as int, value),
                read: self.read,
                write: self.write,
            },
            None => self,
        }
    }

    /// State after the read cursor is moved to `index`, wrapped into the
    /// storage. An empty buffer has no cursor to move.
    pub open spec fn set_read(self, index: usize) -> Self {
        match self.read {
            Some(_) => RingState {
                storage: self.storage,
                read: Some(((index as int) % (self.capacity() as int)) as usize),
                write: self.write,
            },
            None => self,
        }
    }

    /// State after the write cursor is moved to `index`, wrapped into the
    /// storage. An empty buffer has no cursor to move.
    pub open spec fn set_write(self, index: usize) -> Self {
        match self.write {
            Some(_) => RingState {
                storage: self.storage,
                read: self.read,
                write: Some(((index as int) % (self.capacity() as int)) as usize),
            },
            None => self,
        }
    }

    /// State after every item of `items` was pushed, first to last.
    pub open spec fn push_all(self, items: Seq<T>) -> Self
        decreases items.len(),
    {
        if items.len() == 0 {
            self
        } else {
            self.push_all(items.drop_last()).push(items.last())
        }
    }

    /// State after `n` pops.
    pub open spec fn pop_n(self, n: nat) -> Self
        decreases n,
    {
        if n == 0 {
            self
        } else {
            self.pop().pop_n((n - 1) as nat)
        }
    }

    /// What `n` pops in a row hand out, in the order of the calls.
    pub open spec fn popped(self, n: nat) -> Seq<Option<T>>
        decreases n,
    {
        if n == 0 {
            Seq::empty()
        } else {
            seq![self.front()] + self.pop().popped((n - 1) as nat)
        }
    }

    /// State after each item of `items` in turn was pushed and the oldest
    /// item popped right after it.
    pub open spec fn push_pop_all(self, items: Seq<T>) -> Self
        decreases items.len(),
    {
        if items.len() == 0 {
            self
        } else {
            self.push_pop_all(items.drop_last()).push(items.last()).pop()
        }
    }

    /// State after, for each item of `items` in turn, the oldest item was
    /// popped and the new one pushed.
    pub open spec fn pop_push_all(self, items: Seq<T>) -> Self
        decreases items.len(),
    {
        if items.len() == 0 {
            self
        } else {
            self.pop_push_all(items.drop_last()).pop().push(items.last())
        }
    }
}

/// Wrapping a sum of a slot and an offset below the capacity takes at most
/// one subtraction.
proof fn lemma_wrap_once(base: int, offset: int, capacity: int)
    requires
        0 <= base < capacity,
        0 <= offset <= capacity,
    ensures
        (base + offset) % capacity == if base + offset < capacity {
            base + offset
        } else {
            base + offset - capacity
        },
{
    if base + offset < capacity {
        lemma_small_mod((base + offset) as nat, capacity as nat);
    } else {
        lemma_mod_sub_multiples_vanish(base + offset, capacity);
        lemma_small_mod((base + offset - capacity) as nat, capacity as nat);
    }
}

/// A push into a buffer that has room appends the value to the queued items
/// and leaves the capacity alone.
pub proof fn lemma_push_appends<T>(s: RingState<T>, value: T)
    requires
        s.wf(),
        !s.is_full(),
    ensures
        s.push(value).wf(),
        s.push(value).capacity() == s.capacity(),
        s.push(value).len() == s.len() + 1,
        s.push(value).contents() == s.contents().push(value),
{
    let t = s.push(value);
    let capacity = s.capacity() as int;
    match s.write {
        Some(w) => {
            let r = s.read->0;
            lemma_wrap_once(w as int, 1, capacity);
            assert(t.len() == s.len() + 1);
            assert forall|i: int| 0 <= i < t.len() implies t.contents()[i] == s.contents().push(
                value,
            )[i] by {
                lemma_wrap_once(r as int, i, capacity);
            }
        },
        None => {
            lemma_wrap_once(0, 0, capacity);
        },
    }
    assert(t.contents() =~= s.contents().push(value));
}

/// A push into a full buffer changes nothing.
pub proof fn lemma_push_full_is_dropped<T>(s: RingState<T>, value: T)
    requires
        s.is_full(),
    ensures
        s.push(value) == s,
{
}

/// A pop from a buffer that holds something hands out the oldest queued item
/// and leaves the others queued in their order.
pub proof fn lemma_pop_takes_front<T>(s: RingState<T>)
    requires
        s.wf(),
        !s.is_empty(),
    ensures
        s.front() == Some(s.contents()[0]),
        s.pop().wf(),
        s.pop().capacity() == s.capacity(),
        s.pop().len() == s.len() - 1,
        s.pop().contents() == s.contents().drop_first(),
{
    let t = s.pop();
    let capacity = s.capacity() as int;
    let r = s.read->0;
    lemma_wrap_once(r as int, 0, capacity);
    lemma_wrap_once(r as int, 1, capacity);
    assert(t.len() == s.len() - 1);
    if t.read is Some {
        let r2 = t.read->0;
        assert forall|i: int| 0 <= i < t.len() implies t.contents()[i]
            == s.contents().drop_first()[i] by {
            lemma_wrap_once(r2 as int, i, capacity);
            lemma_wrap_once(r as int, i + 1, capacity);
        }
    }
    assert(t.contents() =~= s.contents().drop_first());
}

/// A pop from an empty buffer hands out nothing and changes nothing.
pub proof fn lemma_pop_empty<T>(s: RingState<T>)
    requires
        s.is_empty(),
    ensures
        s.front() is None,
        s.pop() == s,
{
}

/// Pushing items for which there is room queues them behind the items
/// already there, in the order in which they were pushed.
pub proof fn lemma_push_all_appends<T>(s: RingState<T>, items: Seq<T>)
    requires
        s.wf(),
        s.len() + items.len() <= s.capacity(),
    ensures
        s.push_all(items).wf(),
        s.push_all(items).capacity() == s.capacity(),
        s.push_all(items).len() == s.len() + items.len(),
        s.push_all(items).contents() == s.contents() + items,
    decreases items.len(),
{
    if items.len() == 0 {
        assert(s.contents() + items =~= s.contents());
    } else {
        lemma_push_all_appends(s, items.drop_last());
        let before = s.push_all(items.drop_last());
        lemma_push_appends(before, items.last());
        assert((s.contents() + items.drop_last()).push(items.last()) =~= s.contents() + items);
    }
}

/// Popping `n` of the queued items hands them out oldest first and leaves
/// the rest queued in their order.
pub proof fn lemma_pop_n_takes_prefix<T>(s: RingState<T>, n: nat)
    requires
        s.wf(),
        n <= s.len(),
    ensures
        s.pop_n(n).wf(),
        s.pop_n(n).capacity() == s.capacity(),
        s.pop_n(n).contents() == s.contents().skip(n as int),
        s.popped(n) == s.contents().take(n as int).map_values(|v: T| Some(v)),
    decreases n,
{
    let wrap = |v: T| Some(v);
    if n == 0 {
        assert(s.contents().skip(0) =~= s.contents());
        assert(s.popped(0) =~= s.contents().take(0).map_values(wrap));
    } else {
        lemma_pop_takes_front(s);
        lemma_pop_n_takes_prefix(s.pop(), (n - 1) as nat);
        assert(s.contents().drop_first().skip(n - 1) =~= s.contents().skip(n as int));
        assert(seq![s.front()] + s.contents().drop_first().take(n - 1).map_values(wrap)
            =~= s.contents().take(n as int).map_values(wrap));
    }
}

/// First in, first out: after as many items as the capacity were pushed into
/// an empty buffer, as many pops hand them out in the order in which they
/// went in, and the buffer is empty again.
pub proof fn lemma_fifo<T>(s: RingState<T>, items: Seq<T>)
    requires
        s.wf(),
        s.is_empty(),
        items.len() == s.capacity(),
    ensures
        s.push_all(items).contents() == items,
        s.push_all(items).popped(items.len()) == items.map_values(|v: T| Some(v)),
        s.push_all(items).pop_n(items.len()).is_empty(),
{
    lemma_push_all_appends(s, items);
    let filled = s.push_all(items);
    assert(s.contents() + items =~= items);
    lemma_pop_n_takes_prefix(filled, items.len());
    assert(items.take(items.len() as int) =~= items);
    let drained = filled.pop_n(items.len());
    assert(drained.contents().len() == 0);
}

/// A push followed by a pop keeps the number of queued items where it was,
/// provided the push found room: the window slides by one item.
pub proof fn lemma_push_pop_slides<T>(s: RingState<T>, value: T)
    requires
        s.wf(),
        !s.is_full(),
    ensures
        s.push(value).pop().wf(),
        s.push(value).pop().capacity() == s.capacity(),
        s.push(value).pop().len() == s.len(),
        s.push(value).pop().contents() == s.contents().push(value).drop_first(),
{
    lemma_push_appends(s, value);
    lemma_pop_takes_front(s.push(value));
}

/// A pop followed by a push keeps the number of queued items where it was,
/// provided the pop found an item: the window slides by one item.
pub proof fn lemma_pop_push_slides<T>(s: RingState<T>, value: T)
    requires
        s.wf(),
        !s.is_empty(),
    ensures
        s.pop().push(value).wf(),
        s.pop().push(value).capacity() == s.capacity(),
        s.pop().push(value).len() == s.len(),
        s.pop().push(value).contents() == s.contents().drop_first().push(value),
{
    lemma_pop_takes_front(s);
    lemma_push_appends(s.pop(), value);
}

/// Steady state: however many items are pushed, each followed by a pop, a
/// buffer that was not full keeps its number of queued items.
pub proof fn lemma_push_pop_all_keeps_len<T>(s: RingState<T>, items: Seq<T>)
    requires
        s.wf(),
        !s.is_full(),
    ensures
        s.push_pop_all(items).wf(),
        s.push_pop_all(items).capacity() == s.capacity(),
        s.push_pop_all(items).len() == s.len(),
    decreases items.len(),
{
    if items.len() > 0 {
        lemma_push_pop_all_keeps_len(s, items.drop_last());
        lemma_push_pop_slides(s.push_pop_all(items.drop_last()), items.last());
    }
}

/// Steady state of a delay line: however many times the oldest item is
/// popped and a new one pushed, a buffer that was not empty keeps its number
/// of queued items.
pub proof fn lemma_pop_push_all_keeps_len<T>(s: RingState<T>, items: Seq<T>)
    requires
        s.wf(),
        !s.is_empty(),
    ensures
        s.pop_push_all(items).wf(),
        s.pop_push_all(items).capacity() == s.capacity(),
        s.pop_push_all(items).len() == s.len(),
    decreases items.len(),
{
    if items.len() > 0 {
        lemma_pop_push_all_keeps_len(s, items.drop_last());
        lemma_pop_push_slides(s.pop_push_all(items.drop_last()), items.last());
    }
}

/// The slot `offset` places after `base` in a storage of `capacity` slots,
/// computed without leaving the range of `usize`.
fn wrapped_slot(base: usize, offset: usize, capacity: usize) -> (slot: usize)
    requires
        base < capacity,
    ensures
        slot == (base + offset) % (capacity as int),
        slot < capacity,
    no_unwind
{
    let step = offset % capacity;
    proof {
        lemma_add_mod_noop_right(base as int, offset as int, capacity as int);
        lemma_wrap_once(base as int, step as int, capacity as int);
    }
    if step < capacity - base {
        base + step
    } else {
        step - (capacity - base)
    }
}

/// A circular buffer of fixed capacity. Items leave it in the order in which
/// they came in; its storage can also be read and written in place, at a
/// distance from the read cursor or under the write cursor.
#[derive(Debug)]
pub struct RingBuffer<T> {
    buffer: Vec<T>,
    /// The read cursor and the write cursor, in this order.
    cursors: Option<(usize, usize)>,
}

impl<T> View for RingBuffer<T> {
    type V = RingState<T>;

    closed spec fn view(&self) -> RingState<T> {
        RingState {
            storage: self.buffer@,
            read: match self.cursors {
                Some((r, _)) => Some(r),
                None => None,
            },
            write: match self.cursors {
                Some((_, w)) => Some(w),
                None => None,
            },
        }
    }
}

impl<T> RingBuffer<T> {
    #[verifier::type_invariant]
    spec fn inv(self) -> bool {
        self@.wf()
    }
}

impl<T: Copy> Clone for RingBuffer<T> {
    /// A buffer in the same state, with a storage of its own.
    fn clone(&self) -> (copy: Self)
        ensures
            copy@ == self@,
    {
        proof {
            use_type_invariant(self);
        }
        let capacity = self.buffer.len();
        let mut buffer: Vec<T> = Vec::with_capacity(capacity);
        let mut i: usize = 0;
        while i < capacity
            invariant
                i <= capacity,
                capacity == self.buffer@.len(),
                buffer@ == self.buffer@.take(i as int),
            decreases capacity - i,
        {
            buffer.push(self.buffer[i]);
            assert(self.buffer@.take(i as int).push(self.buffer@[i as int])
                =~= self.buffer@.take(i + 1));
            i += 1;
        }
        assert(self.buffer@.take(capacity as int) =~= self.buffer@);
        RingBuffer { buffer, cursors: self.cursors }
    }
}

impl<T: Copy + Default> RingBuffer<T> {
    /// An empty buffer of `capacity` slots, each holding the default value.
    pub fn new(capacity: usize) -> (rb: Self)
        ensures
            rb@.wf(),
            rb@.capacity() == capacity,
            rb@.is_empty(),
            forall|i: int| 0 <= i < capacity ==> is_default(#[trigger] rb@.storage[i]),
    {
        let zero = T::default();
        let mut buffer: Vec<T> = Vec::new();
        let mut i: usize = 0;
        while i < capacity
            invariant
                i <= capacity,
                buffer@.len() == i,
                is_default(zero),
                forall|j: int| 0 <= j < i ==> buffer@[j] == zero,
            decreases capacity - i,
        {
            buffer.push(zero);
            i += 1;
        }
        RingBuffer { buffer, cursors: None }
    }

    /// Fills every slot with the default value and empties the buffer.
    pub fn reset(&mut self)
        ensures
            final(self)@.wf(),
            final(self)@.capacity() == old(self)@.capacity(),
            final(self)@.is_empty(),
            forall|i: int|
                0 <= i < final(self)@.capacity() ==> is_default(#[trigger] final(self)@.storage[i]),
    {
        let zero = T::default();
        let capacity = self.buffer.len();
        self.cursors = None;
        let mut i: usize = 0;
        while i < capacity
            invariant
                i <= capacity,
                self.buffer@.len() == capacity,
                self.cursors is None,
                is_default(zero),
                forall|j: int| 0 <= j < i ==> self.buffer@[j] == zero,
            decreases capacity - i,
        {
            self.buffer[i] = zero;
            i += 1;
        }
    }

    /// Overwrites the slot under the write cursor without moving the cursor.
    /// An empty buffer has no such slot and is left as it is.
    pub fn put(&mut self, value: T)
        ensures
            final(self)@ == old(self)@.put(value),
            final(self)@.wf(),
    {
        proof {
            use_type_invariant(&*self);
        }
        match self.cursors {
            Some((_, w)) => {
                self.buffer[w] = value;
            },
            None => {},
        }
    }

    /// The item under the read cursor, which stays where it is; the default
    /// value when the buffer is empty.
    pub fn peek(&self) -> (value: T)
        ensures
            match self@.front() {
                Some(front) => value == front,
                None => is_default(value),
            },
    {
        proof {
            use_type_invariant(self);
        }
        match self.cursors {
            Some((r, _)) => self.buffer[r],
            None => T::default(),
        }
    }

    /// The slot `offset` places after the read cursor, wrapping around the
    /// end of the storage; the default value when the buffer is empty. An
    /// offset below the number of queued items finds the queued item at that
    /// place, the oldest at offset zero.
    pub fn get(&self, offset: usize) -> (value: T)
        ensures
            match self@.read {
                Some(_) => value == self@.storage[self@.slot(offset as int)],
                None => is_default(value),
            },
            offset < self@.len() ==> value == self@.contents()[offset as int],
    {
        proof {
            use_type_invariant(self);
        }
        match self.cursors {
            Some((r, _)) => {
                let slot = wrapped_slot(r, offset, self.buffer.len());
                self.buffer[slot]
            },
            None => T::default(),
        }
    }

    /// Appends `value` behind the write cursor. A full buffer drops it.
    pub fn push(&mut self, value: T)
        ensures
            final(self)@ == old(self)@.push(value),
            final(self)@.wf(),
            final(self)@.capacity() == old(self)@.capacity(),
            old(self)@.is_full() ==> final(self)@ == old(self)@,
            !old(self)@.is_full() ==> final(self)@.contents() == old(self)@.contents().push(value),
        no_unwind
    {
        proof {
            use_type_invariant(&*self);
        }
        let capacity = self.buffer.len();
        if self.len() == capacity {
            return ;
        }
        proof {
            lemma_push_appends(self@, value);
        }
        match self.cursors {
            Some((r, w)) => {
                let next = wrapped_slot(w, 1, capacity);
                self.buffer[next] = value;
                self.cursors = Some((r, next));
            },
            None => {
                self.buffer[0] = value;
                self.cursors = Some((0, 0));
            },
        }
    }

    /// Takes the oldest item out, or returns `None` when the buffer is
    /// empty.
    pub fn pop(&mut self) -> (value: Option<T>)
        ensures
            value == old(self)@.front(),
            final(self)@ == old(self)@.pop(),
            final(self)@.wf(),
            final(self)@.capacity() == old(self)@.capacity(),
            value is Some <==> !old(self)@.is_empty(),
            !old(self)@.is_empty() ==> {
                &&& value == Some(old(self)@.contents()[0])
                &&& final(self)@.contents() == old(self)@.contents().drop_first()
            },
        no_unwind
    {
        proof {
            use_type_invariant(&*self);
        }
        match self.cursors {
            Some((r, w)) => {
                proof {
                    lemma_pop_takes_front(self@);
                }
                let value = self.buffer[r];
                if r == w {
                    self.cursors = None;
                } else {
                    self.cursors = Some((wrapped_slot(r, 1, self.buffer.len()), w));
                }
                Some(value)
            },
            None => None,
        }
    }

    /// The two queued items between which a read at a fractional distance
    /// from the read cursor falls: the item `offset` places after the oldest
    /// one, which is what `get` finds there, and the item behind it. `None`
    /// unless both are queued, so that no slot outside the queued items is
    /// ever read.
    pub fn get_taps(&self, offset: usize) -> (taps: Option<(T, T)>)
        ensures
            taps is Some <==> offset + 1 < self@.len(),
            taps matches Some((near, far)) ==> {
                &&& near == self@.contents()[offset as int]
                &&& far == self@.contents()[offset + 1]
                &&& near == self@.storage[self@.slot(offset as int)]
            },
    {
        let len = self.len();
        if len < 2 || offset >= len - 1 {
            None
        } else {
            Some((self.get(offset), self.get(offset + 1)))
        }
    }

    /// The slot of the read cursor, or `None` when the buffer is empty.
    pub fn get_read_index(&self) -> (index: Option<usize>)
        ensures
            index == self@.read,
    {
        match self.cursors {
            Some((r, _)) => Some(r),
            None => None,
        }
    }

    /// Moves the read cursor to `index`, wrapped into the storage. An empty
    /// buffer has no cursor to move and is left as it is.
    pub fn set_read_index(&mut self, index: usize)
        ensures
            final(self)@ == old(self)@.set_read(index),
            final(self)@.wf(),
    {
        proof {
            use_type_invariant(&*self);
        }
        match self.cursors {
            Some((_, w)) => {
                self.cursors = Some((index % self.buffer.len(), w));
            },
            None => {},
        }
    }

    /// The slot of the write cursor, or `None` when the buffer is empty.
    pub fn get_write_index(&self) -> (index: Option<usize>)
        ensures
            index == self@.write,
    {
        match self.cursors {
            Some((_, w)) => Some(w),
            None => None,
        }
    }

    /// Moves the write cursor to `index`, wrapped into the storage. An empty
    /// buffer has no cursor to move and is left as it is.
    pub fn set_write_index(&mut self, index: usize)
        ensures
            final(self)@ == old(self)@.set_write(index),
            final(self)@.wf(),
    {
        proof {
            use_type_invariant(&*self);
        }
        match self.cursors {
            Some((r, _)) => {
                self.cursors = Some((r, index % self.buffer.len()));
            },
            None => {},
        }
    }

    /// Number of queued items.
    pub fn len(&self) -> (n: usize)
        ensures
            self@.wf(),
            n == self@.len(),
            n <= self@.capacity(),
        no_unwind
    {
        proof {
            use_type_invariant(self);
        }
        let capacity = self.buffer.len();
        match self.cursors {
            Some((r, w)) => {
                if w >= r {
                    w - r + 1
                } else {
                    w + (capacity - r) + 1
                }
            },
            None => 0,
        }
    }

    /// Number of storage slots.
    pub fn capacity(&self) -> (n: usize)
        ensures
            n == self@.capacity(),
        no_unwind
    {
        self.buffer.len()
    }
}

} // verus!
