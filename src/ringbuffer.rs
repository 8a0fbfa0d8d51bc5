use vstd::prelude::*;

verus! {

/// What a buffer with room for `cap` values holds, oldest first, after `x`
/// is pushed onto contents `s`: the oldest value leaves once it is full.
pub open spec fn push_bounded<T>(s: Seq<T>, x: T, cap: nat) -> Seq<T> {
    if s.len() < cap {
        s.push(x)
    } else {
        s.push(x).drop_first()
    }
}

/// Contents after pushing each value of `xs` in turn onto contents `s`.
pub open spec fn push_all<T>(s: Seq<T>, xs: Seq<T>, cap: nat) -> Seq<T>
    decreases xs.len(),
{
    if xs.len() == 0 {
        s
    } else {
        push_bounded(push_all(s, xs.drop_last(), cap), xs.last(), cap)
    }
}

/// The last `n` values of `s`, or all of `s` when it is no longer.
pub open spec fn last_n<T>(s: Seq<T>, n: nat) -> Seq<T> {
    if s.len() <= n {
        s
    } else {
        s.subrange(s.len() - n, s.len() as int)
    }
}

/// A capacity as the buffer uses it: zero is taken as one.
pub open spec fn clamp_capacity(capacity: usize) -> nat {
    if capacity == 0 {
        1
    } else {
        capacity as nat
    }
}

/// Fixed-capacity history of the most recent values, overwriting the oldest
/// once full. `last` is the next slot to overwrite.
pub struct RingBuffer<T> {
    data: Vec<T>,
    capacity: usize,
    last: usize,
}

impl<T> View for RingBuffer<T> {
    type V = Seq<T>;

    /// The values held, oldest first: from the cursor to the end of the
    /// store, then from its start up to the cursor.
    closed spec fn view(&self) -> Seq<T> {
        self.data@.subrange(self.last as int, self.data@.len() as int) + self.data@.subrange(
            0,
            self.last as int,
        )
    }
}

impl<T> RingBuffer<T> {
    pub closed spec fn wf(&self) -> bool {
        &&& 1 <= self.capacity
        &&& self.data@.len() <= self.capacity
        &&& self.last < self.capacity
        &&& self.data@.len() < self.capacity ==> self.last == 0
    }

    /// How many values the buffer keeps.
    pub closed spec fn cap(&self) -> nat {
        self.capacity as nat
    }

    proof fn lemma_view_len(&self)
        requires
            self.wf(),
        ensures
            self@.len() == self.data@.len(),
            self@.len() <= self.cap(),
    {
    }

    /// Empties the buffer; its capacity stays.
    pub fn clear(&mut self)
        requires
            old(self).wf(),
        ensures
            final(self).wf(),
            final(self)@ == Seq::<T>::empty(),
            final(self).cap() == old(self).cap(),
    {
        self.data.clear();
        self.last = 0;
        assert(self@ =~= Seq::<T>::empty());
    }

    /// An empty buffer that keeps `capacity` values (at least one).
    pub fn new(capacity: usize) -> (r: RingBuffer<T>)
        ensures
            r.wf(),
            r@ == Seq::<T>::empty(),
            r.cap() == clamp_capacity(capacity),
    {
        let capacity = if capacity == 0 {
            1
        } else {
            capacity
        };
        let r = RingBuffer { data: Vec::new(), capacity, last: 0 };
        assert(r@ =~= Seq::<T>::empty());
        r
    }

    /// Appends `item` as the newest value; once full, the oldest value is
    /// overwritten.
    pub fn push(&mut self, item: T)
        requires
            old(self).wf(),
        ensures
            final(self).wf(),
            final(self)@ == push_bounded(old(self)@, item, old(self).cap()),
            final(self).cap() == old(self).cap(),
    {
        proof {
            self.lemma_view_len();
        }
        if self.data.len() < self.capacity {
            self.data.push(item);
            assert(self@ =~= old(self)@.push(item));
            return;
        }
        let ghost d = self.data@;
        let ghost k = self.last as int;
        self.data.set(self.last, item);
        if self.last + 1 >= self.capacity {
            self.last = 0;
        } else {
            self.last = self.last + 1;
        }
        assert(self@ =~= old(self)@.push(item).drop_first()) by {
            assert(old(self)@ == d.subrange(k, d.len() as int) + d.subrange(0, k));
        }
    }

    /// The values held, oldest first, each a clone.
    pub fn to_vec(&self) -> (r: Vec<T>) where T: Clone
        requires
            self.wf(),
        ensures
            r@.len() == self@.len(),
            forall|i: int| 0 <= i < r@.len() ==> cloned(#[trigger] self@[i], r@[i]),
    {
        let mut v: Vec<T> = Vec::with_capacity(self.capacity);
        let n = self.data.len();
        let mut i: usize = self.last;
        while i < n
            invariant
                self.wf(),
                n == self.data@.len(),
                self.last <= i <= n,
                v@.len() == i - self.last,
                forall|j: int| 0 <= j < v@.len() ==> cloned(self.data@[j + self.last], v@[j]),
            decreases n - i,
        {
            let c = self.data[i].clone();
            v.push(c);
            i = i + 1;
        }
        let mut i: usize = 0;
        while i < self.last
            invariant
                self.wf(),
                n == self.data@.len(),
                0 <= i <= self.last,
                v@.len() == n - self.last + i,
                forall|j: int|
                    0 <= j < n - self.last ==> cloned(self.data@[j + self.last], v@[j]),
                forall|j: int|
                    n - self.last <= j < v@.len() ==> cloned(
                        self.data@[j - (n - self.last)],
                        v@[j],
                    ),
            decreases self.last - i,
        {
            let c = self.data[i].clone();
            v.push(c);
            i = i + 1;
        }
        proof {
            self.lemma_view_len();
        }
        v
    }

    /// Keeps `capacity` values from now on (at least one): the newest values
    /// that fit stay, oldest first, re-seated from the start of a new store.
    pub fn set_capacity(&mut self, capacity: usize)
        requires
            old(self).wf(),
        ensures
            final(self).wf(),
            final(self).cap() == clamp_capacity(capacity),
            final(self)@ == last_n(old(self)@, clamp_capacity(capacity)),
    {
        let capacity = if capacity == 0 {
            1
        } else {
            capacity
        };
        proof {
            self.lemma_view_len();
        }
        let mut ordered = self.data.split_off(self.last);
        ordered.append(&mut self.data);
        assert(ordered@ =~= old(self)@);
        if ordered.len() > capacity {
            let at = ordered.len() - capacity;
            ordered = ordered.split_off(at);
        }
        self.data = ordered;
        self.capacity = capacity;
        self.last = 0;
        assert(self@ =~= last_n(old(self)@, clamp_capacity(capacity)));
    }
}

/// Pushing values one by one onto contents that fit leaves the newest
/// `cap` values of everything seen, oldest first: never more than `cap`,
/// and exactly the last `cap` pushed once that many have come.
pub proof fn lemma_pushes_keep_newest<T>(s: Seq<T>, xs: Seq<T>, cap: nat)
    requires
        1 <= cap,
        s.len() <= cap,
    ensures
        push_all(s, xs, cap) == last_n(s + xs, cap),
        push_all(s, xs, cap).len() <= cap,
    decreases xs.len(),
{
    if xs.len() > 0 {
        lemma_pushes_keep_newest(s, xs.drop_last(), cap);
        let t = s + xs.drop_last();
        assert(s + xs =~= t.push(xs.last()));
        if t.len() < cap {
            assert(last_n(t, cap) == t);
        } else {
            assert(last_n(t, cap).push(xs.last()).drop_first() =~= last_n(t.push(xs.last()), cap));
        }
    }
}

/// After `clear`, any run of pushes leaves what the same run leaves in a
/// new buffer of the same capacity: the newest values pushed, up to the
/// capacity.
pub proof fn lemma_clear_like_new<T>(cleared: RingBuffer<T>, fresh: RingBuffer<T>, xs: Seq<T>)
    requires
        cleared.wf(),
        fresh.wf(),
        cleared@ == Seq::<T>::empty(),
        fresh@ == Seq::<T>::empty(),
        cleared.cap() == fresh.cap(),
    ensures
        push_all(cleared@, xs, cleared.cap()) == push_all(fresh@, xs, fresh.cap()),
        push_all(cleared@, xs, cleared.cap()) == last_n(xs, cleared.cap()),
{
    lemma_pushes_keep_newest(cleared@, xs, cleared.cap());
    assert(cleared@ + xs =~= xs);
}

} // verus!
