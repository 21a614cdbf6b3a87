//! Bounded-retention ring of records with a monotonically increasing write
//! index. The slot for logical index `i` is `i % capacity`; only the most
//! recent `capacity` indices are retrievable. The store's view is the whole
//! sequence of records ever pushed, oldest first.

use vstd::prelude::*;
use crate::signal::WakeSignal;

verus! {

/// Ring buffer with monotonic index. The single producer appends with
/// `push`; any number of readers observe with `get`, which never blocks and
/// never mutates.
pub struct R<T> {
    /// number of items to store; fixed at construction, always positive
    n: usize,
    /// next logical index to be written; only grows, never resets
    top: usize,
    /// backing slots, always exactly `n` of them
    v: Vec<T>,
    /// broadcast signal fired on every push
    notify: WakeSignal,
    /// the whole sequence of records ever pushed
    hist: Ghost<Seq<T>>,
}

/// Outcome of reading one logical index.
pub enum GetResult<T> {
    /// A copy of the record at the requested index, still inside the
    /// retention window. The caller should advance its cursor and read
    /// again at once.
    Ready(T),
    /// The requested index fell behind the retention window; the caller is
    /// too slow and must not be served further.
    Expired,
    /// The requested index has not been written yet. The handle is the
    /// store's own wake signal, captured together with the check; it is
    /// exactly what the caller must wait on.
    Pending(WakeSignal),
}

impl<T> View for R<T> {
    type V = Seq<T>;

    /// All records ever pushed, oldest first.
    closed spec fn view(&self) -> Seq<T> {
        self.hist@
    }
}

impl<T> R<T> {
    /// The retention capacity `N`.
    pub closed spec fn spec_capacity(self) -> usize {
        self.n
    }

    /// The next index to be written.
    pub closed spec fn spec_top(self) -> usize {
        self.top
    }

    /// The oldest logical index still retrievable.
    pub open spec fn spec_bottom(self) -> usize {
        if self.spec_top() >= self.spec_capacity() {
            (self.spec_top() - self.spec_capacity()) as usize
        } else {
            0
        }
    }

    /// The store's wake signal, shared with every reader it hands out.
    pub closed spec fn signal(self) -> WakeSignal {
        self.notify
    }

    /// Internal consistency: the slots hold the last `capacity` pushed
    /// records, each at its index modulo `capacity`.
    pub closed spec fn wf(self) -> bool {
        &&& self.n > 0
        &&& self.v.len() == self.n
        &&& self.hist@.len() == self.top
        &&& forall|i: int|
            self.spec_bottom() <= i < self.spec_top() ==> self.v@[i % (self.n as int)]
                == #[trigger] self.hist@[i]
    }
}

impl<T: Clone> R<T> {
    /// A fresh store of capacity `n`. The `default` value only fills the
    /// slots; it is never retrievable.
    pub fn new(default: T, n: usize) -> (r: R<T>)
        requires
            n > 0,
        ensures
            r.wf(),
            r@ == Seq::<T>::empty(),
            r.spec_top() == 0,
            r.spec_capacity() == n,
    {
        R {
            n,
            top: 0,
            v: vec![default; n],
            notify: WakeSignal::new(),
            hist: Ghost(Seq::empty()),
        }
    }

    /// Read logical index `idx`: a copy of the record while it is retained,
    /// `Expired` once the window has moved past it, or the store's wake
    /// signal while it has not been written yet. A clone of a generic
    /// record is all the type system can hand out here; for the record
    /// types this library stores, a clone carries the very same value.
    pub fn get(&self, idx: usize) -> (r: GetResult<T>)
        requires
            self.wf(),
        ensures
            match r {
                GetResult::Ready(v) => self.spec_bottom() <= idx < self.spec_top() && cloned(
                    self@[idx as int],
                    v,
                ),
                GetResult::Expired => idx < self.spec_bottom(),
                GetResult::Pending(s) => idx >= self.spec_top() && s == self.signal(),
            },
    {
        if idx < self.bottom() {
            return GetResult::Expired;
        }
        if idx < self.top {
            return GetResult::Ready(self.v[idx % self.n].clone());
        }
        GetResult::Pending(self.notify.duplicate())
    }
}

impl<T> R<T> {
    /// The next index to be written.
    pub fn top(&self) -> (r: usize)
        ensures
            r == self.spec_top(),
    {
        self.top
    }

    /// The oldest logical index still retrievable.
    pub fn bottom(&self) -> (r: usize)
        ensures
            r == self.spec_bottom(),
    {
        if self.top >= self.n {
            self.top - self.n
        } else {
            0
        }
    }

    /// Append `x` at index `top`, overwriting whatever record last used its
    /// slot, then wake every waiter. Single-writer: never fails, never
    /// blocks on readers.
    pub fn push(&mut self, x: T)
        requires
            old(self).wf(),
            old(self).spec_top() < usize::MAX,
        ensures
            final(self).wf(),
            final(self)@ == old(self)@.push(x),
            final(self).spec_top() == old(self).spec_top() + 1,
            final(self).spec_capacity() == old(self).spec_capacity(),
            final(self).signal() == old(self).signal(),
            final(self).spec_bottom() >= old(self).spec_bottom(),
    {
        proof {
            lemma_mod_in_range(self.top as int, self.n as int);
        }
        let slot = self.top % self.n;
        self.v[slot] = x;
        self.top = self.top + 1;
        self.hist = Ghost(self.hist@.push(x));
        self.notify.wake_all();
        proof {
            assert forall|i: int|
                self.spec_bottom() <= i < self.spec_top() implies self.v@[i % (self.n as int)]
                == #[trigger] self.hist@[i] by {
                if i < self.spec_top() - 1 {
                    lemma_mod_distinct(i, self.spec_top() - 1, self.n as int);
                }
            }
        }
    }
}

/// A nonnegative value taken modulo a positive one lands inside the range.
proof fn lemma_mod_in_range(a: int, n: int)
    by (nonlinear_arith)
    requires
        0 <= a,
        0 < n,
    ensures
        0 <= a % n < n,
{
}

/// Two distinct indices less than a capacity apart use distinct slots.
proof fn lemma_mod_distinct(a: int, b: int, n: int)
    by (nonlinear_arith)
    requires
        0 < n,
        0 <= a < b,
        b - a < n,
    ensures
        a % n != b % n,
{
}

/// Retention law: once `capacity` or more records have been pushed after
/// record `idx` was written, index `idx` has fallen behind the retention
/// window, so `get(idx)` answers `Expired` and nothing else.
pub proof fn lemma_retention<T>(s: R<T>, idx: usize)
    requires
        s.wf(),
        s.spec_top() >= idx + 1 + s.spec_capacity(),
    ensures
        idx < s.spec_bottom(),
{
}

/// A well-formed store holds one record in its view for every index ever
/// written: the view's length is exactly `top`, so view indices line up
/// with `top()` and `bottom()`.
pub proof fn lemma_view_length<T>(s: R<T>)
    requires
        s.wf(),
    ensures
        s@.len() == s.spec_top(),
{
}

/// Independence law: two stores share nothing — no capacity, no indices,
/// no signal — so a push lands only on the store it is aimed at. Given
/// exclusive access to both stores of a service, pushing to one leaves the
/// other the very same value, window and all; the two directions are the
/// two instantiations of the parameters.
pub fn push_beside<A, B>(target: &mut R<A>, other: &mut R<B>, x: A)
    requires
        old(target).wf(),
        old(target).spec_top() < usize::MAX,
    ensures
        final(target).wf(),
        final(target)@ == old(target)@.push(x),
        final(target).spec_top() == old(target).spec_top() + 1,
        final(target).spec_capacity() == old(target).spec_capacity(),
        final(target).signal() == old(target).signal(),
        *final(other) == *old(other),
{
    target.push(x);
}

} // verus!
