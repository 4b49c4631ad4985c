//! A sequence container that stores up to `N` elements in a fixed block of
//! slots and moves them to a growable heap buffer ("spills") the first time a
//! push would exceed that capacity. The spill happens at most once per
//! instance and is never reverted, even if the length later falls below `N`.
use vstd::prelude::*;
use vstd::std_specs::cmp::PartialEqSpec;

verus! {

/// A vector that holds up to `N` elements in a fixed slot block before
/// spilling onto a growable heap buffer.
#[derive(Clone, Debug)]
pub struct TinyVec<T, const N: usize> {
    inner: TinyVecInner<T>,
    length: usize,
}

#[derive(Clone, Debug)]
enum TinyVecInner<T> {
    /// Fixed block of exactly `N` slots; the first `length` are occupied.
    Stack(Vec<Option<T>>),
    /// Growable buffer whose contents are exactly the logical elements.
    Heap(Vec<T>),
}

impl<T, const N: usize> View for TinyVec<T, N> {
    type V = Seq<T>;

    /// The logical contents, in push order.
    closed spec fn view(&self) -> Seq<T> {
        match self.inner {
            TinyVecInner::Stack(slots) => Seq::new(self.length as nat, |i: int| slots@[i].unwrap()),
            TinyVecInner::Heap(buf) => buf@,
        }
    }
}

impl<T, const N: usize> TinyVec<T, N> {
    /// Structural invariant: in slot mode the first `length` of the `N` slots
    /// are occupied and the rest are empty; in heap mode the buffer holds
    /// exactly the logical elements.
    pub closed spec fn wf(&self) -> bool {
        match self.inner {
            TinyVecInner::Stack(slots) => {
                &&& self.length <= N
                &&& slots@.len() == N
                &&& forall|i: int| 0 <= i < self.length ==> slots@[i] is Some
                &&& forall|i: int| self.length <= i < N ==> slots@[i] is None
            },
            TinyVecInner::Heap(buf) => buf@.len() == self.length,
        }
    }

    /// Whether the contents live on the heap buffer.
    pub closed spec fn spilled(&self) -> bool {
        match self.inner {
            TinyVecInner::Stack(_) => false,
            TinyVecInner::Heap(_) => true,
        }
    }

    /// Creates a new empty `TinyVec`, in slot mode.
    pub fn new() -> (r: Self)
        ensures
            r.wf(),
            r@ == Seq::<T>::empty(),
            !r.spilled(),
    {
        let mut slots: Vec<Option<T>> = Vec::new();
        let mut i: usize = 0;
        while i < N
            invariant
                i <= N,
                slots@.len() == i,
                forall|j: int| 0 <= j < i ==> slots@[j] is None,
            decreases N - i,
        {
            slots.push(None);
            i = i + 1;
        }
        let r = TinyVec { inner: TinyVecInner::Stack(slots), length: 0 };
        proof {
            assert(r@ =~= Seq::<T>::empty());
        }
        r
    }

    /// Returns whether or not the `TinyVec` has spilled onto the heap.
    pub fn has_spilled(&self) -> (r: bool)
        ensures
            r == self.spilled(),
    {
        match &self.inner {
            TinyVecInner::Stack(_) => false,
            TinyVecInner::Heap(_) => true,
        }
    }

    /// Returns `true` if the `TinyVec` contains no elements, otherwise `false`.
    pub fn is_empty(&self) -> (r: bool)
        requires
            self.wf(),
        ensures
            r == (self@.len() == 0),
    {
        self.length == 0
    }

    /// Moves the contents onto the heap once `N` elements are held in slot
    /// mode, so that the next push always has room. Inert when the contents
    /// already live on the heap or the slots still have room.
    fn spill(&mut self)
        requires
            old(self).wf(),
        ensures
            final(self).wf(),
            final(self)@ == old(self)@,
            final(self).spilled() == (old(self).spilled() || old(self)@.len() >= N),
    {
        if self.has_spilled() || self.length < N {
            return;
        }

        // Take the slot block out, leaving a placeholder heap buffer.
        let mut taken: TinyVecInner<T> = TinyVecInner::Heap(Vec::new());
        core::mem::swap(&mut self.inner, &mut taken);

        match taken {
            TinyVecInner::Stack(slots) => {
                let mut slots = slots;
                let mut buf: Vec<T> = Vec::new();
                let ghost orig = slots@;
                while slots.len() > 0
                    invariant
                        slots@.len() <= orig.len(),
                        slots@ == orig.subrange(
                            orig.len() - slots@.len(),
                            orig.len() as int,
                        ),
                        forall|j: int| 0 <= j < orig.len() ==> orig[j] is Some,
                        buf@ == Seq::new(
                            (orig.len() - slots@.len()) as nat,
                            |j: int| orig[j].unwrap(),
                        ),
                    decreases slots@.len(),
                {
                    let ghost k: int = orig.len() - slots@.len();
                    let opt = slots.remove(0);
                    proof {
                        assert(opt == orig[k]);
                        assert(slots@ =~= orig.subrange(k + 1, orig.len() as int));
                    }
                    match opt {
                        Some(t) => {
                            buf.push(t);
                            proof {
                                assert(buf@ =~= Seq::new(
                                    (k + 1) as nat,
                                    |j: int| orig[j].unwrap(),
                                ));
                            }
                        },
                        None => {
                            proof {
                                assert(false);
                            }
                        },
                    }
                }
                self.inner = TinyVecInner::Heap(buf);
                proof {
                    assert(self@ =~= old(self)@);
                }
            },
            TinyVecInner::Heap(_) => {
                proof {
                    assert(false);
                }
            },
        }
    }

    /// Pushes an element onto the `TinyVec`; if the slot capacity `N` is
    /// reached, the contents spill onto the heap first. So the push that
    /// takes the length past `N` is exactly the one that spills, and once
    /// spilled the contents stay spilled.
    pub fn push(&mut self, item: T)
        requires
            old(self).wf(),
            old(self)@.len() < usize::MAX,
        ensures
            final(self).wf(),
            final(self)@ == old(self)@.push(item),
            final(self).spilled() == (old(self).spilled() || old(self)@.len() >= N),
    {
        self.spill();

        match &mut self.inner {
            TinyVecInner::Stack(slots) => {
                let i: usize = self.length;
                slots[i] = Some(item);
            },
            TinyVecInner::Heap(heap) => heap.push(item),
        }

        self.length = self.length + 1;
        proof {
            assert(self@ =~= old(self)@.push(item));
        }
    }

    /// Pops the last element off of the `TinyVec`; this however does not
    /// revert spillage, even when the length falls back below `N`. On an
    /// empty `TinyVec` it returns nothing and changes nothing: the length
    /// never falls below zero.
    pub fn pop(&mut self) -> (r: Option<T>)
        requires
            old(self).wf(),
        ensures
            final(self).wf(),
            final(self).spilled() == old(self).spilled(),
            old(self)@.len() == 0 ==> r is None && final(self)@ == old(self)@,
            old(self)@.len() > 0 ==> r == Some(old(self)@.last()) && final(self)@ == old(
                self,
            )@.drop_last(),
    {
        if self.length == 0 {
            return None;
        }

        self.length = self.length - 1;

        let r = match &mut self.inner {
            TinyVecInner::Stack(slots) => {
                let i: usize = self.length;
                slots[i].take()
            },
            TinyVecInner::Heap(heap) => heap.pop(),
        };
        proof {
            assert(self@ =~= old(self)@.drop_last());
        }
        r
    }

    /// Gets the element at a given index if it exists.
    pub fn get(&self, index: usize) -> (r: Option<&T>)
        requires
            self.wf(),
        ensures
            index < self@.len() ==> r is Some && *r.unwrap() == self@[index as int],
            index >= self@.len() ==> r is None,
    {
        if index >= self.length {
            return None;
        }

        match &self.inner {
            TinyVecInner::Stack(slots) => slots[index].as_ref(),
            TinyVecInner::Heap(heap) => Some(&heap[index]),
        }
    }

    /// Gets a mutable reference to the element at a given index if it exists.
    pub fn get_mut(&mut self, index: usize) -> (r: Option<&mut T>)
        requires
            old(self).wf(),
        ensures
            index >= old(self)@.len() ==> r is None && *final(self) == *old(self),
            index < old(self)@.len() ==> r is Some && *r.unwrap() == old(self)@[index as int]
                && final(self)@ == old(self)@.update(index as int, *final(r.unwrap()))
                && final(self).wf() && final(self).spilled() == old(self).spilled(),
    {
        if index >= self.length {
            return None;
        }

        match &mut self.inner {
            TinyVecInner::Stack(slots) => {
                let slot = &mut slots[index];
                slot.as_mut()
            },
            TinyVecInner::Heap(heap) => {
                let elem = &mut heap[index];
                Some(elem)
            },
        }
    }

    /// Extends the `TinyVec` by the elements of a given vector, appending
    /// each in order; semantically identical to repeated `push` calls.
    pub fn extend(&mut self, items: Vec<T>)
        requires
            old(self).wf(),
            old(self)@.len() + items@.len() <= usize::MAX,
        ensures
            final(self).wf(),
            final(self)@ == old(self)@ + items@,
            final(self).spilled() == (old(self).spilled() || old(self)@.len() + items@.len() > N),
    {
        let mut items = items;
        let ghost all = items@;
        let ghost mut k: int = 0;
        proof {
            assert(self@ + all.take(0) =~= self@);
        }
        while items.len() > 0
            invariant
                self.wf(),
                0 <= k <= all.len(),
                old(self)@.len() + all.len() <= usize::MAX,
                items@.len() == all.len() - k,
                forall|j: int| 0 <= j < items@.len() ==> items@[j] == all[k + j],
                self@ == old(self)@ + all.take(k),
                self.spilled() == (old(self).spilled() || old(self)@.len() + k > N),
            decreases items@.len(),
        {
            let ghost before = items@;
            let x = items.remove(0);
            proof {
                assert(x == all[k]);
                assert(forall|j: int| 0 <= j < items@.len() ==> items@[j] == before[j + 1]);
            }
            self.push(x);
            proof {
                k = k + 1;
                assert(self@ =~= old(self)@ + all.take(k));
            }
        }
        proof {
            assert(all.take(all.len() as int) =~= all);
            assert(self@ == old(self)@ + all);
        }
    }

    /// Builds a `TinyVec` from the elements of a vector: it starts empty and
    /// appends each element in order, spilling if there are more than `N`.
    pub fn from(items: Vec<T>) -> (r: Self)
        ensures
            r.wf(),
            r@ == items@,
            r.spilled() == (items@.len() > N),
    {
        let mut tv = Self::new();
        proof {
            assert(items@.len() == items.len());
        }
        tv.extend(items);
        proof {
            assert(Seq::<T>::empty() + items@ =~= items@);
        }
        tv
    }

    /// Returns the length of the `TinyVec`.
    pub fn len(&self) -> (r: usize)
        requires
            self.wf(),
        ensures
            r == self@.len(),
    {
        self.length
    }
}

/// A borrowing iterator over the elements of a `TinyVec`: a cursor that walks
/// the logical indices from 0 up to the length.
pub struct TinyVecIter<'a, T, const N: usize> {
    vec: &'a TinyVec<T, N>,
    idx: usize,
}

impl<'a, T, const N: usize> TinyVecIter<'a, T, N> {
    /// The cursor never runs past the end of a well-formed source.
    pub closed spec fn valid(&self) -> bool {
        &&& self.vec.wf()
        &&& self.idx <= self.vec@.len()
    }

    /// The elements not yet returned, in order.
    pub closed spec fn remaining(&self) -> Seq<T> {
        self.vec@.skip(self.idx as int)
    }

    /// Returns the element under the cursor and advances, or nothing once the
    /// end is reached. The source is not changed.
    pub fn next(&mut self) -> (r: Option<&'a T>)
        requires
            old(self).valid(),
        ensures
            final(self).valid(),
            old(self).remaining().len() > 0 ==> r is Some && *r.unwrap() == old(
                self,
            ).remaining()[0] && final(self).remaining() == old(self).remaining().drop_first(),
            old(self).remaining().len() == 0 ==> r is None && final(self).remaining() == old(
                self,
            ).remaining(),
    {
        let v = self.vec;
        let r = v.get(self.idx);
        if r.is_some() {
            self.idx = self.idx + 1;
        }
        proof {
            assert(self.remaining() =~= old(self).remaining().skip(
                if old(self).idx < v@.len() { 1int } else { 0int },
            ));
            assert(old(self).remaining().skip(1) =~= old(self).remaining().drop_first());
            assert(old(self).remaining().skip(0) =~= old(self).remaining());
        }
        r
    }
}

impl<T, const N: usize> TinyVec<T, N> {
    /// Returns a borrowing iterator over the items of the `TinyVec`, starting
    /// at logical index 0.
    pub fn iter(&self) -> (r: TinyVecIter<'_, T, N>)
        requires
            self.wf(),
        ensures
            r.valid(),
            r.remaining() == self@,
    {
        let r = TinyVecIter { vec: self, idx: 0 };
        proof {
            assert(r.remaining() =~= self@);
        }
        r
    }
}

/// The values of the leading run of occupied slots, in order. This is what a
/// consuming traversal of a slot block yields: it stops at the first empty
/// slot.
spec fn some_prefix<T>(s: Seq<Option<T>>) -> Seq<T>
    decreases s.len(),
{
    if s.len() == 0 || s[0] is None {
        Seq::empty()
    } else {
        seq![s[0].unwrap()] + some_prefix(s.drop_first())
    }
}

/// On a slot block whose occupied slots form a leading run of length `k`,
/// the consuming traversal yields exactly those `k` values.
proof fn lemma_some_prefix_of_run<T>(s: Seq<Option<T>>, k: int)
    requires
        0 <= k <= s.len(),
        forall|i: int| 0 <= i < k ==> s[i] is Some,
        k < s.len() ==> s[k] is None,
    ensures
        some_prefix(s) == Seq::new(k as nat, |i: int| s[i].unwrap()),
    decreases k,
{
    if k == 0 {
        assert(some_prefix(s) =~= Seq::new(0, |i: int| s[i].unwrap()));
    } else {
        lemma_some_prefix_of_run(s.drop_first(), k - 1);
        assert(seq![s[0].unwrap()] + Seq::new((k - 1) as nat, |i: int| s.drop_first()[i].unwrap())
            =~= Seq::new(k as nat, |i: int| s[i].unwrap()));
    }
}

/// A consuming iterator over the elements of a `TinyVec`: it owns the storage
/// and hands each element out by value, in logical order.
pub struct TinyVecIntoIter<T> {
    inner: TinyVecIntoIterInner<T>,
}

enum TinyVecIntoIterInner<T> {
    /// The slot block taken from a `TinyVec` that had not spilled; elements
    /// are taken out of the leading occupied slots one by one.
    Stack(Vec<Option<T>>),
    /// The heap buffer taken from a spilled `TinyVec`.
    Heap(Vec<T>),
}

impl<T> View for TinyVecIntoIter<T> {
    type V = Seq<T>;

    /// The elements not yet returned, in order.
    closed spec fn view(&self) -> Seq<T> {
        match self.inner {
            TinyVecIntoIterInner::Stack(slots) => some_prefix(slots@),
            TinyVecIntoIterInner::Heap(buf) => buf@,
        }
    }
}

impl<T> TinyVecIntoIter<T> {
    /// In slot mode, the occupied slots form a leading run: an occupied slot
    /// never follows an empty one.
    pub closed spec fn valid(&self) -> bool {
        match self.inner {
            TinyVecIntoIterInner::Stack(slots) => forall|i: int, j: int|
                0 <= i < j < slots@.len() && slots@[j] is Some ==> slots@[i] is Some,
            TinyVecIntoIterInner::Heap(_) => true,
        }
    }

    /// Returns the next element, taking ownership of it, or nothing once all
    /// elements have been handed out.
    pub fn next(&mut self) -> (r: Option<T>)
        requires
            old(self).valid(),
        ensures
            final(self).valid(),
            old(self)@.len() > 0 ==> r == Some(old(self)@[0]) && final(self)@ == old(
                self,
            )@.drop_first(),
            old(self)@.len() == 0 ==> r is None && final(self)@ == old(self)@,
    {
        match &mut self.inner {
            TinyVecIntoIterInner::Stack(slots) => {
                if slots.len() == 0 {
                    return None;
                }
                let ghost before = slots@;
                let opt = slots.remove(0);
                proof {
                    assert(slots@ =~= before.drop_first());
                    if opt is Some {
                        assert(some_prefix(before) == seq![before[0].unwrap()] + some_prefix(
                            before.drop_first(),
                        ));
                        assert(some_prefix(before).drop_first() =~= some_prefix(
                            before.drop_first(),
                        ));
                    }
                }
                opt
            },
            TinyVecIntoIterInner::Heap(buf) => {
                if buf.len() == 0 {
                    return None;
                }
                Some(buf.remove(0))
            },
        }
    }
}

impl<T, const N: usize> TinyVec<T, N> {
    /// Turns the `TinyVec` into a consuming iterator over its elements, which
    /// takes over whichever storage is active.
    pub fn into_iter(self) -> (r: TinyVecIntoIter<T>)
        requires
            self.wf(),
        ensures
            r.valid(),
            r@ == self@,
    {
        let ghost orig = self;
        match self.inner {
            TinyVecInner::Stack(slots) => {
                proof {
                    lemma_some_prefix_of_run(slots@, orig.length as int);
                    assert(Seq::new(orig.length as nat, |i: int| slots@[i].unwrap()) =~= orig@);
                }
                TinyVecIntoIter { inner: TinyVecIntoIterInner::Stack(slots) }
            },
            TinyVecInner::Heap(buf) => TinyVecIntoIter {
                inner: TinyVecIntoIterInner::Heap(buf),
            },
        }
    }
}

impl<T, const N: usize> TinyVec<T, N> {
    /// Whether the active storage actually holds an element at index `i`.
    closed spec fn present_at(&self, i: int) -> bool {
        match self.inner {
            TinyVecInner::Stack(slots) => 0 <= i < slots@.len() && slots@[i] is Some,
            TinyVecInner::Heap(buf) => 0 <= i < buf@.len(),
        }
    }

    /// The element the active storage holds at index `i`.
    closed spec fn elem_at(&self, i: int) -> T {
        match self.inner {
            TinyVecInner::Stack(slots) => slots@[i].unwrap(),
            TinyVecInner::Heap(buf) => buf@[i],
        }
    }

    /// Bounds-checked access against the active storage alone, with no
    /// well-formedness assumption; used by the equality comparison, which may
    /// not assume anything about its arguments.
    fn raw_get(&self, index: usize) -> (r: Option<&T>)
        ensures
            r is Some <==> self.present_at(index as int),
            r is Some ==> *r.unwrap() == self.elem_at(index as int),
    {
        match &self.inner {
            TinyVecInner::Stack(slots) => {
                if index < slots.len() {
                    slots[index].as_ref()
                } else {
                    None
                }
            },
            TinyVecInner::Heap(buf) => {
                if index < buf.len() {
                    Some(&buf[index])
                } else {
                    None
                }
            },
        }
    }
}

/// Both sides hold an element at logical index `j`, and those elements are
/// equal in the sense of `T`'s equality.
spec fn agree_at<T: PartialEq, const A: usize, const B: usize>(
    x: &TinyVec<T, B>,
    y: &TinyVec<T, A>,
    j: int,
) -> bool {
    &&& x.present_at(j)
    &&& y.present_at(j)
    &&& x.elem_at(j).eq_spec(&y.elem_at(j))
}

impl<T: PartialEq, const A: usize, const B: usize> PartialEq<TinyVec<T, A>> for TinyVec<T, B> {
    /// Structural equality across inline capacities: equal lengths and equal
    /// elements at every logical index; the storage mode plays no part.
    fn eq(&self, other: &TinyVec<T, A>) -> (r: bool) {
        if self.length != other.length {
            return false;
        }
        let mut i: usize = 0;
        while i < self.length
            invariant
                self.length == other.length,
                i <= self.length,
                T::obeys_eq_spec() ==> forall|j: int| 0 <= j < i ==> agree_at(self, other, j),
            decreases self.length - i,
        {
            let a = self.raw_get(i);
            let b = other.raw_get(i);
            match (a, b) {
                (Some(x), Some(y)) => {
                    if !(x == y) {
                        proof {
                            if T::obeys_eq_spec() {
                                assert(!agree_at(self, other, i as int));
                            }
                        }
                        return false;
                    }
                    proof {
                        assert(self.present_at(i as int));
                        assert(other.present_at(i as int));
                        if T::obeys_eq_spec() {
                            assert(agree_at(self, other, i as int));
                        }
                    }
                },
                _ => {
                    proof {
                        assert(!agree_at(self, other, i as int));
                    }
                    return false;
                },
            }
            i = i + 1;
        }
        true
    }
}

impl<T: PartialEq, const A: usize, const B: usize> vstd::std_specs::cmp::PartialEqSpecImpl<TinyVec<T, A>> for TinyVec<T, B> {
    closed spec fn obeys_eq_spec() -> bool {
        T::obeys_eq_spec()
    }

    closed spec fn eq_spec(&self, other: &TinyVec<T, A>) -> bool {
        &&& self.length == other.length
        &&& forall|i: int| 0 <= i < self.length ==> agree_at(self, other, i)
    }
}

impl<T: Eq, const N: usize> Eq for TinyVec<T, N> {

}

impl<T, const N: usize> Default for TinyVec<T, N> {
    /// The default value is a new empty `TinyVec`, in slot mode.
    fn default() -> (r: Self)
        ensures
            r.wf(),
            r@ == Seq::<T>::empty(),
            !r.spilled(),
    {
        Self::new()
    }
}

/// The borrowing and the consuming traversals agree: an iterator fresh from
/// `iter` and one fresh from `into_iter` both start from the logical
/// contents, so stepping either hands out the same elements in the same
/// order, as many as `len` reports.
pub proof fn lemma_traversals_agree<T, const N: usize>(
    v: &TinyVec<T, N>,
    it: &TinyVecIter<T, N>,
    ii: &TinyVecIntoIter<T>,
)
    requires
        it.remaining() == v@,
        ii@ == v@,
    ensures
        it.remaining() == ii@,
        ii@.len() == v@.len(),
{
}

/// Equality is independent of inline capacity and of storage mode: on
/// well-formed instances, what `==` means is determined by the two logical
/// sequences alone, whatever the capacities `A` and `B` and whether either
/// side has spilled.
pub proof fn lemma_eq_ignores_capacity<T: PartialEqSpec, const A: usize, const B: usize>(
    x: &TinyVec<T, B>,
    y: &TinyVec<T, A>,
)
    requires
        x.wf(),
        y.wf(),
    ensures
        x.eq_spec(y) <==> (x@.len() == y@.len() && (forall|i: int|
            0 <= i < x@.len() ==> #[trigger] x@[i].eq_spec(&y@[i]))),
{
    assert(x@.len() == x.length);
    assert(y@.len() == y.length);
    assert forall|i: int| 0 <= i < x.length implies #[trigger] x.present_at(i) by {}
    assert forall|i: int| 0 <= i < y.length implies #[trigger] y.present_at(i) by {}
    assert forall|i: int| 0 <= i < x.length implies #[trigger] x@[i] == x.elem_at(i) by {}
    assert forall|i: int| 0 <= i < y.length implies #[trigger] y@[i] == y.elem_at(i) by {}
    if x.eq_spec(y) {
        assert forall|i: int| 0 <= i < x@.len() implies #[trigger] x@[i].eq_spec(&y@[i]) by {
            assert(agree_at(x, y, i));
            assert(x.elem_at(i).eq_spec(&y.elem_at(i)));
        }
    } else if x@.len() == y@.len() && (forall|i: int|
        0 <= i < x@.len() ==> #[trigger] x@[i].eq_spec(&y@[i])) {
        assert forall|i: int| 0 <= i < x.length implies #[trigger] agree_at(x, y, i) by {
            assert(x@[i].eq_spec(&y@[i]));
            assert(x@[i] == x.elem_at(i) && y@[i] == y.elem_at(i));
        }
        assert(x.eq_spec(y));
    }
}

} // verus!
