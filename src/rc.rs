use crate::cell::Cell;
use std::marker::PhantomData;
use vstd::prelude::*;

verus! {

/// A block shared by `Rc` handles: the value and how many handles refer to it.
struct RcInner<T> {
    val: T,
    ref_count: Cell<usize>,
}

/// The blocks that `Rc` handles point into.  A block is freed, and its slot
/// left empty, when its last handle is given back.
pub struct RcHeap<T> {
    blocks: Vec<Option<RcInner<T>>>,
}

/// One of the handles that share a value held in an `RcHeap`.  It cannot be
/// copied: a new handle comes only from `Rc::clone`, which counts it.
pub struct Rc<T> {
    inner: usize,
    marker: PhantomData<T>,
}

/// A block as the contracts see it: its value and its handle count.
spec fn block_of<T>(b: Option<RcInner<T>>) -> Option<(T, nat)> {
    match b {
        Some(inner) => Some((inner.val, inner.ref_count@ as nat)),
        None => None,
    }
}

/// Every block in use is counted by at least one handle.
pub open spec fn heap_ok<T>(h: Seq<Option<(T, nat)>>) -> bool {
    forall|i: int| 0 <= i < h.len() && (#[trigger] h[i]) is Some ==> h[i].unwrap().1 >= 1
}

/// Whether block `i` is in use.
pub open spec fn is_live<T>(h: Seq<Option<(T, nat)>>, i: int) -> bool {
    0 <= i < h.len() && h[i] is Some
}

/// The heap after one more handle to block `i` is made.
pub open spec fn cloned<T>(h: Seq<Option<(T, nat)>>, i: int) -> Seq<Option<(T, nat)>> {
    h.update(i, Some((h[i].unwrap().0, h[i].unwrap().1 + 1)))
}

/// The heap after a handle to block `i` is given back: the block is freed
/// when that was its last handle, else its count drops by one.
pub open spec fn released<T>(h: Seq<Option<(T, nat)>>, i: int) -> Seq<Option<(T, nat)>> {
    if h[i].unwrap().1 <= 1 {
        h.update(i, None)
    } else {
        h.update(i, Some((h[i].unwrap().0, (h[i].unwrap().1 - 1) as nat)))
    }
}

/// The heap after `n` more handles to block `i` are made.
pub open spec fn clone_n<T>(h: Seq<Option<(T, nat)>>, i: int, n: nat) -> Seq<Option<(T, nat)>>
    decreases n,
{
    if n == 0 {
        h
    } else {
        cloned(clone_n(h, i, (n - 1) as nat), i)
    }
}

/// The heap after `n` handles to block `i` are given back.
pub open spec fn release_n<T>(h: Seq<Option<(T, nat)>>, i: int, n: nat) -> Seq<Option<(T, nat)>>
    decreases n,
{
    if n == 0 {
        h
    } else {
        released(release_n(h, i, (n - 1) as nat), i)
    }
}

/// A call on a handle to a shared block: make one more handle, or give one back.
pub enum RcOp {
    Clone,
    Release,
}

/// Applies `ops` in turn to block `i`; a call on a freed block is not made.
pub open spec fn run_rc<T>(h: Seq<Option<(T, nat)>>, i: int, ops: Seq<RcOp>) -> Seq<Option<(T, nat)>>
    decreases ops.len(),
{
    if ops.len() == 0 {
        h
    } else {
        let prev = run_rc(h, i, ops.drop_last());
        if !is_live(prev, i) {
            prev
        } else {
            match ops.last() {
                RcOp::Clone => cloned(prev, i),
                RcOp::Release => released(prev, i),
            }
        }
    }
}

/// After `n` more handles to a live block are made, its count has gone up by
/// exactly `n`; its value and every other block are unchanged.
pub proof fn lemma_count_after_clones<T>(h: Seq<Option<(T, nat)>>, i: int, n: nat)
    requires
        is_live(h, i),
    ensures
        clone_n(h, i, n).len() == h.len(),
        clone_n(h, i, n)[i] == Some((h[i].unwrap().0, h[i].unwrap().1 + n)),
        forall|j: int| 0 <= j < h.len() && j != i ==> #[trigger] clone_n(h, i, n)[j] == h[j],
    decreases n,
{
    if n > 0 {
        lemma_count_after_clones(h, i, (n - 1) as nat);
    }
}

/// Giving back `k` of the `c` handles of a block lowers its count by exactly
/// `k` and keeps its value while `k < c`; the block is freed by the `c`-th
/// release and not before.  Other blocks are unchanged.
pub proof fn lemma_count_after_releases<T>(h: Seq<Option<(T, nat)>>, i: int, k: nat)
    requires
        heap_ok(h),
        is_live(h, i),
        k <= h[i].unwrap().1,
    ensures
        release_n(h, i, k).len() == h.len(),
        k < h[i].unwrap().1 ==> release_n(h, i, k)[i] == Some(
            (h[i].unwrap().0, (h[i].unwrap().1 - k) as nat),
        ),
        k == h[i].unwrap().1 ==> release_n(h, i, k)[i] is None,
        forall|j: int| 0 <= j < h.len() && j != i ==> #[trigger] release_n(h, i, k)[j] == h[j],
    decreases k,
{
    if k > 0 {
        lemma_count_after_releases(h, i, (k - 1) as nat);
    }
}

/// Whatever clones and releases are made on a block, as long as it is in
/// use it holds the value it was made with, and no other block changes.
pub proof fn lemma_value_kept<T>(h: Seq<Option<(T, nat)>>, i: int, ops: Seq<RcOp>)
    requires
        is_live(h, i),
    ensures
        run_rc(h, i, ops).len() == h.len(),
        is_live(run_rc(h, i, ops), i) ==> run_rc(h, i, ops)[i].unwrap().0 == h[i].unwrap().0,
        forall|j: int| 0 <= j < h.len() && j != i ==> #[trigger] run_rc(h, i, ops)[j] == h[j],
    decreases ops.len(),
{
    if ops.len() > 0 {
        lemma_value_kept(h, i, ops.drop_last());
    }
}

impl<T> View for RcHeap<T> {
    type V = Seq<Option<(T, nat)>>;

    closed spec fn view(&self) -> Seq<Option<(T, nat)>> {
        self.blocks@.map_values(|b: Option<RcInner<T>>| block_of(b))
    }
}

impl<T> RcHeap<T> {
    pub open spec fn wf(&self) -> bool {
        heap_ok(self@)
    }

    /// A heap with no blocks.
    pub fn new() -> (r: Self)
        ensures
            r@ == Seq::<Option<(T, nat)>>::empty(),
            r.wf(),
    {
        RcHeap { blocks: Vec::new() }
    }
}

impl<T> Rc<T> {
    /// The block this handle points to.
    pub closed spec fn index(&self) -> int {
        self.inner as int
    }

    /// Puts `val` in a new block of `heap`, counted by the one handle returned.
    pub fn new(val: T, heap: &mut RcHeap<T>) -> (r: Self)
        requires
            old(heap).wf(),
            old(heap)@.len() < usize::MAX,
        ensures
            final(heap).wf(),
            r.index() == old(heap)@.len(),
            final(heap)@ == old(heap)@.push(Some((val, 1nat))),
    {
        let inner = RcInner { val, ref_count: Cell::new(1) };
        let idx = heap.blocks.len();
        heap.blocks.push(Some(inner));
        proof {
            assert(final(heap)@ =~= old(heap)@.push(Some((val, 1nat))));
        }
        Rc { inner: idx, marker: PhantomData }
    }

    /// How many handles share this handle's block.
    pub fn strong_count(&self, heap: &RcHeap<T>) -> (r: usize)
        requires
            is_live(heap@, self.index()),
        ensures
            r == heap@[self.index()].unwrap().1,
    {
        let b = heap.blocks[self.inner].as_ref().unwrap();
        b.ref_count.get()
    }

    /// A new handle to the same block; the block's count goes up by one.
    pub fn clone(&self, heap: &mut RcHeap<T>) -> (r: Self)
        requires
            old(heap).wf(),
            is_live(old(heap)@, self.index()),
            old(heap)@[self.index()].unwrap().1 < usize::MAX,
        ensures
            final(heap).wf(),
            r.index() == self.index(),
            final(heap)@ == cloned(old(heap)@, self.index()),
    {
        let i = self.inner;
        let mut b = heap.blocks[i].take().unwrap();
        let n = b.ref_count.get();
        b.ref_count.set(n + 1);
        heap.blocks[i] = Some(b);
        proof {
            assert(final(heap)@ =~= cloned(old(heap)@, self.index()));
        }
        Rc { inner: i, marker: PhantomData }
    }

    /// The value shared through this handle.
    pub fn deref<'a>(&self, heap: &'a RcHeap<T>) -> (r: &'a T)
        requires
            is_live(heap@, self.index()),
        ensures
            *r == heap@[self.index()].unwrap().0,
    {
        &heap.blocks[self.inner].as_ref().unwrap().val
    }

    /// Gives this handle back.  When it was the block's last handle the block
    /// is freed and its value returned; else the count drops by one and
    /// `None` is returned.
    pub fn drop(self, heap: &mut RcHeap<T>) -> (r: Option<T>)
        requires
            old(heap).wf(),
            is_live(old(heap)@, self.index()),
        ensures
            final(heap).wf(),
            final(heap)@ == released(old(heap)@, self.index()),
            r.is_some() == (old(heap)@[self.index()].unwrap().1 == 1),
            r.is_some() ==> r.unwrap() == old(heap)@[self.index()].unwrap().0,
    {
        let i = self.inner;
        let b = heap.blocks[i].take().unwrap();
        let n = b.ref_count.get();
        if n == 1 {
            proof {
                assert(final(heap)@ =~= released(old(heap)@, self.index()));
            }
            Some(b.val)
        } else {
            let mut b = b;
            b.ref_count.set(n - 1);
            heap.blocks[i] = Some(b);
            proof {
                assert(final(heap)@ =~= released(old(heap)@, self.index()));
            }
            None
        }
    }
}

} // verus!
