use crate::cell::Cell;
use vstd::prelude::*;

verus! {

/// Who holds the value of a `RefCell`: nobody, `n` readers, or one writer.
#[derive(Copy, Clone, PartialEq, Eq, Structural)]
pub enum RefState {
    Unborrowed,
    Shared(usize),
    Exclusive,
}

/// A `Shared` state always counts at least one reader.
pub open spec fn state_ok(s: RefState) -> bool {
    match s {
        RefState::Shared(n) => n >= 1,
        _ => true,
    }
}

/// The state after a shared borrow is granted, or `None` when it is refused.
/// A reader count that has reached `usize::MAX` refuses further readers.
pub open spec fn borrow_next(s: RefState) -> Option<RefState> {
    match s {
        RefState::Unborrowed => Some(RefState::Shared(1)),
        RefState::Shared(n) => if n < usize::MAX {
            Some(RefState::Shared((n + 1) as usize))
        } else {
            None
        },
        RefState::Exclusive => None,
    }
}

/// The state after an exclusive borrow is granted, or `None` when it is refused.
pub open spec fn borrow_mut_next(s: RefState) -> Option<RefState> {
    match s {
        RefState::Unborrowed => Some(RefState::Exclusive),
        _ => None,
    }
}

/// The state after one reader lets go.
pub open spec fn release_shared(s: RefState) -> RefState {
    match s {
        RefState::Shared(n) => if n <= 1 {
            RefState::Unborrowed
        } else {
            RefState::Shared((n - 1) as usize)
        },
        _ => s,
    }
}

/// One call on a `RefCell`: a borrow request, or a handle given back.
pub enum BorrowOp {
    Borrow,
    BorrowMut,
    DropRef,
    DropRefMut,
}

/// Live handles: the number of `Ref`s and of `RefMut`s held by callers.
pub struct Handles {
    pub readers: nat,
    pub writers: nat,
}

/// Applies one call to the state and to the handles held.  A handle is given
/// back only by a caller that holds one of its kind.
pub open spec fn apply_op(s: RefState, h: Handles, op: BorrowOp) -> (RefState, Handles) {
    match op {
        BorrowOp::Borrow => match borrow_next(s) {
            Some(t) => (t, Handles { readers: h.readers + 1, writers: h.writers }),
            None => (s, h),
        },
        BorrowOp::BorrowMut => match borrow_mut_next(s) {
            Some(t) => (t, Handles { readers: h.readers, writers: h.writers + 1 }),
            None => (s, h),
        },
        BorrowOp::DropRef => if h.readers > 0 {
            (release_shared(s), Handles { readers: (h.readers - 1) as nat, writers: h.writers })
        } else {
            (s, h)
        },
        BorrowOp::DropRefMut => if h.writers > 0 {
            (RefState::Unborrowed, Handles { readers: h.readers, writers: (h.writers - 1) as nat })
        } else {
            (s, h)
        },
    }
}

/// The state and live handles after `ops`, starting from a new cell.
pub open spec fn run_ops(ops: Seq<BorrowOp>) -> (RefState, Handles)
    decreases ops.len(),
{
    if ops.len() == 0 {
        (RefState::Unborrowed, Handles { readers: 0, writers: 0 })
    } else {
        let prev = run_ops(ops.drop_last());
        apply_op(prev.0, prev.1, ops.last())
    }
}

/// The state counts exactly the handles that are live.
pub open spec fn encodes(s: RefState, h: Handles) -> bool {
    match s {
        RefState::Unborrowed => h.readers == 0 && h.writers == 0,
        RefState::Shared(n) => h.readers == n && n >= 1 && h.writers == 0,
        RefState::Exclusive => h.readers == 0 && h.writers == 1,
    }
}

/// Whatever sequence of borrows and releases is made on a cell, its state
/// counts exactly the live readers and writers, and readers and a writer are
/// never live together.
pub proof fn lemma_state_tracks_handles(ops: Seq<BorrowOp>)
    ensures
        encodes(run_ops(ops).0, run_ops(ops).1),
        state_ok(run_ops(ops).0),
        run_ops(ops).1.writers <= 1,
        !(run_ops(ops).1.readers > 0 && run_ops(ops).1.writers > 0),
    decreases ops.len(),
{
    if ops.len() > 0 {
        lemma_state_tracks_handles(ops.drop_last());
    }
}

/// A value together with a record of the borrows handed out on it.
pub struct RefCell<T> {
    val: T,
    state: Cell<RefState>,
}

/// Proof that a shared borrow was granted; give it back with `Ref::drop`.
pub struct Ref {
    granted: (),
}

/// Proof that an exclusive borrow was granted; give it back with `RefMut::drop`.
pub struct RefMut {
    granted: (),
}

impl<T> View for RefCell<T> {
    type V = T;

    closed spec fn view(&self) -> T {
        self.val
    }
}

impl<T> RefCell<T> {
    /// The current borrow state.
    pub closed spec fn state(&self) -> RefState {
        self.state@
    }

    pub open spec fn wf(&self) -> bool {
        state_ok(self.state())
    }

    /// Wraps `val`, with nothing borrowed.
    pub fn new(val: T) -> (r: Self)
        ensures
            r@ == val,
            r.state() == RefState::Unborrowed,
            r.wf(),
    {
        Self { val, state: Cell::new(RefState::Unborrowed) }
    }

    /// The current borrow state.
    pub fn borrow_state(&self) -> (r: RefState)
        ensures
            r == self.state(),
    {
        self.state.get()
    }

    /// Grants a shared borrow unless a writer holds the value.
    pub fn borrow(&mut self) -> (r: Option<Ref>)
        requires
            old(self).wf(),
        ensures
            final(self).wf(),
            final(self)@ == old(self)@,
            r.is_some() == borrow_next(old(self).state()).is_some(),
            r.is_some() ==> final(self).state() == borrow_next(old(self).state()).unwrap(),
            r.is_none() ==> final(self).state() == old(self).state(),
    {
        match self.state.get() {
            RefState::Unborrowed => {
                self.state.set(RefState::Shared(1));
                Some(Ref { granted: () })
            },
            RefState::Shared(n) => {
                if n < usize::MAX {
                    self.state.set(RefState::Shared(n + 1));
                    Some(Ref { granted: () })
                } else {
                    None
                }
            },
            RefState::Exclusive => None,
        }
    }

    /// Grants an exclusive borrow only when nothing is borrowed.
    pub fn borrow_mut(&mut self) -> (r: Option<RefMut>)
        requires
            old(self).wf(),
        ensures
            final(self).wf(),
            final(self)@ == old(self)@,
            r.is_some() == borrow_mut_next(old(self).state()).is_some(),
            r.is_some() ==> final(self).state() == RefState::Exclusive,
            r.is_none() ==> final(self).state() == old(self).state(),
    {
        match self.state.get() {
            RefState::Unborrowed => {
                self.state.set(RefState::Exclusive);
                Some(RefMut { granted: () })
            },
            RefState::Shared(_) => None,
            RefState::Exclusive => None,
        }
    }
}

impl Ref {
    /// Reads the value of the cell this borrow was granted on.
    pub fn deref<'a, T>(&self, cell: &'a RefCell<T>) -> (r: &'a T)
        requires
            cell.state() is Shared,
        ensures
            *r == cell@,
    {
        &cell.val
    }

    /// Gives the shared borrow back to the cell it was granted on.
    pub fn drop<T>(self, cell: &mut RefCell<T>)
        requires
            old(cell).wf(),
            old(cell).state() is Shared,
        ensures
            final(cell).wf(),
            final(cell)@ == old(cell)@,
            final(cell).state() == release_shared(old(cell).state()),
    {
        match cell.state.get() {
            RefState::Shared(n) => {
                if n == 1 {
                    cell.state.set(RefState::Unborrowed);
                } else {
                    cell.state.set(RefState::Shared(n - 1));
                }
            },
            _ => {},
        }
    }
}

impl RefMut {
    /// Reads the value of the cell this borrow was granted on.
    pub fn deref<'a, T>(&self, cell: &'a RefCell<T>) -> (r: &'a T)
        requires
            cell.state() == RefState::Exclusive,
        ensures
            *r == cell@,
    {
        &cell.val
    }

    /// Gives write access to the value of the cell this borrow was granted on.
    pub fn deref_mut<'a, T>(&self, cell: &'a mut RefCell<T>) -> (r: &'a mut T)
        requires
            old(cell).state() == RefState::Exclusive,
        ensures
            *r == old(cell)@,
            final(cell)@ == *final(r),
            final(cell).state() == old(cell).state(),
    {
        &mut cell.val
    }

    /// Gives the exclusive borrow back to the cell it was granted on.
    pub fn drop<T>(self, cell: &mut RefCell<T>)
        requires
            old(cell).state() == RefState::Exclusive,
        ensures
            final(cell).wf(),
            final(cell)@ == old(cell)@,
            final(cell).state() == RefState::Unborrowed,
    {
        cell.state.set(RefState::Unborrowed);
    }
}

} // verus!
