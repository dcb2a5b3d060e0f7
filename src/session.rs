use vstd::prelude::*;

use crate::branch::Branch;
use crate::deletion::DeletionError;

verus! {

/// Where a session stands.
#[derive(PartialEq, Eq, Structural, Clone, Copy, Debug)]
pub enum Phase {
    /// The operator moves the cursor and marks branches.
    Browsing,
    /// The marked branches are being deleted, one per tick.
    Deleting,
    /// The session is over.
    Done,
}

/// A discrete request from the operator.
#[derive(PartialEq, Eq, Structural, Clone, Copy, Debug)]
pub enum Event {
    MoveDown,
    MoveUp,
    ToggleSelect,
    Confirm,
    Quit,
}

/// The abstract state of a session.
pub struct SessionModel {
    /// Number of branches in the listing.
    pub count: nat,
    /// Index of the highlighted branch.
    pub cursor: nat,
    /// Indices of the branches marked for deletion, oldest mark first.
    pub selected: Seq<usize>,
    pub phase: Phase,
    /// How many branches the current deletion run started with.
    pub initial: nat,
    /// How many of them have been handled so far.
    pub completed: nat,
}

/// Cursor after a move down: the next branch, wrapping to the first.
pub open spec fn cursor_down(c: nat, n: nat) -> nat {
    ((c as int + 1) % (n as int)) as nat
}

/// Cursor after a move up: the previous branch, wrapping to the last.
pub open spec fn cursor_up(c: nat, n: nat) -> nat {
    ((c as int - 1 + n as int) % (n as int)) as nat
}

/// The selection after toggling the mark on branch `i`: removed when present,
/// added last otherwise.
pub open spec fn toggled(sel: Seq<usize>, i: usize) -> Seq<usize> {
    if sel.contains(i) {
        sel.remove(choose|k: int| 0 <= k < sel.len() && sel[k] == i)
    } else {
        sel.push(i)
    }
}

/// The states that a session can reach.
pub open spec fn model_wf(m: SessionModel) -> bool {
    &&& m.count > 0
    &&& m.cursor < m.count
    &&& m.selected.no_duplicates()
    &&& forall|k: int| 0 <= k < m.selected.len() ==> m.selected[k] < m.count
    &&& m.completed <= m.initial
    &&& m.phase == Phase::Browsing ==> m.initial == 0 && m.completed == 0
    &&& m.phase == Phase::Deleting ==> m.completed + m.selected.len() == m.initial
}

/// The effect of an operator event; outside browsing, events change nothing.
pub open spec fn step(m: SessionModel, e: Event) -> SessionModel {
    if m.phase != Phase::Browsing {
        m
    } else {
        match e {
            Event::MoveDown => SessionModel { cursor: cursor_down(m.cursor, m.count), ..m },
            Event::MoveUp => SessionModel { cursor: cursor_up(m.cursor, m.count), ..m },
            Event::ToggleSelect => SessionModel {
                selected: toggled(m.selected, m.cursor as usize),
                ..m
            },
            Event::Confirm => SessionModel {
                phase: Phase::Deleting,
                initial: m.selected.len(),
                completed: 0,
                ..m
            },
            Event::Quit => SessionModel { phase: Phase::Done, ..m },
        }
    }
}

/// The effect of one tick: while deleting, the most recently marked branch
/// is taken off the selection and counted as handled; once none is left the
/// session is done.
pub open spec fn tick(m: SessionModel) -> SessionModel {
    if m.phase != Phase::Deleting {
        m
    } else if m.selected.len() > 0 {
        SessionModel { selected: m.selected.drop_last(), completed: m.completed + 1, ..m }
    } else {
        SessionModel { phase: Phase::Done, ..m }
    }
}

/// No branch was listed, so there is nothing to browse.
#[derive(PartialEq, Eq, Structural, Clone, Copy, Debug)]
pub struct NoBranchesError;

/// A branch whose deletion failed, and how.
pub struct DeletionFailure {
    pub branch: String,
    pub error: DeletionError,
}

/// An interactive session over one listing of branches.
pub struct Session {
    branches: Vec<Branch>,
    cursor: usize,
    selected: Vec<usize>,
    phase: Phase,
    initial: usize,
    completed: usize,
    failures: Vec<DeletionFailure>,
}

impl View for Session {
    type V = SessionModel;

    closed spec fn view(&self) -> SessionModel {
        SessionModel {
            count: self.branches.len() as nat,
            cursor: self.cursor as nat,
            selected: self.selected@,
            phase: self.phase,
            initial: self.initial as nat,
            completed: self.completed as nat,
        }
    }
}

impl Session {
    pub open spec fn wf(&self) -> bool {
        model_wf(self@)
    }

    /// The listing, in the order it was read.
    pub closed spec fn listing(&self) -> Seq<Branch> {
        self.branches@
    }

    /// The deletions that failed so far, oldest first.
    pub closed spec fn failure_log(&self) -> Seq<DeletionFailure> {
        self.failures@
    }

    /// Starts browsing `branches` with the cursor on the first one and
    /// nothing marked; an empty listing is refused.
    pub fn new(branches: Vec<Branch>) -> (r: Result<Session, NoBranchesError>)
        ensures
            branches.len() == 0 <==> r is Err,
            r matches Ok(s) ==> {
                &&& s.wf()
                &&& s.listing() == branches@
                &&& s@.cursor == 0
                &&& s@.selected.len() == 0
                &&& s@.phase == Phase::Browsing
                &&& s.failure_log().len() == 0
            },
    {
        if branches.len() == 0 {
            return Err(NoBranchesError);
        }
        Ok(
            Session {
                branches,
                cursor: 0,
                selected: Vec::new(),
                phase: Phase::Browsing,
                initial: 0,
                completed: 0,
                failures: Vec::new(),
            },
        )
    }

    /// Applies an operator event.
    pub fn handle_event(&mut self, event: Event)
        requires
            old(self).wf(),
        ensures
            final(self).wf(),
            final(self)@ == step(old(self)@, event),
            final(self).listing() == old(self).listing(),
            final(self).failure_log() == old(self).failure_log(),
    {
        if self.phase != Phase::Browsing {
            return;
        }
        match event {
            Event::MoveDown => self.move_down(),
            Event::MoveUp => self.move_up(),
            Event::ToggleSelect => self.toggle_selected(),
            Event::Confirm => {
                self.phase = Phase::Deleting;
                self.initial = self.selected.len();
                self.completed = 0;
            },
            Event::Quit => {
                self.phase = Phase::Done;
            },
        }
    }

    fn move_down(&mut self)
        requires
            old(self).wf(),
            old(self).phase == Phase::Browsing,
        ensures
            final(self).wf(),
            final(self)@ == step(old(self)@, Event::MoveDown),
            final(self).listing() == old(self).listing(),
            final(self).failure_log() == old(self).failure_log(),
    {
        let n = self.branches.len();
        self.cursor = (self.cursor + 1) % n;
    }

    fn move_up(&mut self)
        requires
            old(self).wf(),
            old(self).phase == Phase::Browsing,
        ensures
            final(self).wf(),
            final(self)@ == step(old(self)@, Event::MoveUp),
            final(self).listing() == old(self).listing(),
            final(self).failure_log() == old(self).failure_log(),
    {
        let n = self.branches.len();
        let c = self.cursor;
        if c == 0 {
            self.cursor = n - 1;
            assert(((0 - 1 + n as int) % (n as int)) == n - 1) by {
                vstd::arithmetic::div_mod::lemma_small_mod((n - 1) as nat, n as nat);
            }
        } else {
            self.cursor = c - 1;
            assert(((c as int - 1 + n as int) % (n as int)) == c - 1) by {
                vstd::arithmetic::div_mod::lemma_mod_add_multiples_vanish(c as int - 1, n as int);
                vstd::arithmetic::div_mod::lemma_small_mod((c - 1) as nat, n as nat);
            }
        }
    }

    fn toggle_selected(&mut self)
        requires
            old(self).wf(),
            old(self).phase == Phase::Browsing,
        ensures
            final(self).wf(),
            final(self)@ == step(old(self)@, Event::ToggleSelect),
            final(self).listing() == old(self).listing(),
            final(self).failure_log() == old(self).failure_log(),
    {
        let c = self.cursor;
        let mut k: usize = 0;
        while k < self.selected.len()
            invariant
                *self == *old(self),
                self.wf(),
                self.phase == Phase::Browsing,
                c == self.cursor,
                k <= self.selected.len(),
                forall|j: int| 0 <= j < k ==> self.selected[j] != c,
            decreases self.selected.len() - k,
        {
            if self.selected[k] == c {
                let ghost before = self.selected@;
                self.selected.remove(k);
                proof {
                    let chosen = choose|j: int| 0 <= j < before.len() && before[j] == c;
                    assert(before.contains(c));
                    assert(chosen == k as int) by {
                        if chosen != k as int {
                            assert(before[chosen] == before[k as int]);
                        }
                    }
                    assert forall|a: int, b: int|
                        0 <= a < self.selected@.len() && 0 <= b < self.selected@.len() && a
                            != b implies self.selected@[a] != self.selected@[b] by {
                        let a0 = if a < k { a } else { a + 1 };
                        let b0 = if b < k { b } else { b + 1 };
                        assert(before[a0] != before[b0]);
                    }
                    assert(toggled(before, c) == self.selected@);
                }
                assert forall|j: int| 0 <= j < self@.selected.len() implies self@.selected[j] < self@.count by {
                    if j < k {
                        assert(self@.selected[j] == before[j]);
                    } else {
                        assert(self@.selected[j] == before[j + 1]);
                    }
                }
                return;
            }
            k = k + 1;
        }
        proof {
            assert(!self.selected@.contains(c));
        }
        self.selected.push(c);
        proof {
            let sel = self.selected@;
            assert(sel.drop_last() == old(self).selected@);
            assert forall|a: int, b: int|
                0 <= a < sel.len() && 0 <= b < sel.len() && a != b implies sel[a] != sel[b] by {
                if b == sel.len() - 1 {
                    assert(old(self).selected@[a] == sel[a]);
                } else if a == sel.len() - 1 {
                    assert(old(self).selected@[b] == sel[b]);
                } else {
                    assert(old(self).selected@[a] == sel[a]);
                    assert(old(self).selected@[b] == sel[b]);
                }
            }
        }
    }

    /// Notes that deleting the branch named `branch` failed with `error`.
    pub fn record_failure(&mut self, branch: String, error: DeletionError)
        ensures
            final(self)@ == old(self)@,
            final(self).listing() == old(self).listing(),
            final(self).failure_log().len() == old(self).failure_log().len() + 1,
            final(self).failure_log().drop_last() == old(self).failure_log(),
            final(self).failure_log().last().branch@ == branch@,
            final(self).failure_log().last().error == error,
    {
        self.failures.push(DeletionFailure { branch, error });
        assert(self.failures@.drop_last() =~= old(self).failures@);
    }

    /// The listing, in the order it was read.
    pub fn branches(&self) -> (r: &Vec<Branch>)
        ensures
            r@ == self.listing(),
    {
        &self.branches
    }

    /// Index of the highlighted branch.
    pub fn cursor(&self) -> (r: usize)
        ensures
            r == self@.cursor,
    {
        self.cursor
    }

    pub fn phase(&self) -> (r: Phase)
        ensures
            r == self@.phase,
    {
        self.phase
    }

    /// Whether branch `i` of the listing is marked for deletion.
    pub fn is_selected(&self, i: usize) -> (r: bool)
        ensures
            r == self@.selected.contains(i),
    {
        let mut k: usize = 0;
        while k < self.selected.len()
            invariant
                k <= self.selected.len(),
                forall|j: int| 0 <= j < k ==> self.selected[j] != i,
            decreases self.selected.len() - k,
        {
            if self.selected[k] == i {
                return true;
            }
            k = k + 1;
        }
        false
    }

    /// How many branches the current deletion run started with.
    pub fn total(&self) -> (r: usize)
        ensures
            r == self@.initial,
    {
        self.initial
    }

    /// How many branches of the current deletion run have been handled.
    pub fn completed(&self) -> (r: usize)
        ensures
            r == self@.completed,
    {
        self.completed
    }

    /// The deletions that failed so far, oldest first.
    pub fn failures(&self) -> (r: &Vec<DeletionFailure>)
        ensures
            r@ == self.failure_log(),
    {
        &self.failures
    }

    /// One tick of the deletion run. While deleting with branches still
    /// marked, the most recently marked one is taken off the selection,
    /// counted as handled and returned, for the caller to delete. With none
    /// left the session ends. Outside a deletion run nothing changes.
    pub fn tick(&mut self) -> (r: Option<Branch>)
        requires
            old(self).wf(),
        ensures
            final(self).wf(),
            final(self)@ == tick(old(self)@),
            final(self).listing() == old(self).listing(),
            final(self).failure_log() == old(self).failure_log(),
            (old(self)@.phase == Phase::Deleting && old(self)@.selected.len() > 0) <==> r is Some,
            r matches Some(b) ==> b.same_as(
                &old(self).listing()[old(self)@.selected.last() as int],
            ),
    {
        if self.phase != Phase::Deleting {
            return None;
        }
        match self.selected.pop() {
            Some(i) => {
                self.completed = self.completed + 1;
                Some(self.branches[i].duplicate())
            },
            None => {
                self.phase = Phase::Done;
                None
            },
        }
    }
}

} // verus!
