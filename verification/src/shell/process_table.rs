//! The runs of an interpreter that have not ended yet.
use vstd::prelude::*;

verus! {

/// One run: its number, its code, and the handle by which it can be called
/// off.
pub struct Entry<T> {
    pub pid: usize,
    pub code: String,
    pub handle: T,
}

/// The runs that have not ended, in the order in which they began. Every run
/// gets a number of its own, counted up from one.
pub struct ProcessTable<T> {
    entries: Vec<Entry<T>>,
    next_pid: usize,
}

impl<T> ProcessTable<T> {
    /// The runs of the table, in the order in which they began.
    pub closed spec fn runs(&self) -> Seq<Entry<T>> {
        self.entries@
    }

    /// The number that the next run gets.
    pub closed spec fn next(&self) -> usize {
        self.next_pid
    }

    /// Whether the numbers of the runs go up from run to run and stay below
    /// the number that the next run gets.
    pub open spec fn wf(&self) -> bool {
        &&& forall|i: int, j: int|
            0 <= i < j < self.runs().len() ==> (#[trigger] self.runs()[i]).pid < (
            #[trigger] self.runs()[j]).pid
        &&& forall|i: int| 0 <= i < self.runs().len() ==> (#[trigger] self.runs()[i]).pid < self.next()
    }

    /// The place of the run with the number `pid`, if there is one.
    pub open spec fn position(&self, pid: usize) -> Option<int> {
        if exists|i: int| 0 <= i < self.runs().len() && (#[trigger] self.runs()[i]).pid == pid {
            Some(choose|i: int| 0 <= i < self.runs().len() && (#[trigger] self.runs()[i]).pid == pid)
        } else {
            None
        }
    }

    /// A table without runs.
    pub fn new() -> (r: Self)
        ensures
            r.wf(),
            r.runs().len() == 0,
            r.next() == 1,
    {
        ProcessTable { entries: Vec::new(), next_pid: 1 }
    }

    /// How many runs have not ended.
    pub fn len(&self) -> (r: usize)
        ensures
            r == self.runs().len(),
    {
        self.entries.len()
    }

    /// Whether another run can still get a number.
    pub fn has_room(&self) -> (r: bool)
        ensures
            r == (self.next() < usize::MAX),
    {
        self.next_pid < usize::MAX
    }

    /// Enters a run and gives its number.
    pub fn register(&mut self, code: String, handle: T) -> (pid: usize)
        requires
            old(self).wf(),
            old(self).next() < usize::MAX,
        ensures
            final(self).wf(),
            pid == old(self).next(),
            final(self).next() == pid + 1,
            final(self).runs() == old(self).runs().push(Entry { pid, code, handle }),
    {
        let pid = self.next_pid;
        self.next_pid = pid + 1;
        self.entries.push(Entry { pid, code, handle });
        proof {
            let before = old(self).runs();
            let after = self.runs();
            assert forall|i: int, j: int| 0 <= i < j < after.len() implies (#[trigger] after[i]).pid < (
            #[trigger] after[j]).pid by {
                assert(after[i] == before[i]);
                if j < before.len() {
                    assert(after[j] == before[j]);
                }
            }
            assert forall|i: int| 0 <= i < after.len() implies (#[trigger] after[i]).pid
                < self.next() by {
                if i < before.len() {
                    assert(after[i] == before[i]);
                }
            }
        }
        pid
    }

    /// Takes the run with the number `pid` out of the table and gives its
    /// handle, if there is such a run.
    #[verifier::rlimit(40)]
    pub fn remove(&mut self, pid: usize) -> (r: Option<T>)
        requires
            old(self).wf(),
        ensures
            final(self).wf(),
            final(self).next() == old(self).next(),
            match old(self).position(pid) {
                Some(i) => r == Some(old(self).runs()[i].handle) && final(self).runs() == old(
                    self,
                ).runs().remove(i),
                None => r is None && final(self).runs() == old(self).runs(),
            },
    {
        let mut i: usize = 0;
        while i < self.entries.len()
            invariant
                i <= self.entries@.len(),
                self.entries@ == old(self).entries@,
                self.next_pid == old(self).next_pid,
                self.wf(),
                forall|k: int| 0 <= k < i ==> (#[trigger] self.entries@[k]).pid != pid,
            decreases self.entries@.len() - i,
        {
            if self.entries[i].pid == pid {
                let ghost before = self.runs();
                proof {
                    assert(old(self).runs() == before);
                    assert(old(self).runs()[i as int].pid == pid);
                    assert(exists|k: int|
                        0 <= k < old(self).runs().len() && (#[trigger] old(self).runs()[k]).pid
                            == pid);
                    let found = old(self).position(pid)->0;
                    assert(0 <= found < before.len() && before[found].pid == pid);
                    if found < i {
                        assert(before[found].pid < before[i as int].pid);
                    } else if found > i {
                        assert(before[i as int].pid < before[found].pid);
                    }
                    assert(found == i);
                }
                let entry = self.entries.remove(i);
                proof {
                    let after = self.runs();
                    assert(after == before.remove(i as int));
                    assert forall|a: int, b: int| 0 <= a < b < after.len() implies (
                    #[trigger] after[a]).pid < (#[trigger] after[b]).pid by {
                        let x = if a < i {
                            a
                        } else {
                            a + 1
                        };
                        let y = if b < i {
                            b
                        } else {
                            b + 1
                        };
                        assert(after[a] == before[x]);
                        assert(after[b] == before[y]);
                        assert(before[x].pid < before[y].pid);
                    }
                    assert forall|a: int| 0 <= a < after.len() implies (#[trigger] after[a]).pid
                        < self.next() by {
                        let x = if a < i {
                            a
                        } else {
                            a + 1
                        };
                        assert(after[a] == before[x]);
                        assert(before[x].pid < self.next());
                    }
                }
                return Some(entry.handle);
            }
            i += 1;
        }
        proof {
            assert(old(self).position(pid) is None);
        }
        None
    }

    /// Takes every run out of the table and gives the handles, in the order
    /// in which the runs began.
    #[verifier::rlimit(40)]
    pub fn drain(&mut self) -> (r: Vec<T>)
        requires
            old(self).wf(),
        ensures
            final(self).wf(),
            final(self).next() == old(self).next(),
            final(self).runs().len() == 0,
            r@.len() == old(self).runs().len(),
            forall|i: int| 0 <= i < r@.len() ==> r@[i] == (#[trigger] old(self).runs()[i]).handle,
    {
        let mut out: Vec<T> = Vec::new();
        let ghost all = self.entries@;
        let ghost total = self.entries@.len();
        while self.entries.len() > 0
            invariant
                self.next_pid == old(self).next_pid,
                all == old(self).entries@,
                total == all.len(),
                self.entries@.len() <= total,
                self.entries@ == all.take(self.entries@.len() as int),
                out@.len() == total - self.entries@.len(),
                forall|k: int|
                    0 <= k < out@.len() ==> out@[k] == (#[trigger] all[total - 1 - k]).handle,
            decreases self.entries@.len(),
        {
            let ghost before = self.entries@;
            match self.entries.pop() {
                Some(entry) => {
                    proof {
                        assert(entry == all[before.len() - 1]);
                        assert(self.entries@ =~= all.take(self.entries@.len() as int));
                    }
                    out.push(entry.handle);
                },
                None => {},
            }
        }
        // the handles were taken from the end: turn them round
        let mut turned: Vec<T> = Vec::new();
        let ghost taken = out@;
        proof {
            assert(out@ =~= taken.take(out@.len() as int));
        }
        while out.len() > 0
            invariant
                taken.len() == total,
                total == all.len(),
                all == old(self).entries@,
                self.entries@.len() == 0,
                self.next_pid == old(self).next_pid,
                forall|k: int| 0 <= k < total ==> taken[k] == (#[trigger] all[total - 1 - k]).handle,
                out@.len() <= total,
                out@ == taken.take(out@.len() as int),
                turned@.len() == total - out@.len(),
                forall|k: int|
                    0 <= k < turned@.len() ==> turned@[k] == #[trigger] taken[total - 1 - k],
            decreases out@.len(),
        {
            let ghost before = out@;
            match out.pop() {
                Some(handle) => {
                    proof {
                        assert(handle == taken[before.len() - 1]);
                        assert(out@ =~= taken.take(out@.len() as int));
                    }
                    turned.push(handle);
                },
                None => {},
            }
        }
        proof {
            assert forall|i: int| 0 <= i < turned@.len() implies turned@[i] == (
            #[trigger] old(self).runs()[i]).handle by {
                assert(turned@[i] == taken[total - 1 - i]);
                assert(taken[total - 1 - i] == all[total - 1 - (total - 1 - i)].handle);
            }
        }
        turned
    }

    /// The numbers and the codes of the runs, in the order in which they
    /// began.
    pub fn list(&self) -> (r: Vec<(usize, String)>)
        ensures
            r@.len() == self.runs().len(),
            forall|i: int|
                0 <= i < r@.len() ==> (#[trigger] r@[i]).0 == self.runs()[i].pid && r@[i].1@
                    == self.runs()[i].code@,
    {
        let mut out: Vec<(usize, String)> = Vec::new();
        let mut i: usize = 0;
        while i < self.entries.len()
            invariant
                i <= self.entries@.len(),
                out@.len() == i,
                forall|k: int|
                    0 <= k < i ==> (#[trigger] out@[k]).0 == self.entries@[k].pid && out@[k].1@
                        == self.entries@[k].code@,
            decreases self.entries@.len() - i,
        {
            out.push((self.entries[i].pid, self.entries[i].code.clone()));
            i += 1;
        }
        out
    }
}

} // verus!
