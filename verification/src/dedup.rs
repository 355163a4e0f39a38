//! An iterator that deduplicates runs of row identifiers: a value comes out
//! once its run reaches the target length.

use vstd::prelude::*;

verus! {

/// Type for a row identifier.
pub type RowId = u32;

/// The deduplicating cursor over a fixed list of row identifiers.
#[derive(Debug)]
pub struct DedupRuns {
    values: Vec<RowId>,
    idx: usize,
    cur_val: RowId,
    cur_count: usize,
    target_count: usize,
}

/// One pass of the cursor from `idx` with the given run state: the next
/// value whose run reaches the target, together with the state after it,
/// or `None` when the values run out first.
pub open spec fn dedup_next_spec(
    values: Seq<RowId>,
    idx: int,
    cur_val: RowId,
    cur_count: int,
    target: int,
) -> Option<(RowId, int, RowId, int)>
    decreases values.len() - idx,
{
    if idx < 0 || idx >= values.len() {
        None
    } else {
        let v = values[idx];
        let new_val = v;
        let new_count = if cur_val == v {
            cur_count + 1
        } else {
            1
        };
        if new_count == target {
            Some((v, idx + 1, new_val, new_count))
        } else {
            dedup_next_spec(values, idx + 1, new_val, new_count, target)
        }
    }
}

impl DedupRuns {
    pub closed spec fn spec_values(&self) -> Seq<RowId> {
        self.values@
    }

    pub closed spec fn spec_idx(&self) -> int {
        self.idx as int
    }

    pub closed spec fn spec_cur_val(&self) -> RowId {
        self.cur_val
    }

    pub closed spec fn spec_cur_count(&self) -> int {
        self.cur_count as int
    }

    pub closed spec fn spec_target(&self) -> int {
        self.target_count as int
    }

    /// A cursor over the identifiers; the first one opens the first run.
    pub fn new(it: Vec<RowId>, target_count: usize) -> (r: Self)
        requires
            it@.len() > 0,
        ensures
            r.spec_values() == it@.drop_first(),
            r.spec_idx() == 0,
            r.spec_cur_val() == it@[0],
            r.spec_cur_count() == 1,
            r.spec_target() == target_count,
    {
        let cur_val = it[0];
        let mut rest = it;
        let _first = rest.remove(0);
        DedupRuns { values: rest, idx: 0, cur_val, cur_count: 1, target_count }
    }

    /// The run-length bookkeeping invariant: the current run cannot be
    /// longer than what has been consumed.
    pub open spec fn wf(&self) -> bool {
        &&& self.spec_idx() <= self.spec_values().len()
        &&& 1 <= self.spec_cur_count() <= self.spec_idx() + 1
    }

    /// The next identifier whose run reaches the target length.
    pub fn next(&mut self) -> (r: Option<RowId>)
        requires
            old(self).wf(),
            old(self).spec_values().len() + 2 <= usize::MAX,
        ensures
            final(self).wf(),
            final(self).spec_values() == old(self).spec_values(),
            final(self).spec_target() == old(self).spec_target(),
            match dedup_next_spec(
                old(self).spec_values(),
                old(self).spec_idx(),
                old(self).spec_cur_val(),
                old(self).spec_cur_count(),
                old(self).spec_target(),
            ) {
                Some(step) => r == Some(step.0) && final(self).spec_idx() == step.1
                    && final(self).spec_cur_val() == step.2 && final(self).spec_cur_count()
                    == step.3,
                None => r is None,
            },
    {
        let mut result: Option<RowId> = None;
        loop
            invariant_except_break
                self.idx <= self.values@.len(),
                1 <= self.cur_count <= self.idx + 1,
                self.values@ == old(self).spec_values(),
                self.values@.len() + 2 <= usize::MAX,
                self.target_count == old(self).spec_target(),
                dedup_next_spec(
                    self.values@,
                    self.idx as int,
                    self.cur_val,
                    self.cur_count as int,
                    self.target_count as int,
                ) == dedup_next_spec(
                    old(self).spec_values(),
                    old(self).spec_idx(),
                    old(self).spec_cur_val(),
                    old(self).spec_cur_count(),
                    old(self).spec_target(),
                ),
            ensures
                self.idx <= self.values@.len(),
                1 <= self.cur_count <= self.idx + 1,
                self.values@ == old(self).spec_values(),
                self.target_count == old(self).spec_target(),
                match dedup_next_spec(
                    old(self).spec_values(),
                    old(self).spec_idx(),
                    old(self).spec_cur_val(),
                    old(self).spec_cur_count(),
                    old(self).spec_target(),
                ) {
                    Some(step) => result == Some(step.0) && self.idx == step.1 && self.cur_val
                        == step.2 && self.cur_count == step.3,
                    None => result is None,
                },
            decreases self.values@.len() - self.idx,
        {
            if self.idx >= self.values.len() {
                result = None;
                break;
            }
            let v = self.values[self.idx];
            if self.cur_val == v {
                self.cur_count = self.cur_count + 1;
            } else {
                self.cur_val = v;
                self.cur_count = 1;
            }
            self.idx = self.idx + 1;
            if self.cur_count == self.target_count {
                result = Some(v);
                break;
            }
        }
        result
    }
}

} // verus!
