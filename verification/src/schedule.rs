//! Round-robin leader schedule: a cyclic cursor over a non-empty list of
//! validator identifiers.
use vstd::prelude::*;
use vstd::pervasive::cloned;
use vstd::string::StringExecFns;

verus! {

/// A cyclic cursor over a non-empty list. `next` yields the elements in
/// order, wrapping around forever.
pub struct RoundRobin<T> {
    pub vals: Vec<T>,
    pub idx: usize,
}

impl<T: Clone> RoundRobin<T> {
    /// The cursor is within the list, and the list is non-empty.
    pub open spec fn wf(&self) -> bool {
        self.vals@.len() > 0 && self.idx < self.vals@.len()
    }

    /// A schedule over `vals`, starting at the first element; an empty list
    /// is rejected.
    pub fn new(vals: Vec<T>) -> (r: Result<RoundRobin<T>, String>)
        ensures
            vals@.len() == 0 <==> r is Err,
            r matches Ok(s) ==> s.wf() && s.vals@ == vals@ && s.idx == 0,
            r matches Err(e) ==> e@ == "No validators provided"@,
    {
        if vals.len() == 0 {
            return Err(String::from_str("No validators provided"));
        }
        Ok(RoundRobin { vals, idx: 0 })
    }

    /// Yields a clone of the element under the cursor and advances the
    /// cursor one step, wrapping at the end of the list.
    pub fn next(&mut self) -> (r: Option<T>)
        requires
            old(self).wf(),
        ensures
            final(self).wf(),
            final(self).vals@ == old(self).vals@,
            final(self).idx == (old(self).idx + 1) % (old(self).vals@.len() as int),
            r matches Some(v) && cloned(old(self).vals@[old(self).idx as int], v),
    {
        let n = self.vals.len();
        let v = self.vals[self.idx].clone();
        self.idx = if self.idx + 1 == n {
            0
        } else {
            self.idx + 1
        };
        proof {
            if old(self).idx + 1 < n {
                vstd::arithmetic::div_mod::lemma_small_mod(
                    (old(self).idx + 1) as nat,
                    n as nat,
                );
            } else {
                vstd::arithmetic::div_mod::lemma_mod_self_0(n as int);
            }
        }
        Some(v)
    }
}

} // verus!
