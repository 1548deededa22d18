//! Split bookkeeping: the on-disk path of each split-out subcomponent, and
//! the numbering state that identifies likely shim components while nested
//! components are traversed.

use vstd::prelude::*;
use crate::text::{append_dec, dec_digits};
use vstd::string::StringExecFns;

verus! {

/// The on-disk path of split number `n` under the splits directory.
pub open spec fn split_path(splits: Seq<char>, n: int) -> Seq<char> {
    splits + "/split"@ + dec_digits(n) + ".wasm"@
}

/// The path of one split-out subcomponent.
pub fn gen_split_path(splits_path: &str, comp_id: usize) -> (r: String)
    ensures
        r@ == split_path(splits_path@, comp_id as int),
{
    let mut s = String::from_str(splits_path);
    s.append("/split");
    append_dec(&mut s, comp_id as u64);
    s.append(".wasm");
    proof {
        assert(s@ =~= split_path(splits_path@, comp_id as int));
    }
    s
}

/// The numbering state of a traversal over nested components: the next
/// split number, the numbers at which the enclosing components were
/// entered, and the splits identified as likely shim wrappers.
pub struct SplitTracker {
    pub curr_comp_num: usize,
    pub nested_comps: Vec<usize>,
    pub shim_comps: Vec<usize>,
}

/// Every pending entry records a number no later than the current one.
pub open spec fn tracker_inv(t: SplitTracker) -> bool {
    forall|i: int|
        0 <= i < t.nested_comps@.len() ==> #[trigger] t.nested_comps@[i] <= t.curr_comp_num
}

impl SplitTracker {
    /// A fresh numbering, starting at split zero.
    pub fn new() -> (r: Self)
        ensures
            r.curr_comp_num == 0,
            r.nested_comps@ == Seq::<usize>::empty(),
            r.shim_comps@ == Seq::<usize>::empty(),
            tracker_inv(r),
    {
        let r = SplitTracker { curr_comp_num: 0, nested_comps: Vec::new(), shim_comps: Vec::new() };
        proof {
            assert(r.nested_comps@ =~= Seq::<usize>::empty());
            assert(r.shim_comps@ =~= Seq::<usize>::empty());
        }
        r
    }

    /// Entering a component: returns the split number it is emitted under
    /// and advances the numbering.
    pub fn enter_component(&mut self) -> (r: usize)
        requires
            old(self).curr_comp_num < usize::MAX,
            tracker_inv(*old(self)),
        ensures
            r == old(self).curr_comp_num,
            final(self).curr_comp_num == old(self).curr_comp_num + 1,
            final(self).nested_comps@ == old(self).nested_comps@.push(old(self).curr_comp_num),
            final(self).shim_comps@ == old(self).shim_comps@,
            tracker_inv(*final(self)),
    {
        let r = self.curr_comp_num;
        self.nested_comps.push(r);
        self.curr_comp_num = r + 1;
        r
    }

    /// Leaving a component: when exactly one split was emitted inside it
    /// (the component itself), it likely wraps an inner shim, so its number
    /// is recorded for the path heuristic.
    pub fn exit_component(&mut self)
        requires
            tracker_inv(*old(self)),
        ensures
            final(self).curr_comp_num == old(self).curr_comp_num,
            old(self).nested_comps@.len() == 0 ==> final(self).nested_comps@ == old(
                self,
            ).nested_comps@ && final(self).shim_comps@ == old(self).shim_comps@,
            old(self).nested_comps@.len() > 0 ==> final(self).nested_comps@ == old(
                self,
            ).nested_comps@.drop_last() && final(self).shim_comps@ == (
            if old(self).curr_comp_num - old(self).nested_comps@.last() == 1 {
                old(self).shim_comps@.push((old(self).curr_comp_num - 1) as usize)
            } else {
                old(self).shim_comps@
            }),
            tracker_inv(*final(self)),
    {
        match self.nested_comps.pop() {
            Some(prev) => {
                proof {
                    assert(old(self).nested_comps@.last() == prev);
                }
                if self.curr_comp_num - prev == 1 {
                    self.shim_comps.push(self.curr_comp_num - 1);
                }
            },
            None => {},
        }
    }
}

} // verus!
