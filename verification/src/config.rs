use vstd::prelude::*;
use crate::bv::Bv;
use crate::text::{lines, split_lines};

verus! {

/// The file that lists BV identifiers, one per line.
#[derive(Debug, Clone, Copy)]
pub struct ConfigFile {}

impl ConfigFile {
    /// The videos that a list file names: one per line, each line taken
    /// whole, as `str::lines` cuts the text.
    pub fn bv_list(content: &str) -> (r: Vec<Bv>)
        ensures
            r@.len() == lines(content@).len(),
            forall|i: int| 0 <= i < r@.len() ==> (#[trigger] r@[i]).bv@ == lines(content@)[i],
    {
        let mut ls = split_lines(content);
        let n = ls.len();
        let mut out: Vec<Bv> = Vec::new();
        let mut i: usize = 0;
        while i < n
            invariant
                i <= n,
                n == ls@.len(),
                n == lines(content@).len(),
                forall|k: int| 0 <= k < n ==> #[trigger] ls@[k]@ == lines(content@)[k],
                out@.len() == i,
                forall|k: int| 0 <= k < i ==> (#[trigger] out@[k]).bv@ == lines(content@)[k],
            decreases n - i,
        {
            out.push(Bv::new(ls[i].clone()));
            i = i + 1;
        }
        out
    }
}

} // verus!
