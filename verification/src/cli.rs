use vstd::prelude::*;
use crate::bv::Bv;

verus! {

/// The command line: a file that lists BV identifiers, identifiers given
/// directly, whether to fetch every audio stream, whether to upload the
/// results, and the format of the saved files.
#[derive(Debug, Clone)]
pub struct Args {
    pub list: Option<String>,
    pub bv: Vec<String>,
    pub all: bool,
    pub upload: bool,
    pub format: String,
}

impl Args {
    /// The format of the saved files when none is given.
    pub fn default_format() -> (r: String)
        ensures
            r@ == "mp3"@,
    {
        String::from_str("mp3")
    }

    /// The videos to fetch: those of the list file first, in its order,
    /// then those given on the command line, in theirs.
    pub fn bv_list(&self, from_file: Vec<Bv>) -> (r: Vec<Bv>)
        ensures
            r@.len() == from_file@.len() + self.bv@.len(),
            forall|i: int| 0 <= i < from_file@.len() ==> #[trigger] r@[i] == from_file@[i],
            forall|k: int|
                0 <= k < self.bv@.len() ==> (#[trigger] r@[from_file@.len() + k]).bv@
                    == self.bv@[k]@,
    {
        let mut r = from_file;
        let ghost first = r@;
        let n = self.bv.len();
        let mut k: usize = 0;
        while k < n
            invariant
                k <= n,
                n == self.bv@.len(),
                r@.len() == first.len() + k,
                forall|i: int| 0 <= i < first.len() ==> #[trigger] r@[i] == first[i],
                forall|j: int|
                    0 <= j < k ==> (#[trigger] r@[first.len() + j]).bv@ == self.bv@[j]@,
            decreases n - k,
        {
            r.push(Bv::new(self.bv[k].clone()));
            k = k + 1;
        }
        r
    }
}

} // verus!
