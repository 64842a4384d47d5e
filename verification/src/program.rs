//! The program as a whole.

use vstd::prelude::*;

verus! {

/// The program: it checks its files, parses the tag file, grabs the posts
/// and downloads them (its run belongs to the binary, which does the I/O).
pub struct Program {}

impl Program {
    pub fn new() -> (p: Self)
        ensures
            p == (Program {}),
    {
        Program {}
    }
}

} // verus!
