//! Whether a fragment's outcome must be shown to the player as explanatory text.

use vstd::prelude::*;

verus! {

#[derive(Copy, Debug, PartialEq, Eq, Structural)]
pub enum Tooltipped {
    No,
    Yes,
}

impl Clone for Tooltipped {
    fn clone(&self) -> (r: Self)
        ensures
            r == *self,
    {
        *self
    }
}

} // verus!
