//! What a validation pass changes: the reports it has emitted and the calls
//! it has cached.

use vstd::prelude::*;
use crate::macrocache::MacroCache;
use crate::report::Errors;

verus! {

#[derive(Debug)]
pub struct Session {
    pub errors: Errors,
    pub cache: MacroCache,
}

impl Session {
    /// A pass that has reported nothing and cached nothing.
    pub fn new() -> (r: Session)
        ensures
            r.errors@.len() == 0,
            r.cache@.len() == 0,
    {
        Session { errors: Errors::new(), cache: MacroCache::new() }
    }
}

} // verus!
