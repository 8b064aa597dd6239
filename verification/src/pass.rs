//! The authoring pass shell: the hook a host compiler drives.  The pass
//! itself rewrites nothing yet; transformation lives in the class visitors.

use vstd::prelude::*;

use crate::script::Program;

verus! {

/// The authoring pass over a parsed program.
pub struct TreatyAuthoring;

impl TreatyAuthoring {
    /// Fold the program: currently the identity.
    pub fn fold_program(&self, program: &mut Program)
        ensures
            final(program).spec() == old(program).spec(),
    {
    }
}

} // verus!
