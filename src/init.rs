use vstd::prelude::*;
use crate::definitions::Definitions;

verus! {

/// Fills every table of `definitions`, with hash keys that differ from run to run.
pub fn init(definitions: &mut Definitions)
    ensures
        final(definitions).tables_wf(),
{
    definitions.init();
}

} // verus!
