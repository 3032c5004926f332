use vstd::prelude::*;

use crate::cli::spec;

verus! {

/// Close the connection to the broker.
pub fn disconnect() -> (res: spec::Command)
    ensures
        res.wf(),
        res.spec_name() == "disconnect"@,
        res.spec_description() == "Disconnect from the a broker."@,
        res.flag_views().len() == 0,
{
    let c = spec::Command::build("disconnect").set_description("Disconnect from the a broker.");
    assert(c.flag_views() =~= Seq::empty());
    c
}

} // verus!
