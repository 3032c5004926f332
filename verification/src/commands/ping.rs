use vstd::prelude::*;

use crate::cli::spec;

verus! {

/// Send a ping request to the broker, if connected.
pub fn ping() -> (res: spec::Command)
    ensures
        res.wf(),
        res.spec_name() == "ping"@,
        res.spec_description() == "If connected, send a ping request to the broker."@,
        res.flag_views().len() == 0,
{
    let c = spec::Command::build("ping").set_description(
        "If connected, send a ping request to the broker.",
    );
    assert(c.flag_views() =~= Seq::empty());
    c
}

} // verus!
