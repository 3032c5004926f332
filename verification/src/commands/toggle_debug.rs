use vstd::prelude::*;

use crate::cli::spec;

verus! {

/// Enter or leave debug mode, which gives access to debug commands.
pub fn toggle_debug() -> (res: spec::Command)
    ensures
        res.wf(),
        res.spec_name() == "debug"@,
        res.spec_description() == "Enter/exit debug mode. Gives access to debug commands."@,
        res.spec_usage() == "{$name}"@,
        res.flag_views().len() == 0,
{
    let c = spec::Command::build("debug").set_description(
        "Enter/exit debug mode. Gives access to debug commands.",
    ).set_usage("{$name}");
    assert(c.flag_views() =~= Seq::empty());
    c
}

} // verus!
