use vstd::prelude::*;

use crate::cli::command::Command as ParsedCommand;
use crate::cli::command::{arg_fits, entries_fit};
use crate::cli::command::flag::{Flag as GivenFlag, FlagSet as GivenFlags};
use crate::cli::command::operand::{Operand, OperandList};
use crate::cli::error::CliError;
use crate::cli::spec;
use crate::cli::spec::command::error::UnknownCommandError;
use crate::cli::spec::flag::error::{FlagMissingArgError, UnknownFlagError};
use crate::cli::spec::flag::{
    extract, extract_spec, first_index_from, is_flag, is_flag_text, lookup_result, query,
    query_view_matches, Identified,
    FlagView, QueryView,
};
use crate::command::arg::{Arg, ArgView};
use crate::text::{
    byte_count, byte_len, push_spaces, push_str, split_whitespace, split_ws, spaces,
    string_from_chars, strings_view,
};

pub mod lexer;

verus! {

broadcast use vstd::seq_lib::group_seq_properties;

/// Prompt shown when the shell state names none.
pub const DEFAULT_PROMPT: &'static str = "#";

/// Shell state key of the channel that queues commands.
pub const STATE_CMD_TX: &'static str = "cmd_queue_tx";

/// Shell state key of the prompt text.
pub const STATE_PROMPT_STRING: &'static str = "prompt";

/// Shell state key of the command run when the shell starts.
pub const STATE_ON_RUN_COMMAND: &'static str = "on_run";

/// What parsing the words after the command name gives.
pub enum ParseOutcome {
    /// The flags given, each with its specification and argument, and the
    /// operands.
    Parsed(Seq<(FlagView, ArgView)>, Seq<Seq<char>>),
    /// A flag that the command does not have.
    UnknownFlag(QueryView),
    /// A flag whose required argument is missing.
    MissingArg(QueryView),
}

/// The identities of flag specifications.
pub open spec fn spec_ids(specs: Seq<FlagView>) -> Seq<(Seq<char>, char)> {
    specs.map_values(|f: FlagView| f.0)
}

/// The flags given so far after `e` is given: `e` takes the place of the
/// entry with the same identity, or comes last if there is none.
pub open spec fn replace_entry(acc: Seq<(FlagView, ArgView)>, e: (FlagView, ArgView)) -> Seq<
    (FlagView, ArgView),
> {
    if exists|i: int| 0 <= i < acc.len() && #[trigger] acc[i].0.0 == e.0.0 {
        acc.update(choose|i: int| 0 <= i < acc.len() && #[trigger] acc[i].0.0 == e.0.0, e)
    } else {
        acc.push(e)
    }
}

/// Whether the word at `i` exists and is no flag, so that it can be a flag's
/// argument.
pub open spec fn argument_at(toks: Seq<Seq<char>>, i: int) -> bool {
    0 <= i < toks.len() && !is_flag_text(toks[i])
}

/// Parse the words from position `i` on, given the flags and operands read
/// so far. A flag word is looked up among `specs`; a flag with an optional
/// argument takes the next word unless that is missing or a flag (then the
/// flag is dropped); one with a required argument must have it; any other
/// word is an operand. A flag given again replaces the earlier one.
pub open spec fn parse_from(
    specs: Seq<FlagView>,
    toks: Seq<Seq<char>>,
    i: int,
    flags: Seq<(FlagView, ArgView)>,
    operands: Seq<Seq<char>>,
) -> ParseOutcome
    decreases toks.len() - i,
{
    if i < 0 || i >= toks.len() {
        ParseOutcome::Parsed(flags, operands)
    } else if is_flag_text(toks[i]) {
        let q = extract_spec(toks[i]).unwrap();
        match first_index_from(spec_ids(specs), q, 0) {
            None => ParseOutcome::UnknownFlag(q),
            Some(k) => {
                let fs = specs[k];
                match fs.1 {
                    spec::Arg::Optional => if argument_at(toks, i + 1) {
                        parse_from(
                            specs,
                            toks,
                            i + 2,
                            replace_entry(flags, (fs, ArgView::Optional(Some(toks[i + 1])))),
                            operands,
                        )
                    } else {
                        parse_from(specs, toks, i + 1, flags, operands)
                    },
                    spec::Arg::Required => if argument_at(toks, i + 1) {
                        parse_from(
                            specs,
                            toks,
                            i + 2,
                            replace_entry(flags, (fs, ArgView::Required(toks[i + 1]))),
                            operands,
                        )
                    } else {
                        ParseOutcome::MissingArg(q)
                    },
                    spec::Arg::NoArg => parse_from(
                        specs,
                        toks,
                        i + 1,
                        replace_entry(flags, (fs, ArgView::NoArg)),
                        operands,
                    ),
                }
            },
        }
    } else {
        parse_from(specs, toks, i + 1, flags, operands.push(toks[i]))
    }
}

/// Giving a flag to a set of given flags changes the entries as
/// `replace_entry` says.
proof fn lemma_replace<'a>(old_set: GivenFlags<'a>, new_set: GivenFlags<'a>, item: GivenFlag<'a>, replaced: bool)
    requires
        old_set.wf(),
        replaced ==> exists|i: int|
            0 <= i < old_set.entries().len() && old_set.ids()[i] == item.spec_id()
                && new_set.entries() == old_set.entries().update(i, item),
        !replaced ==> !old_set.has_id(item.spec_id()) && new_set.entries() == old_set.entries().push(
            item,
        ),
    ensures
        new_set.entries().map_values(|f: GivenFlag<'a>| f.entry()) == replace_entry(
            old_set.entries().map_values(|f: GivenFlag<'a>| f.entry()),
            item.entry(),
        ),
{
    let acc = old_set.entries().map_values(|f: GivenFlag<'a>| f.entry());
    let e = item.entry();
    assert forall|j: int| 0 <= j < acc.len() implies (#[trigger] acc[j].0.0 == e.0.0 <==> old_set.ids()[j]
        == item.spec_id()) by {
        assert(acc[j] == old_set.entries()[j].entry());
    }
    if replaced {
        let i = choose|i: int|
            0 <= i < old_set.entries().len() && old_set.ids()[i] == item.spec_id()
                && new_set.entries() == old_set.entries().update(i, item);
        assert(acc[i].0.0 == e.0.0);
        let c = choose|c: int| 0 <= c < acc.len() && #[trigger] acc[c].0.0 == e.0.0;
        assert(old_set.ids()[c] == old_set.ids()[i]);
        assert(c == i);
        assert(new_set.entries().map_values(|f: GivenFlag<'a>| f.entry()) =~= acc.update(i, e));
    } else {
        assert forall|j: int| 0 <= j < acc.len() implies #[trigger] acc[j].0.0 != e.0.0 by {
            assert(old_set.ids()[j] != item.spec_id());
        }
        assert(new_set.entries().map_values(|f: GivenFlag<'a>| f.entry()) =~= acc.push(e));
    }
}

/// Width of the name column of the shell help: the longest name plus one,
/// in bytes.
pub open spec fn name_width(cmds: Seq<spec::Command>) -> int
    decreases cmds.len(),
{
    if cmds.len() == 0 {
        0
    } else {
        let w = byte_count(cmds.last().spec_name()) + 1;
        let rest = name_width(cmds.drop_last());
        if w > rest {
            w
        } else {
            rest
        }
    }
}

/// Width of the help column of the shell help: the longest command help
/// plus one, in bytes.
pub open spec fn help_width(cmds: Seq<spec::Command>) -> int
    decreases cmds.len(),
{
    if cmds.len() == 0 {
        0
    } else {
        let w = byte_count(cmds.last().help_spec()) + 1;
        let rest = help_width(cmds.drop_last());
        if w > rest {
            w
        } else {
            rest
        }
    }
}

/// One row of the shell help: the name right-aligned in its column, four
/// spaces, the command's help padded to its column, and a line break.
pub open spec fn help_row(c: spec::Command, nw: int, hw: int) -> Seq<char> {
    spaces((nw - byte_count(c.spec_name())) as nat) + c.spec_name() + "    "@ + c.help_spec() + spaces(
        (hw - byte_count(c.help_spec())) as nat,
    ) + seq!['\n']
}

/// The rows of the shell help, in order.
pub open spec fn help_rows(cmds: Seq<spec::Command>, nw: int, hw: int) -> Seq<char>
    decreases cmds.len(),
{
    if cmds.len() == 0 {
        Seq::empty()
    } else {
        help_rows(cmds.drop_last(), nw, hw) + help_row(cmds.last(), nw, hw)
    }
}

/// The widths are at least one more than each entry.
proof fn lemma_widths(cmds: Seq<spec::Command>, i: int)
    requires
        0 <= i < cmds.len(),
    ensures
        byte_count(cmds[i].spec_name()) + 1 <= name_width(cmds),
        byte_count(cmds[i].help_spec()) + 1 <= help_width(cmds),
    decreases cmds.len(),
{
    if i < cmds.len() - 1 {
        lemma_widths(cmds.drop_last(), i);
    }
}

/// No identity occurs twice among the entries.
pub open spec fn ids_unique(acc: Seq<(FlagView, ArgView)>) -> bool {
    forall|i: int, j: int| 0 <= i < j < acc.len() ==> acc[i].0.0 != acc[j].0.0
}

/// Giving a flag keeps the identities unique.
pub proof fn lemma_replace_keeps_unique(acc: Seq<(FlagView, ArgView)>, e: (FlagView, ArgView))
    requires
        ids_unique(acc),
    ensures
        ids_unique(replace_entry(acc, e)),
{
    if exists|i: int| 0 <= i < acc.len() && #[trigger] acc[i].0.0 == e.0.0 {
        let k = choose|i: int| 0 <= i < acc.len() && #[trigger] acc[i].0.0 == e.0.0;
        let r = replace_entry(acc, e);
        assert forall|i: int, j: int| 0 <= i < j < r.len() implies r[i].0.0 != r[j].0.0 by {
            if i != k && j != k {
                assert(acc[i].0.0 != acc[j].0.0);
            } else if i == k {
                assert(acc[k].0.0 != acc[j].0.0);
            } else {
                assert(acc[i].0.0 != acc[k].0.0);
            }
        }
    } else {
        let r = replace_entry(acc, e);
        assert forall|i: int, j: int| 0 <= i < j < r.len() implies r[i].0.0 != r[j].0.0 by {
            if j == acc.len() {
                assert(acc[i].0.0 != e.0.0);
            } else {
                assert(acc[i].0.0 != acc[j].0.0);
            }
        }
    }
}

/// A flag given again replaces the earlier one: giving `e1` and then `e2`
/// with the same identity leaves what giving `e2` alone leaves.
pub proof fn lemma_later_flag_wins(
    acc: Seq<(FlagView, ArgView)>,
    e1: (FlagView, ArgView),
    e2: (FlagView, ArgView),
)
    requires
        ids_unique(acc),
        e1.0.0 == e2.0.0,
    ensures
        replace_entry(replace_entry(acc, e1), e2) == replace_entry(acc, e2),
{
    let r1 = replace_entry(acc, e1);
    if exists|i: int| 0 <= i < acc.len() && #[trigger] acc[i].0.0 == e1.0.0 {
        let k = choose|i: int| 0 <= i < acc.len() && #[trigger] acc[i].0.0 == e1.0.0;
        assert(r1[k].0.0 == e2.0.0);
        let k2 = choose|i: int| 0 <= i < r1.len() && #[trigger] r1[i].0.0 == e2.0.0;
        if k2 != k {
            assert(acc[k2].0.0 == acc[k].0.0);
            if k2 < k {
                assert(acc[k2].0.0 != acc[k].0.0);
            } else {
                assert(acc[k].0.0 != acc[k2].0.0);
            }
        }
        assert(replace_entry(r1, e2) =~= replace_entry(acc, e2));
    } else {
        let n = acc.len() as int;
        assert(r1[n].0.0 == e2.0.0);
        let k2 = choose|i: int| 0 <= i < r1.len() && #[trigger] r1[i].0.0 == e2.0.0;
        if k2 != n {
            assert(acc[k2].0.0 == e1.0.0);
        }
        assert(replace_entry(r1, e2) =~= acc.push(e2));
    }
}

/// Giving a flag whose argument fits keeps every argument fitting.
proof fn lemma_replace_fits(acc: Seq<(FlagView, ArgView)>, e: (FlagView, ArgView))
    requires
        entries_fit(acc),
        arg_fits(e.0.1, e.1),
    ensures
        entries_fit(replace_entry(acc, e)),
{
    let r = replace_entry(acc, e);
    assert forall|i: int| 0 <= i < r.len() implies arg_fits(#[trigger] r[i].0.1, r[i].1) by {
        if i < acc.len() && r[i] == acc[i] {
        } else {
            assert(r[i] == e);
        }
    }
}

/// The command line shell: the command specifications and the help text.
pub struct Shell {
    commands: spec::CommandSet,
    help: String,
}

impl Shell {
    pub closed spec fn spec_commands(&self) -> Map<Seq<char>, spec::Command> {
        self.commands@
    }

    pub closed spec fn spec_help(&self) -> Seq<char> {
        self.help@
    }

    pub closed spec fn wf(&self) -> bool {
        self.commands.wf()
    }

    /// The command specifications, in the order in which they were added.
    pub closed spec fn command_list(&self) -> Seq<spec::Command> {
        self.commands.val_seq()
    }

    /// The shell help: the shell's help text, a blank line and one row per
    /// command.
    pub open spec fn help_spec(&self) -> Seq<char> {
        let cmds = self.command_list();
        self.spec_help() + "\n\n"@ + help_rows(cmds, name_width(cmds), help_width(cmds))
    }

    /// The help text of the shell.
    pub fn help(&self) -> (res: String)
        requires
            self.wf(),
            forall|i: int| 0 <= i < self.command_list().len() ==> #[trigger] self.command_list()[i].help_fits(),
        ensures
            res@ == self.help_spec(),
    {
        let cmds = self.commands.values();
        let ghost cs = cmds@;
        let mut helps: Vec<String> = Vec::new();
        let mut nw: u128 = 0;
        let mut hw: u128 = 0;
        let mut i: usize = 0;
        while i < cmds.len()
            invariant
                i <= cs.len(),
                cs == cmds@,
                cs == self.command_list(),
                forall|j: int| 0 <= j < cs.len() ==> #[trigger] cs[j].help_fits(),
                helps@.len() == i,
                forall|j: int| 0 <= j < i ==> #[trigger] helps@[j]@ == cs[j].help_spec(),
                nw == name_width(cs.take(i as int)),
                hw == help_width(cs.take(i as int)),
            decreases cs.len() - i,
        {
            let c = &cmds[i];
            let h = c.help();
            let w_name: u128 = byte_len(c.name()) as u128 + 1;
            let w_help: u128 = byte_len(h.as_str()) as u128 + 1;
            assert(cs.take(i + 1).drop_last() =~= cs.take(i as int));
            if w_name > nw {
                nw = w_name;
            }
            if w_help > hw {
                hw = w_help;
            }
            helps.push(h);
            i = i + 1;
        }
        assert(cs.take(i as int) =~= cs);
        let mut out: Vec<char> = Vec::new();
        push_str(&mut out, self.help.as_str());
        push_str(&mut out, "\n\n");
        let ghost head = out@;
        let mut k: usize = 0;
        while k < cmds.len()
            invariant
                k <= cs.len(),
                cs == cmds@,
                helps@.len() == cs.len(),
                forall|j: int| 0 <= j < cs.len() ==> #[trigger] helps@[j]@ == cs[j].help_spec(),
                nw == name_width(cs),
                hw == help_width(cs),
                out@ == head + help_rows(cs.take(k as int), name_width(cs), help_width(cs)),
            decreases cs.len() - k,
        {
            let c = &cmds[k];
            let h = helps[k].as_str();
            proof {
                lemma_widths(cs, k as int);
            }
            let ghost before = out@;
            push_spaces(&mut out, nw - byte_len(c.name()) as u128);
            push_str(&mut out, c.name());
            push_str(&mut out, "    ");
            push_str(&mut out, h);
            push_spaces(&mut out, hw - byte_len(h) as u128);
            out.push('\n');
            assert(out@ =~= before + help_row(cs[k as int], name_width(cs), help_width(cs)));
            assert(cs.take(k + 1).drop_last() =~= cs.take(k as int));
            k = k + 1;
        }
        assert(cs.take(k as int) =~= cs);
        string_from_chars(&out)
    }

    pub fn new(commands: spec::CommandSet, help: &str) -> (res: Shell)
        requires
            commands.wf(),
        ensures
            res.wf(),
            res.spec_commands() == commands@,
            res.spec_help() == help@,
    {
        Shell { commands, help: help.to_owned() }
    }

    /// The specification of the command with the given name.
    pub fn find_command_spec(&self, command_name: &str) -> (res: Option<&spec::Command>)
        requires
            self.wf(),
        ensures
            match res {
                Some(c) => self.spec_commands().contains_key(command_name@) && *c
                    == self.spec_commands()[command_name@],
                None => !self.spec_commands().contains_key(command_name@),
            },
    {
        self.commands.get(command_name)
    }

    /// The command name of an input line: its first word.
    pub fn extract_command_name(&self, input_text: &str) -> (res: Option<String>)
        ensures
            match res {
                Some(name) => split_ws(input_text@).len() > 0 && name@ == split_ws(input_text@)[0],
                None => split_ws(input_text@).len() == 0,
            },
    {
        let mut words = split_whitespace(input_text);
        if words.len() == 0 {
            None
        } else {
            Some(words.swap_remove(0))
        }
    }

    /// Turn an input line into a command: the first word names it, the other
    /// words are its flags, their arguments and its operands. An empty line
    /// gives `None`.
    pub fn parse<'a>(&'a self, input_text: &str) -> (res: Result<Option<ParsedCommand<'a>>, CliError>)
        requires
            self.wf(),
        ensures
            ({
                let words = split_ws(input_text@);
                &&& words.len() == 0 ==> (res matches Ok(None))
                &&& words.len() > 0 && !self.spec_commands().contains_key(words[0]) ==> (res matches Err(
                    CliError::UnknownCommand(e),
                ) && e.0@ == words[0])
                &&& words.len() > 0 && self.spec_commands().contains_key(words[0]) ==> {
                    let cmd = self.spec_commands()[words[0]];
                    match parse_from(cmd.flag_views(), words, 1, Seq::empty(), Seq::empty()) {
                        ParseOutcome::Parsed(flags, operands) => (res matches Ok(Some(c)) && *c.spec_spec()
                            == cmd && c.flag_entries() == flags && c.operand_views() == operands
                            && entries_fit(flags)),
                        ParseOutcome::UnknownFlag(q) => (res matches Err(CliError::UnknownFlag(e))
                            && e.0@ == q),
                        ParseOutcome::MissingArg(q) => (res matches Err(CliError::FlagMissingArg(e))
                            && e.0@ == q),
                    }
                }
            }),
    {
        let tokens = split_whitespace(input_text);
        let ghost words = split_ws(input_text@);
        if tokens.len() == 0 {
            return Ok(None);
        }
        let command_spec = match self.find_command_spec(tokens[0].as_str()) {
            Some(spec) => spec,
            None => {
                return Err(CliError::UnknownCommand(UnknownCommandError(tokens[0].clone())));
            },
        };
        let ghost specs = command_spec.flag_views();
        assert(tokens[0]@ == words[0]);
        let mut flags: GivenFlags<'a> = GivenFlags::new();
        let mut operands: OperandList = Vec::new();
        let mut i: usize = 1;
        assert(flags.entries().map_values(|f: GivenFlag<'a>| f.entry()) =~= Seq::empty());
        assert(entries_fit(Seq::empty()));
        assert(operands@.map_values(|o: Operand| o@) =~= Seq::empty());
        while i < tokens.len()
            invariant
                1 <= i <= tokens@.len() + 1,
                strings_view(tokens@) == words,
                words == split_ws(input_text@),
                words.len() > 0,
                self.spec_commands().contains_key(words[0]),
                *command_spec == self.spec_commands()[words[0]],
                specs == command_spec.flag_views(),
                flags.wf(),
                entries_fit(flags.entries().map_values(|f: GivenFlag<'a>| f.entry())),
                parse_from(
                    specs,
                    words,
                    i as int,
                    flags.entries().map_values(|f: GivenFlag<'a>| f.entry()),
                    operands@.map_values(|o: Operand| o@),
                ) == parse_from(specs, words, 1, Seq::empty(), Seq::empty()),
            decreases tokens@.len() - i,
        {
            let ghost fe = flags.entries().map_values(|f: GivenFlag<'a>| f.entry());
            let ghost ov = operands@.map_values(|o: Operand| o@);
            let token = tokens[i].as_str();
            assert(token@ == words[i as int]);
            if is_flag(token) {
                let flag_id = extract(token).unwrap();
                let ghost q = flag_id@;
                proof {
                    assert(command_spec.spec_flags().ids() =~= spec_ids(specs));
                }
                let flag_spec = match query(&flag_id, command_spec.flags()) {
                    Some(f) => f,
                    None => {
                        proof {
                            assert(extract_spec(words[i as int]) == Some(q));
                            assert(parse_from(specs, words, i as int, fe, ov) == ParseOutcome::UnknownFlag(q));
                        }
                        return Err(CliError::UnknownFlag(UnknownFlagError(flag_id)));
                    },
                };
                proof {
                    let set = command_spec.spec_flags();
                    let k = first_index_from(set.ids(), q, 0)->0;
                    assert(specs[k] == set.entries()[k]@);
                    assert(specs[k] == flag_spec@);
                }
                let has_next = i + 1 < tokens.len() && !is_flag(tokens[i + 1].as_str());
                proof {
                    if i + 1 < tokens.len() {
                        assert(tokens[i + 1 as int]@ == words[i + 1]);
                    }
                    assert(has_next == argument_at(words, i + 1));
                }
                let parsed_arg = match flag_spec.arg_spec() {
                    spec::Arg::Optional => {
                        if !has_next {
                            i = i + 1;
                            continue;
                        }
                        i = i + 1;
                        Arg::Optional(Some(tokens[i].clone()))
                    },
                    spec::Arg::Required => {
                        if !has_next {
                            assert(extract_spec(words[i as int]) == Some(q));
                            assert(parse_from(specs, words, i as int, fe, ov) == ParseOutcome::MissingArg(q));
                            return Err(CliError::FlagMissingArg(FlagMissingArgError(flag_id)));
                        }
                        i = i + 1;
                        Arg::Required(tokens[i].clone())
                    },
                    spec::Arg::NoArg => Arg::NoArg,
                };
                let given = GivenFlag::new(flag_spec, parsed_arg);
                let ghost before = flags;
                let prev = flags.replace(given);
                proof {
                    lemma_replace(before, flags, given, prev is Some);
                    lemma_replace_fits(
                        before.entries().map_values(|f: GivenFlag<'a>| f.entry()),
                        given.entry(),
                    );
                }
            } else {
                operands.push(Operand::new(token));
                assert(operands@.map_values(|o: Operand| o@) =~= ov.push(words[i as int]));
            }
            i = i + 1;
        }
        Ok(Some(ParsedCommand::new(command_spec, flags, operands)))
    }
}

} // verus!
