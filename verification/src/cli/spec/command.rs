use vstd::prelude::*;

use crate::cli::spec::arg::Arg;
use crate::cli::spec::flag::{Flag, FlagSet, FlagView};
use crate::collections::StrMap;
use crate::text::{
    byte_count, byte_len, push_spaces, push_str, replace, replace_all, spaces, string_from_chars,
    trim, trim_chars,
};

pub mod error;

verus! {

/// What the shell does after a command ran: go on, or quit.
#[derive(Clone, Copy, Debug, PartialEq, Eq, Structural)]
pub enum ReturnCode {
    Continue,
    Abort,
}

/// The flags ordered by name in natural lexical order (lexical_sort's
/// `natural_lexical_cmp`, as its `StringSort::string_sort_unstable` orders
/// them).
pub uninterp spec fn natural_lexical_sorted(flags: Seq<FlagView>) -> Seq<FlagView>;

/// The views of a list of flags.
pub open spec fn views(flags: Seq<Flag>) -> Seq<FlagView> {
    flags.map_values(|f: Flag| f@)
}

/// A flag name that the natural comparison of lexical_sort reads without
/// overflow: ASCII only (other letters are transliterated through a table
/// that may give digits), and no run of more than 19 digits, whose value
/// could pass `u64::MAX`.
pub open spec fn sortable_name(name: Seq<char>) -> bool {
    &&& forall|i: int| 0 <= i < name.len() ==> ((#[trigger] name[i]) as u32) < 128
    &&& forall|i: int| 0 <= i && i + 20 <= name.len() ==> !#[trigger] twenty_digits_at(name, i)
}

/// Whether twenty ASCII digits follow one another from position `i` on.
pub open spec fn twenty_digits_at(name: Seq<char>, i: int) -> bool {
    forall|j: int| i <= j < i + 20 ==> '0' <= #[trigger] name[j] <= '9'
}

/// Sort flags by name with lexical_sort's `StringSort::string_sort_unstable`
/// and `natural_lexical_cmp`. Claimed: the result is the named order of the
/// flags, and holds the same flags. The comparison accumulates a run of
/// digits in a `u64`, so the names must be `sortable_name`s.
#[verifier::external_body]
fn sort_natural_lexical(flags: &mut Vec<Flag>)
    requires
        forall|i: int| 0 <= i < old(flags)@.len() ==> sortable_name((#[trigger] old(flags)@[i])@.0.0),
    ensures
        views(final(flags)@) == natural_lexical_sorted(views(old(flags)@)),
        views(final(flags)@).to_multiset() == views(old(flags)@).to_multiset(),
{
    lexical_sort::StringSort::string_sort_unstable(
        flags.as_mut_slice(),
        lexical_sort::natural_lexical_cmp,
    );
}

/// The usage text of one flag: `[-s]`, `[-s [arg]]` or `[-s arg]`, where the
/// argument is named after the flag with `_` for `-`, and a space.
pub open spec fn usage_piece(f: FlagView) -> Seq<char> {
    let arg_text = replace_all(f.0.0, "-"@, "_"@);
    match f.1 {
        Arg::NoArg => "[-"@ + seq![f.0.1] + "] "@,
        Arg::Optional => "[-"@ + seq![f.0.1] + " ["@ + arg_text + "]] "@,
        Arg::Required => "[-"@ + seq![f.0.1] + " "@ + arg_text + "] "@,
    }
}

/// The usage texts of the flags, in order.
pub open spec fn usage_pieces(fs: Seq<FlagView>) -> Seq<char>
    decreases fs.len(),
{
    if fs.len() == 0 {
        Seq::empty()
    } else {
        usage_pieces(fs.drop_last()) + usage_piece(fs.last())
    }
}

/// The text that names a flag in the options list.
pub open spec fn option_id(prefix: Seq<char>, f: FlagView) -> Seq<char> {
    prefix + seq!['-', f.0.1] + ", --"@ + f.0.0
}

/// Width of the flag column: the longest `-x, --name` plus two, in bytes.
pub open spec fn id_width(fs: Seq<FlagView>) -> int
    decreases fs.len(),
{
    if fs.len() == 0 {
        0
    } else {
        let w = 8 + byte_count(fs.last().0.0);
        let rest = id_width(fs.drop_last());
        if w > rest {
            w
        } else {
            rest
        }
    }
}

/// One line of the options list.
pub open spec fn option_line(prefix: Seq<char>, f: FlagView, width: int) -> Seq<char> {
    let id = option_id(prefix, f);
    id + spaces((width - byte_count(id)) as nat) + "  "@ + f.2 + seq!['\n']
}

/// The options list of the flags, in order.
pub open spec fn option_lines(prefix: Seq<char>, fs: Seq<FlagView>, width: int) -> Seq<char>
    decreases fs.len(),
{
    if fs.len() == 0 {
        Seq::empty()
    } else {
        option_lines(prefix, fs.drop_last(), width) + option_line(prefix, fs.last(), width)
    }
}

/// Every flag's name fits the flag column.
pub open spec fn options_fit(prefix: Seq<char>, fs: Seq<FlagView>) -> bool {
    forall|i: int| 0 <= i < fs.len() ==> byte_count(#[trigger] option_id(prefix, fs[i])) <= id_width(fs)
}

/// A flag that the options list lays out within its column: a one-byte
/// short form, and a name whose length in bytes leaves room for the eight
/// bytes around it in a `usize`.
pub open spec fn flag_fits(f: FlagView) -> bool {
    &&& (f.0.1 as u32) < 128
    &&& vstd::utf8::encode_utf8(f.0.0).len() + 8 <= usize::MAX
}

/// The UTF-8 encoding of two texts joined is the two encodings joined.
proof fn lemma_encode_concat(a: Seq<char>, b: Seq<char>)
    ensures
        vstd::utf8::encode_utf8(a + b) == vstd::utf8::encode_utf8(a) + vstd::utf8::encode_utf8(b),
    decreases a.len(),
{
    if a.len() == 0 {
        assert(a + b =~= b);
        assert(vstd::utf8::encode_utf8(a) + vstd::utf8::encode_utf8(b) =~= vstd::utf8::encode_utf8(b));
    } else {
        lemma_encode_concat(a.drop_first(), b);
        assert((a + b).drop_first() =~= a.drop_first() + b);
        assert((a + b)[0] == a[0]);
        assert(vstd::utf8::encode_utf8(a + b) =~= vstd::utf8::encode_utf8(a) + vstd::utf8::encode_utf8(b));
    }
}

/// A text of ASCII characters takes one byte per character.
proof fn lemma_ascii_bytes(t: Seq<char>)
    requires
        forall|i: int| 0 <= i < t.len() ==> ((#[trigger] t[i]) as u32) < 128,
    ensures
        vstd::utf8::encode_utf8(t).len() == t.len(),
    decreases t.len(),
{
    if t.len() > 0 {
        assert forall|i: int| 0 <= i < t.drop_first().len() implies ((#[trigger] t.drop_first()[i]) as u32) < 128 by {
            assert(t.drop_first()[i] == t[i + 1]);
        }
        lemma_ascii_bytes(t.drop_first());
        assert((t[0] as u32) < 128);
    }
}

/// The name of a fitting flag, with the eight bytes around it, is eight
/// bytes longer than the name.
proof fn lemma_option_id_bytes(f: FlagView)
    requires
        flag_fits(f),
    ensures
        byte_count(option_id("  "@, f)) == 8 + byte_count(f.0.0),
{
    reveal_strlit("  ");
    reveal_strlit(", --");
    let head = "  "@ + seq!['-', f.0.1] + ", --"@;
    assert(head.len() == 8);
    assert forall|i: int| 0 <= i < head.len() implies ((#[trigger] head[i]) as u32) < 128 by {
        if i == 3 {
            assert(head[i] == f.0.1);
        }
    }
    lemma_ascii_bytes(head);
    assert(option_id("  "@, f) == head + f.0.0);
    lemma_encode_concat(head, f.0.0);
}

/// The flag column is at least as wide as each flag's name and the eight
/// bytes around it.
proof fn lemma_id_width(fs: Seq<FlagView>, i: int)
    requires
        0 <= i < fs.len(),
    ensures
        8 + byte_count(fs[i].0.0) <= id_width(fs),
    decreases fs.len(),
{
    if i < fs.len() - 1 {
        lemma_id_width(fs.drop_last(), i);
    }
}

/// Flags that all fit, in any order, fit the flag column.
proof fn lemma_options_fit(fs: Seq<FlagView>, all: Seq<FlagView>)
    requires
        fs.to_multiset() == all.to_multiset(),
        forall|j: int| 0 <= j < all.len() ==> flag_fits(#[trigger] all[j]),
    ensures
        options_fit("  "@, fs),
{
    assert forall|i: int| 0 <= i < fs.len() implies byte_count(#[trigger] option_id("  "@, fs[i])) <= id_width(
        fs,
    ) by {
        let f = fs[i];
        vstd::seq_lib::to_multiset_contains(fs, f);
        vstd::seq_lib::to_multiset_contains(all, f);
        assert(fs.contains(f));
        assert(all.contains(f));
        let j = choose|j: int| 0 <= j < all.len() && all[j] == f;
        assert(flag_fits(all[j]));
        lemma_option_id_bytes(f);
        lemma_id_width(fs, i);
    }
}

/// A flag whose short form no flag of `c` has is new to `c`.
pub proof fn lemma_fresh_short(c: &Command, name: Seq<char>, short: char)
    requires
        forall|i: int| 0 <= i < c.flag_views().len() ==> (#[trigger] c.flag_views()[i]).0.1 != short,
    ensures
        !c.spec_flags().has_id((name, short)),
{
    if c.spec_flags().has_id((name, short)) {
        let i = choose|i: int|
            0 <= i < c.spec_flags().ids().len() && c.spec_flags().ids()[i] == (name, short);
        assert(c.flag_views()[i].0 == c.spec_flags().ids()[i]);
    }
}

/// Command specifications by command name.
pub type CommandSet = StrMap<Command>;

/// Specification of a command: its name, description, usage line and
/// flags. No two flags share an identity.
#[derive(Debug)]
pub struct Command {
    name: String,
    description: String,
    flags: FlagSet,
    usage: String,
}

impl Command {
    pub closed spec fn spec_name(&self) -> Seq<char> {
        self.name@
    }

    pub closed spec fn spec_description(&self) -> Seq<char> {
        self.description@
    }

    pub closed spec fn spec_usage(&self) -> Seq<char> {
        self.usage@
    }

    pub closed spec fn spec_flags(&self) -> FlagSet {
        self.flags
    }

    /// The views of the flags, in insertion order.
    pub open spec fn flag_views(&self) -> Seq<FlagView> {
        self.spec_flags().entries().map_values(|f: Flag| f@)
    }

    pub open spec fn wf(&self) -> bool {
        self.spec_flags().wf()
    }

    pub fn new(name: &str, description: &str, flags: FlagSet, usage: &str) -> (res: Command)
        ensures
            res.spec_name() == name@,
            res.spec_description() == description@,
            res.spec_flags() == flags,
            res.spec_usage() == usage@,
    {
        Command {
            name: name.to_owned(),
            description: description.to_owned(),
            flags,
            usage: usage.to_owned(),
        }
    }

    /// A command with a name and nothing else.
    pub fn build(name: &str) -> (res: Command)
        ensures
            res.wf(),
            res.spec_name() == name@,
            res.spec_description() == Seq::<char>::empty(),
            res.spec_flags().entries() == Seq::<Flag>::empty(),
            res.spec_usage() == Seq::<char>::empty(),
    {
        Command {
            name: name.to_owned(),
            description: String::new(),
            flags: FlagSet::new(),
            usage: String::new(),
        }
    }

    /// Add a flag; a flag with the same identity that is there already stays
    /// and the new one is dropped.
    pub fn add_flag(self, flag_name: &str, flag_short: char, arg_spec: Arg, help: &str) -> (res: Command)
        requires
            self.wf(),
        ensures
            res.wf(),
            res.spec_name() == self.spec_name(),
            res.spec_description() == self.spec_description(),
            res.spec_usage() == self.spec_usage(),
            self.spec_flags().has_id((flag_name@, flag_short)) ==> res.spec_flags().entries()
                == self.spec_flags().entries(),
            !self.spec_flags().has_id((flag_name@, flag_short)) ==> res.flag_views()
                == self.flag_views().push(((flag_name@, flag_short), arg_spec, help@)),
    {
        let mut cmd = self;
        let flag = Flag::new(flag_name, flag_short, arg_spec, help);
        let ghost before = cmd.spec_flags().entries();
        cmd.flags.insert(flag);
        proof {
            if !self.spec_flags().has_id((flag_name@, flag_short)) {
                assert(cmd.spec_flags().entries().map_values(|f: Flag| f@) =~= before.map_values(
                    |f: Flag| f@,
                ).push(((flag_name@, flag_short), arg_spec, help@)));
            }
        }
        cmd
    }

    pub fn set_description(self, description: &str) -> (res: Command)
        ensures
            res.spec_name() == self.spec_name(),
            res.spec_description() == description@,
            res.spec_usage() == self.spec_usage(),
            res.spec_flags() == self.spec_flags(),
    {
        let mut cmd = self;
        cmd.description = description.to_owned();
        cmd
    }

    pub fn set_usage(self, usage: &str) -> (res: Command)
        ensures
            res.spec_name() == self.spec_name(),
            res.spec_description() == self.spec_description(),
            res.spec_usage() == usage@,
            res.spec_flags() == self.spec_flags(),
    {
        let mut cmd = self;
        cmd.usage = usage.to_owned();
        cmd
    }

    pub fn description(&self) -> (res: &str)
        ensures
            res@ == self.spec_description(),
    {
        self.description.as_str()
    }

    pub fn flags(&self) -> (res: &FlagSet)
        ensures
            *res == self.spec_flags(),
    {
        &self.flags
    }

    pub fn name(&self) -> (res: &str)
        ensures
            res@ == self.spec_name(),
    {
        self.name.as_str()
    }

    /// The flags in natural lexical order of their names.
    pub open spec fn sorted_flags(&self) -> Seq<FlagView> {
        natural_lexical_sorted(self.flag_views())
    }

    /// The usage text of the flags: the flags in order, trimmed.
    pub open spec fn flags_usage_spec(&self) -> Seq<char> {
        trim(usage_pieces(self.sorted_flags()))
    }

    /// The help text: the usage line with the name and the flags filled in,
    /// the description, and the options list if there are flags.
    pub open spec fn help_spec(&self) -> Seq<char> {
        let usage = replace_all(
            replace_all(self.spec_usage(), "{$name}"@, self.spec_name()),
            "{$flags}"@,
            self.flags_usage_spec(),
        );
        let head = "Usage: "@ + usage + "\n\n  "@ + self.spec_description();
        if self.flag_views().len() > 0 {
            head + "\n\nOptions:\n\n"@ + option_lines(
                "  "@,
                self.sorted_flags(),
                id_width(self.sorted_flags()),
            )
        } else {
            head
        }
    }

    /// Every flag fits the flag column of the help text.
    pub open spec fn help_fits(&self) -> bool {
        &&& self.names_sortable()
        &&& forall|i: int| 0 <= i < self.flag_views().len() ==> flag_fits(#[trigger] self.flag_views()[i])
    }

    /// Every flag name can be sorted by lexical_sort's natural order.
    pub open spec fn names_sortable(&self) -> bool {
        forall|i: int| 0 <= i < self.flag_views().len() ==> sortable_name(#[trigger] self.flag_views()[i].0.0)
    }

    /// The flags, copied and sorted by name.
    fn sorted_flag_list(&self) -> (res: Vec<Flag>)
        requires
            self.names_sortable(),
        ensures
            views(res@) == self.sorted_flags(),
            self.sorted_flags().to_multiset() == self.flag_views().to_multiset(),
    {
        let items = self.flags.items();
        let mut list: Vec<Flag> = Vec::new();
        let mut i: usize = 0;
        while i < items.len()
            invariant
                i <= items@.len(),
                items@ == self.spec_flags().entries(),
                views(list@) == views(items@.take(i as int)),
            decreases items@.len() - i,
        {
            let ghost before = list@;
            let c = items[i].clone();
            assert(c@ == items@[i as int]@);
            list.push(c);
            assert(list@ =~= before.push(c));
            assert(views(list@) =~= views(before).push(c@));
            assert(items@.take(i + 1) =~= items@.take(i as int).push(items@[i as int]));
            i = i + 1;
            assert(views(list@) =~= views(items@.take(i as int)));
        }
        assert(items@.take(i as int) =~= items@);
        assert forall|k: int| 0 <= k < list@.len() implies sortable_name((#[trigger] list@[k])@.0.0) by {
            assert(views(list@)[k] == list@[k]@);
            assert(self.flag_views()[k] == items@[k]@);
        }
        assert(views(list@) =~= self.flag_views());
        sort_natural_lexical(&mut list);
        list
    }

    /// The usage text of the flags.
    fn get_flags_usage(&self) -> (res: String)
        requires
            self.names_sortable(),
        ensures
            res@ == self.flags_usage_spec(),
            self.sorted_flags().to_multiset() == self.flag_views().to_multiset(),
    {
        let flags = self.sorted_flag_list();
        let mut usage: Vec<char> = Vec::new();
        let mut i: usize = 0;
        while i < flags.len()
            invariant
                i <= flags@.len(),
                views(flags@) == self.sorted_flags(),
                usage@ == usage_pieces(views(flags@).take(i as int)),
            decreases flags@.len() - i,
        {
            let f = &flags[i];
            proof {
                reveal_strlit("-");
            }
            let arg_text = replace(f.id().name(), "-", "_");
            let ghost before = usage@;
            push_str(&mut usage, "[-");
            usage.push(f.id().short());
            match f.arg_spec() {
                Arg::NoArg => {
                    push_str(&mut usage, "] ");
                },
                Arg::Optional => {
                    push_str(&mut usage, " [");
                    push_str(&mut usage, arg_text.as_str());
                    push_str(&mut usage, "]] ");
                },
                Arg::Required => {
                    push_str(&mut usage, " ");
                    push_str(&mut usage, arg_text.as_str());
                    push_str(&mut usage, "] ");
                },
            }
            proof {
                let fv = views(flags@)[i as int];
                assert(fv == flags@[i as int]@);
                assert(views(flags@).take(i + 1).drop_last() =~= views(flags@).take(i as int));
                assert(usage@ =~= before + usage_piece(fv));
            }
            i = i + 1;
        }
        assert(views(flags@).take(i as int) =~= views(flags@));
        let trimmed = trim_chars(&usage);
        string_from_chars(&trimmed)
    }

    /// The options list of the flags, each line starting with `prefix`.
    fn get_flags_help(&self, prefix: &str) -> (res: String)
        requires
            self.names_sortable(),
            options_fit(prefix@, self.sorted_flags()),
        ensures
            res@ == option_lines(prefix@, self.sorted_flags(), id_width(self.sorted_flags())),
    {
        let flags = self.sorted_flag_list();
        let ghost fs = views(flags@);
        let mut id_width_v: u128 = 0;
        let mut i: usize = 0;
        while i < flags.len()
            invariant
                i <= flags@.len(),
                fs == views(flags@),
                id_width_v == id_width(fs.take(i as int)),
            decreases flags@.len() - i,
        {
            let width: u128 = 8 + byte_len(flags[i].id().name()) as u128;
            proof {
                assert(fs.take(i + 1).drop_last() =~= fs.take(i as int));
                assert(fs[i as int] == flags@[i as int]@);
            }
            if width > id_width_v {
                id_width_v = width;
            }
            i = i + 1;
        }
        assert(fs.take(i as int) =~= fs);
        let mut help: Vec<char> = Vec::new();
        let mut k: usize = 0;
        while k < flags.len()
            invariant
                k <= flags@.len(),
                fs == views(flags@),
                fs == self.sorted_flags(),
                id_width_v == id_width(fs),
                options_fit(prefix@, fs),
                help@ == option_lines(prefix@, fs.take(k as int), id_width(fs)),
            decreases flags@.len() - k,
        {
            let f = &flags[k];
            let ghost fv = fs[k as int];
            assert(fv == f@);
            let mut id: Vec<char> = Vec::new();
            push_str(&mut id, prefix);
            id.push('-');
            id.push(f.id().short());
            push_str(&mut id, ", --");
            push_str(&mut id, f.id().name());
            assert(id@ =~= option_id(prefix@, fv));
            let id_text = string_from_chars(&id);
            let start_len = byte_len(id_text.as_str());
            assert(byte_count(option_id(prefix@, fs[k as int])) <= id_width(fs));
            let ghost before = help@;
            let mut line = id;
            push_spaces(&mut line, id_width_v - start_len as u128);
            push_str(&mut line, "  ");
            push_str(&mut line, f.help());
            line.push('\n');
            assert(line@ =~= option_line(prefix@, fv, id_width(fs)));
            let mut j: usize = 0;
            while j < line.len()
                invariant
                    j <= line@.len(),
                    help@ == before + line@.take(j as int),
                decreases line@.len() - j,
            {
                help.push(line[j]);
                j = j + 1;
                assert(help@ =~= before + line@.take(j as int));
            }
            assert(line@.take(j as int) =~= line@);
            assert(fs.take(k + 1).drop_last() =~= fs.take(k as int));
            k = k + 1;
        }
        assert(fs.take(k as int) =~= fs);
        string_from_chars(&help)
    }

    /// The help text of the command.
    pub fn help(&self) -> (res: String)
        requires
            self.help_fits(),
        ensures
            res@ == self.help_spec(),
    {
        let flags_usage = self.get_flags_usage();
        proof {
            reveal_strlit("{$name}");
            reveal_strlit("{$flags}");
        }
        let with_name = replace(self.usage.as_str(), "{$name}", self.name.as_str());
        let usage = replace(with_name.as_str(), "{$flags}", flags_usage.as_str());
        let mut help: Vec<char> = Vec::new();
        push_str(&mut help, "Usage: ");
        push_str(&mut help, usage.as_str());
        push_str(&mut help, "\n\n  ");
        push_str(&mut help, self.description.as_str());
        if self.flags.len() > 0 {
            push_str(&mut help, "\n\nOptions:\n\n");
            proof {
                lemma_options_fit(self.sorted_flags(), self.flag_views());
            }
            let options = self.get_flags_help("  ");
            push_str(&mut help, options.as_str());
        }
        string_from_chars(&help)
    }

    pub fn usage(&self) -> (res: &str)
        ensures
            res@ == self.spec_usage(),
    {
        self.usage.as_str()
    }
}

impl AsRef<str> for Command {
    /// The command's name.
    fn as_ref(&self) -> (res: &str)
        ensures
            res@ == self.spec_name(),
    {
        self.name.as_str()
    }
}

} // verus!
