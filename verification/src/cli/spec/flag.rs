use vstd::prelude::*;

use crate::cli::spec::arg::Arg;
use crate::text::{chars_of, string_from_chars};
use vstd::string::StringSliceAdditionalSpecFns;

pub mod error;
pub mod id;
pub mod query;

pub use id::Id;
pub use query::{query_flag_spec, Query, QueryView};

verus! {

broadcast use vstd::seq_lib::group_seq_properties;

/// Specification of a command line flag: its identity, its help text and
/// whether it takes an argument.
#[derive(Debug)]
pub struct Flag {
    id: Id,
    help: String,
    arg: Arg,
}

/// Identity, argument specification and help text of a flag.
pub type FlagView = ((Seq<char>, char), Arg, Seq<char>);

impl View for Flag {
    type V = FlagView;

    closed spec fn view(&self) -> FlagView {
        (self.id@, self.arg, self.help@)
    }
}

impl Flag {
    pub fn new(name: &str, short: char, arg: Arg, help: &str) -> (res: Flag)
        ensures
            res@ == ((name@, short), arg, help@),
    {
        let id = Id::new(name, short);
        Flag { id, arg, help: help.to_owned() }
    }

    pub fn id(&self) -> (res: &Id)
        ensures
            res@ == self@.0,
    {
        &self.id
    }

    pub fn arg_spec(&self) -> (res: &Arg)
        ensures
            *res == self@.1,
    {
        &self.arg
    }

    pub fn help(&self) -> (res: &str)
        ensures
            res@ == self@.2,
    {
        self.help.as_str()
    }
}

impl Clone for Flag {
    fn clone(&self) -> (res: Self)
        ensures
            res@ == self@,
    {
        Flag { id: self.id.clone(), help: self.help.clone(), arg: self.arg }
    }
}

/// Flags are equal when their ids are.
impl PartialEq for Flag {
    fn eq(&self, other: &Self) -> (res: bool) {
        self.id == other.id
    }
}

impl vstd::std_specs::cmp::PartialEqSpecImpl for Flag {
    open spec fn obeys_eq_spec() -> bool {
        true
    }

    open spec fn eq_spec(&self, other: &Flag) -> bool {
        self@.0 == other@.0
    }
}

/// A flag reads as its name.
impl AsRef<str> for Flag {
    fn as_ref(&self) -> (res: &str)
        ensures
            res@ == self@.0.0,
    {
        self.id.name()
    }
}

/// A value that carries a flag identity.
pub trait Identified {
    spec fn spec_id(&self) -> (Seq<char>, char);

    fn id_of(&self) -> (res: &Id)
        ensures
            res@ == self.spec_id(),
    ;
}

impl Identified for Flag {
    open spec fn spec_id(&self) -> (Seq<char>, char) {
        self@.0
    }

    fn id_of(&self) -> (res: &Id) {
        &self.id
    }
}

/// Whether the query designates a flag with identity `id`.
pub open spec fn query_view_matches(needle: QueryView, id: (Seq<char>, char)) -> bool {
    match needle {
        QueryView::Name(s) => s == id.0,
        QueryView::Short(c) => c == id.1,
    }
}

/// The position of the first identity at or after `i` that `q`
/// designates.
pub open spec fn first_index_from(ids: Seq<(Seq<char>, char)>, q: QueryView, i: int) -> Option<int>
    decreases ids.len() - i,
{
    if i < 0 || i >= ids.len() {
        None
    } else if query_view_matches(q, ids[i]) {
        Some(i)
    } else {
        first_index_from(ids, q, i + 1)
    }
}

/// `res` is what looking up `needle` in `set` gives: the first member that
/// it designates, or `None` if it designates none.
pub open spec fn lookup_result<T: Identified>(set: &IdSet<T>, needle: QueryView, res: Option<&T>) -> bool {
    match res {
        Some(e) => first_index_from(set.ids(), needle, 0) matches Some(i) && 0 <= i < set.entries().len()
            && set.entries()[i] == *e,
        None => first_index_from(set.ids(), needle, 0) is None,
    }
}

/// A set of flags in which no identity occurs twice.
#[derive(Debug)]
pub struct IdSet<T> {
    items: Vec<T>,
}

/// The flags of a command specification.
pub type FlagSet = IdSet<Flag>;

impl<T: Identified> IdSet<T> {
    /// The members, in insertion order.
    pub closed spec fn entries(&self) -> Seq<T> {
        self.items@
    }

    /// The identities of the members, in insertion order.
    pub open spec fn ids(&self) -> Seq<(Seq<char>, char)> {
        self.entries().map_values(|e: T| e.spec_id())
    }

    /// Whether a member has identity `id`.
    pub open spec fn has_id(&self, id: (Seq<char>, char)) -> bool {
        self.ids().contains(id)
    }

    /// Well-formedness: no identity occurs twice.
    pub open spec fn wf(&self) -> bool {
        self.ids().no_duplicates()
    }

    pub fn new() -> (res: Self)
        ensures
            res.wf(),
            res.entries() == Seq::<T>::empty(),
    {
        let res = IdSet { items: Vec::new() };
        assert(res.ids() =~= Seq::empty());
        res
    }

    pub fn len(&self) -> (res: usize)
        ensures
            res == self.entries().len(),
    {
        self.items.len()
    }

    /// The members, in insertion order.
    pub fn items(&self) -> (res: &Vec<T>)
        ensures
            res@ == self.entries(),
    {
        &self.items
    }

    /// Position of the member with identity `id`, if any.
    fn position(&self, id: &Id) -> (res: Option<usize>)
        requires
            self.wf(),
        ensures
            match res {
                Some(i) => i < self.entries().len() && self.ids()[i as int] == id@,
                None => !self.has_id(id@),
            },
    {
        let mut i: usize = 0;
        while i < self.items.len()
            invariant
                i <= self.items@.len(),
                forall|j: int| 0 <= j < i ==> self.ids()[j] != id@,
            decreases self.items@.len() - i,
        {
            if *self.items[i].id_of() == *id {
                return Some(i);
            }
            i = i + 1;
        }
        None
    }

    /// Whether a member has the identity of `id`.
    pub fn contains_id(&self, id: &Id) -> (res: bool)
        requires
            self.wf(),
        ensures
            res == self.has_id(id@),
    {
        self.position(id).is_some()
    }

    /// Add `item` unless a member with its identity is there already, in
    /// which case the set is unchanged; returns whether it was added.
    pub fn insert(&mut self, item: T) -> (res: bool)
        requires
            old(self).wf(),
        ensures
            final(self).wf(),
            res == !old(self).has_id(item.spec_id()),
            res ==> final(self).entries() == old(self).entries().push(item),
            !res ==> final(self).entries() == old(self).entries(),
    {
        let found = self.position(item.id_of());
        match found {
            Some(_) => false,
            None => {
                let ghost old_ids = self.ids();
                self.items.push(item);
                assert(self.ids() =~= old_ids.push(item.spec_id()));
                true
            },
        }
    }

    /// Add `item`, taking the place of the member with the same identity if
    /// there is one; returns that member.
    pub fn replace(&mut self, item: T) -> (res: Option<T>)
        requires
            old(self).wf(),
        ensures
            final(self).wf(),
            match res {
                Some(prev) => exists|i: int|
                    0 <= i < old(self).entries().len() && #[trigger] old(self).entries()[i] == prev
                        && old(self).ids()[i] == item.spec_id() && final(self).entries()
                        == old(self).entries().update(i, item),
                None => !old(self).has_id(item.spec_id()) && final(self).entries() == old(
                    self,
                ).entries().push(item),
            },
    {
        let found = self.position(item.id_of());
        let ghost old_ids = self.ids();
        let ghost old_entries = self.entries();
        match found {
            Some(i) => {
                let ghost id = item.spec_id();
                let mut slot = item;
                let prev = {
                    let r = &mut self.items;
                    std::mem::swap(&mut r[i], &mut slot);
                    slot
                };
                assert(self.entries() =~= old_entries.update(i as int, item));
                assert(self.ids() =~= old_ids.update(i as int, id));
                assert forall|a: int, b: int|
                    0 <= a < self.ids().len() && 0 <= b < self.ids().len() && a != b implies
                    self.ids()[a] != self.ids()[b] by {
                    if a != i && b != i {
                        assert(old_ids[a] != old_ids[b]);
                    } else if a == i {
                        assert(old_ids[i as int] != old_ids[b]);
                    } else {
                        assert(old_ids[a] != old_ids[i as int]);
                    }
                }
                Some(prev)
            },
            None => {
                self.items.push(item);
                assert(self.ids() =~= old_ids.push(item.spec_id()));
                None
            },
        }
    }

    /// The first member that `needle` designates.
    pub fn find(&self, needle: &Query) -> (res: Option<&T>)
        ensures
            lookup_result(self, needle@, res),
    {
        let mut i: usize = 0;
        while i < self.items.len()
            invariant
                i <= self.items@.len(),
                first_index_from(self.ids(), needle@, 0) == first_index_from(self.ids(), needle@, i as int),
            decreases self.items@.len() - i,
        {
            let id = self.items[i].id_of();
            let hit = match needle {
                Query::Name(s) => crate::text::str_eq(s.as_str(), id.name()),
                Query::Short(c) => *c == id.short(),
            };
            if hit {
                assert(self.entries()[i as int] == self.items@[i as int]);
                assert(query_view_matches(needle@, self.ids()[i as int]));
                assert(first_index_from(self.ids(), needle@, i as int) == Some(i as int));
                return Some(&self.items[i]);
            }
            i = i + 1;
        }
        None
    }
}

/// Whether the text starts with `-`.
pub open spec fn starts_with_dash(t: Seq<char>) -> bool {
    t.len() >= 1 && t[0] == '-'
}

/// Whether the text starts with `--`.
pub open spec fn starts_with_two_dashes(t: Seq<char>) -> bool {
    t.len() >= 2 && t[0] == '-' && t[1] == '-'
}

/// The length in bytes of the UTF-8 encoding of `t`, as `str::len` gives it.
pub open spec fn byte_count(t: Seq<char>) -> usize {
    #[verifier::truncate]
    (vstd::utf8::encode_utf8(t).len() as usize)
}

/// A long flag: `--` and more than three bytes in all.
pub open spec fn is_long_text(t: Seq<char>) -> bool {
    starts_with_two_dashes(t) && byte_count(t) > 3
}

/// A short flag: `-` and more than one byte in all.
pub open spec fn is_short_text(t: Seq<char>) -> bool {
    starts_with_dash(t) && byte_count(t) > 1
}

/// A flag, long or short.
pub open spec fn is_flag_text(t: Seq<char>) -> bool {
    is_long_text(t) || is_short_text(t)
}

/// The query that a flag text makes: by the name after `--` for a long flag,
/// by the second character for a short one.
pub open spec fn extract_spec(t: Seq<char>) -> Option<QueryView> {
    if is_long_text(t) {
        Some(QueryView::Name(t.skip(2)))
    } else if is_short_text(t) {
        Some(QueryView::Short(t[1]))
    } else {
        None
    }
}

/// A text gives a query exactly when it is a flag.
pub proof fn lemma_extract_iff_flag(t: Seq<char>)
    ensures
        extract_spec(t) is Some <==> is_flag_text(t),
{
}

/// The UTF-8 encoding of a text that starts with `-` is that byte followed by
/// the encoding of the rest.
proof fn lemma_dash_prefix_bytes(t: Seq<char>)
    requires
        starts_with_dash(t),
    ensures
        vstd::utf8::encode_utf8(t).len() == 1 + vstd::utf8::encode_utf8(t.drop_first()).len(),
        #[verifier::truncate] (vstd::utf8::encode_utf8(t).len() as usize) > 1 ==> t.len() >= 2,
{
    assert(vstd::utf8::has_width_1_encoding(t[0] as u32));
    if t.len() == 1 {
        assert(t.drop_first() =~= Seq::<char>::empty());
        assert(vstd::utf8::encode_utf8(t.drop_first()).len() == 0);
        assert(vstd::utf8::encode_utf8(t).len() == 1);
    }
}

/// Whether `text` starts with `-`, and with `--`.
fn dash_prefix(text: &str) -> (res: (bool, bool))
    ensures
        res.0 == starts_with_dash(text@),
        res.1 == starts_with_two_dashes(text@),
{
    let chars = chars_of(text);
    let one = chars.len() >= 1 && chars[0] == '-';
    let two = chars.len() >= 2 && chars[0] == '-' && chars[1] == '-';
    (one, two)
}

/// The byte length of a text, as the standard library computes it.
fn byte_len(text: &str) -> (res: usize)
    ensures
        res == byte_count(text@),
{
    text.len()
}

/// Check if a string is a long flag.
pub fn is_long(flag_text: &str) -> (res: bool)
    ensures
        res == is_long_text(flag_text@),
{
    let (_, two) = dash_prefix(flag_text);
    two && byte_len(flag_text) > 3
}

/// Check if a string is a short flag.
pub fn is_short(flag_text: &str) -> (res: bool)
    ensures
        res == is_short_text(flag_text@),
{
    let (one, _) = dash_prefix(flag_text);
    one && byte_len(flag_text) > 1
}

/// Check if a string is a flag.
pub fn is_flag(flag_text: &str) -> (res: bool)
    ensures
        res == is_flag_text(flag_text@),
{
    is_long(flag_text) || is_short(flag_text)
}

/// Convert a flag text to a flag query: a long flag names the flag by what
/// follows `--`, a short one by its second character; `None` if the text is
/// not a flag.
pub fn extract(flag_text: &str) -> (res: Option<Query>)
    ensures
        match res {
            Some(q) => extract_spec(flag_text@) == Some(q@),
            None => extract_spec(flag_text@) is None,
        },
{
    if is_long(flag_text) {
        let chars = chars_of(flag_text);
        let mut rest: Vec<char> = Vec::new();
        let mut i: usize = 2;
        while i < chars.len()
            invariant
                2 <= i <= chars@.len(),
                chars@ == flag_text@,
                rest@ == chars@.subrange(2, i as int),
            decreases chars@.len() - i,
        {
            rest.push(chars[i]);
            i = i + 1;
        }
        assert(rest@ =~= flag_text@.skip(2));
        Some(Query::Name(string_from_chars(&rest)))
    } else if is_short(flag_text) {
        proof {
            lemma_dash_prefix_bytes(flag_text@);
        }
        let chars = chars_of(flag_text);
        Some(Query::Short(chars[1]))
    } else {
        None
    }
}

/// Find the flag that `needle` designates.
pub fn query<'a>(needle: &Query, haystack: &'a FlagSet) -> (res: Option<&'a Flag>)
    ensures
        lookup_result(haystack, needle@, res),
{
    haystack.find(needle)
}

} // verus!
