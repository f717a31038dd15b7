use vstd::pervasive::unreached;
use vstd::prelude::*;
use vstd::string::StringExecFns;

use crate::args;
use crate::args::ArgsView;
use crate::args::spec_default_args;
use crate::parse::ParseOutcome;
use crate::parse::ParseResult;
use crate::parse::Parser;
use crate::parse::lemma_outcome_special;
use crate::parse::spec_parse;
use crate::parse::standard_infos;

verus! {

/// A flag's registered name: a single short character or a long string.
#[derive(Debug)]
pub enum FlagName {
    Char(char),
    Long(String),
}

/// The mathematical value of a [`FlagName`].
pub enum FlagNameV {
    Char(char),
    Long(Seq<char>),
}

impl View for FlagName {
    type V = FlagNameV;

    open spec fn view(&self) -> FlagNameV {
        match self {
            FlagName::Char(c) => FlagNameV::Char(*c),
            FlagName::Long(s) => FlagNameV::Long(s@),
        }
    }
}

/// The kind of flag that is being matched.
#[derive(Clone, Copy, Debug)]
pub enum FlagInfoKind {
    /// A standard flag, e.g. `--pattern`.
    Standard,
    /// A negation of a standard flag, e.g. `--no-multiline`.
    _Negated,
}

/// One flag of the closed flag set, with a `match`-based function table
/// in place of runtime polymorphism: the set is known when the program
/// is built and never extended.
#[derive(Clone, Copy, Debug, PartialEq, Eq, Structural)]
pub enum Flag {
    /// `-p`/`--pattern`: the pattern to search for.
    Patterns,
    /// `-f`/`--file`: the file to search in.
    File,
}

/// Whether the flag is a pure switch; every flag of the set takes a value.
pub open spec fn spec_is_switch(f: Flag) -> bool {
    match f {
        Flag::Patterns => false,
        Flag::File => false,
    }
}

/// The optional short name of a flag.
pub open spec fn spec_name_short(f: Flag) -> Option<char> {
    match f {
        Flag::Patterns => Some('p'),
        Flag::File => Some('f'),
    }
}

/// The long name of a flag.
pub open spec fn spec_name_long(f: Flag) -> Seq<char> {
    match f {
        Flag::Patterns => "pattern"@,
        Flag::File => "file"@,
    }
}

/// The one-line documentation of a flag.
pub open spec fn spec_doc_short(f: Flag) -> Seq<char> {
    match f {
        Flag::Patterns => "Search for given patterns"@,
        Flag::File => "Search for the given file for patterns"@,
    }
}

/// How a flag's value mutates the accumulator: each write simply
/// overwrites the relevant field, so the last write wins.
pub open spec fn spec_update(f: Flag, value: Seq<char>, a: ArgsView) -> ArgsView {
    match f {
        Flag::Patterns => ArgsView { patterns: seq![value], ..a },
        Flag::File => ArgsView { file: value, ..a },
    }
}

/// How a switch occurrence mutates the accumulator; no flag of the set
/// is a switch, so nothing changes.
pub open spec fn spec_update_switch(f: Flag, a: ArgsView) -> ArgsView {
    a
}

impl Flag {
    /// Whether this flag is a switch rather than a value flag.
    pub fn is_switch(&self) -> (r: bool)
        ensures
            r == spec_is_switch(*self),
    {
        match self {
            Flag::Patterns => false,
            Flag::File => false,
        }
    }

    /// The flag's short name, where it has one.
    pub fn name_short(&self) -> (r: Option<char>)
        ensures
            r == spec_name_short(*self),
    {
        match self {
            Flag::Patterns => Some('p'),
            Flag::File => Some('f'),
        }
    }

    /// The flag's long name.
    pub fn name_long(&self) -> (r: String)
        ensures
            r@ == spec_name_long(*self),
    {
        match self {
            Flag::Patterns => String::from_str("pattern"),
            Flag::File => String::from_str("file"),
        }
    }

    /// The flag's one-line documentation.
    pub fn doc_short(&self) -> (r: String)
        ensures
            r@ == spec_doc_short(*self),
    {
        match self {
            Flag::Patterns => String::from_str("Search for given patterns"),
            Flag::File => String::from_str("Search for the given file for patterns"),
        }
    }

    /// Applies the flag's effect to the accumulator. The value form must
    /// match the flag's declaration: a switch gets `Switch`, a value flag
    /// gets `Value`.
    pub fn update(&self, value: FlagValue, args: &mut args::Args)
        requires
            (value is Value) == !spec_is_switch(*self),
        ensures
            match value {
                FlagValue::Value(v) => final(args)@ == spec_update(*self, v@, old(args)@),
                FlagValue::Switch(_) => final(args)@ == spec_update_switch(*self, old(args)@),
            },
    {
        match self {
            Flag::Patterns => {
                let patterns = value.unwrap_value();
                args.patterns = args::Patterns::from_pattern(patterns);
            },
            Flag::File => {
                let file_name = value.unwrap_value();
                args.file = args::File::new(file_name);
            },
        }
    }
}

/// The info about a flag associated with a flag's ID in the flag map.
#[derive(Debug)]
pub struct FlagInfo {
    /// The flag and its associated metadata.
    pub flag: Flag,
    /// The actual name that is registered in the lookup table; a short
    /// single-character name or the long name.
    pub name: FlagName,
    /// The type of flag that is registered for this name.
    pub _flag_kind: FlagInfoKind,
}

/// The mathematical value of a [`FlagInfo`].
pub struct FlagInfoV {
    pub flag: Flag,
    pub name: FlagNameV,
}

impl View for FlagInfo {
    type V = FlagInfoV;

    open spec fn view(&self) -> FlagInfoV {
        FlagInfoV { flag: self.flag, name: self.name@ }
    }
}

impl DeepView for FlagInfo {
    type V = FlagInfoV;

    open spec fn deep_view(&self) -> FlagInfoV {
        self.view()
    }
}

/// Represents a value parsed from the command line.
///
/// This doesn't include the corresponding flag, but values come in one
/// of two forms: a switch (on or off) or an arbitrary value.
pub enum FlagValue {
    Switch(bool),
    Value(String),
}

impl FlagValue {
    /// Return the yes or no value of this switch; callers know from the
    /// descriptor that a switch is expected.
    pub fn _unwrap_switch(self) -> (r: bool)
        requires
            self is Switch,
        ensures
            self == FlagValue::Switch(r),
    {
        match self {
            FlagValue::Switch(val) => val,
            FlagValue::Value(_) => unreached(),
        }
    }

    /// Return the user-provided value of this flag; callers know from
    /// the descriptor that a value is expected.
    pub fn unwrap_value(self) -> (r: String)
        requires
            self is Value,
        ensures
            self == FlagValue::Value(r),
    {
        match self {
            FlagValue::Value(val) => val,
            FlagValue::Switch(_) => unreached(),
        }
    }
}

/// The key under which a registered name is looked up: the one-character
/// sequence of a short name, or the long name itself.
pub open spec fn key_of(n: FlagNameV) -> Seq<char> {
    match n {
        FlagNameV::Char(c) => seq![c],
        FlagNameV::Long(s) => s,
    }
}

/// First-match lookup in a table of `(key, index)` entries.
pub open spec fn lookup(entries: Seq<(Seq<char>, usize)>, k: Seq<char>) -> Option<usize>
    decreases entries.len(),
{
    if entries.len() == 0 {
        None
    } else if entries[0].0 == k {
        Some(entries[0].1)
    } else {
        lookup(entries.subrange(1, entries.len() as int), k)
    }
}

/// The table that [`FlagMap::new`] builds: one entry per flag info,
/// keyed by its registered name and valued with its index.
pub open spec fn table_of(infos: Seq<FlagInfoV>) -> Seq<(Seq<char>, usize)> {
    Seq::new(infos.len(), |i: int| (key_of(infos[i].name), i as usize))
}

/// Whether the registered names of a descriptor set collide nowhere.
pub open spec fn unique_keys(infos: Seq<FlagInfoV>) -> bool {
    forall|i: int, j: int|
        0 <= i < j < infos.len() ==> key_of(infos[i].name) != key_of(infos[j].name)
}

/// The name-to-index lookup table of the flag registry, built once and
/// read-only afterwards.
#[derive(Debug)]
pub struct FlagMap {
    pub map: Vec<(String, usize)>,
}

impl View for FlagMap {
    type V = Seq<(Seq<char>, usize)>;

    open spec fn view(&self) -> Seq<(Seq<char>, usize)> {
        Seq::new(self.map@.len(), |i: int| (self.map@[i].0@, self.map@[i].1))
    }
}

/// The written form of a registered name, matching [`key_of`].
fn key_string(n: &FlagName) -> (r: String)
    ensures
        r@ == key_of(n@),
{
    match n {
        FlagName::Char(c) => {
            let mut s = String::new();
            s.push(*c);
            assert(s@ =~= seq![*c]);
            s
        },
        FlagName::Long(name) => name.clone(),
    }
}

impl FlagMap {
    /// Create a new map of flags for the given flag information.
    ///
    /// The index of each flag info corresponds to its ID. A collision
    /// among the registered names would be a defect in the static
    /// descriptor set, never a user-facing error, so the names are
    /// required to be unique.
    pub fn new(infos: &Vec<FlagInfo>) -> (r: FlagMap)
        requires
            unique_keys(infos.deep_view()),
        ensures
            r@ == table_of(infos.deep_view()),
    {
        let mut map: Vec<(String, usize)> = Vec::new();
        let mut i: usize = 0;
        while i < infos.len()
            invariant
                i <= infos.len(),
                map@.len() == i,
                forall|j: int|
                    0 <= j < i ==> (#[trigger] map@[j]).0@ == key_of(infos.deep_view()[j].name)
                        && map@[j].1 == j,
            decreases infos.len() - i,
        {
            let key = key_string(&infos[i].name);
            map.push((key, i));
            i += 1;
        }
        let r = FlagMap { map };
        assert(r@ =~= table_of(infos.deep_view()));
        r
    }

    /// Look for a match of `name` among the registered names.
    ///
    /// This only returns a match for an exact, whole-name hit: a query
    /// never matches a proper prefix or suffix of a registered name.
    pub fn find(&self, name: &String) -> (r: Option<usize>)
        ensures
            r == lookup(self@, name@),
    {
        let n = self.map.len();
        proof {
            assert(self@.subrange(0, self@.len() as int) =~= self@);
        }
        let mut i: usize = 0;
        while i < n
            invariant
                n == self.map.len(),
                i <= n,
                forall|j: int| 0 <= j < i ==> (#[trigger] self@[j]).0 != name@,
                lookup(self@, name@) == lookup(self@.subrange(i as int, self@.len() as int), name@),
            decreases n - i,
        {
            if self.map[i].0.eq(name) {
                proof {
                    assert(self@.subrange(i as int, self@.len() as int)[0] == self@[i as int]);
                }
                return Some(self.map[i].1);
            }
            proof {
                let tail = self@.subrange(i as int, self@.len() as int);
                assert(tail[0] == self@[i as int]);
                assert(tail.subrange(1, tail.len() as int)
                    =~= self@.subrange(i + 1 as int, self@.len() as int));
            }
            i += 1;
        }
        proof {
            assert(self@.subrange(i as int, self@.len() as int).len() == 0);
        }
        None
    }
}

/// The result of looking up a flag name: a match carries the index of
/// the flag info it resolved to.
#[derive(Debug)]
pub enum FlagLookUp {
    /// Lookup found a match at the attached index.
    Match(usize),
    /// The given short name is unrecognized.
    UnrecognizedShort(char),
    /// The given long name is unrecognized.
    UnrecognizedLong(String),
}

/// In a table built by [`table_of`], a successful lookup yields the
/// index of the one entry whose key was queried, and a failed lookup
/// means no entry carries the queried key.
pub proof fn lemma_lookup_props(entries: Seq<(Seq<char>, usize)>, k: Seq<char>)
    ensures
        match lookup(entries, k) {
            Some(v) => exists|j: int|
                0 <= j < entries.len() && (#[trigger] entries[j]).0 == k && entries[j].1 == v,
            None => forall|j: int| 0 <= j < entries.len() ==> (#[trigger] entries[j]).0 != k,
        },
    decreases entries.len(),
{
    if entries.len() == 0 {
    } else if entries[0].0 == k {
        assert(entries[0].0 == k && entries[0].1 == lookup(entries, k)->Some_0);
    } else {
        let tail = entries.subrange(1, entries.len() as int);
        lemma_lookup_props(tail, k);
        match lookup(entries, k) {
            Some(v) => {
                let j = choose|j: int|
                    0 <= j < tail.len() && (#[trigger] tail[j]).0 == k && tail[j].1 == v;
                assert(entries[j + 1].0 == k && entries[j + 1].1 == v);
            },
            None => {
                assert forall|j: int| 0 <= j < entries.len() implies (#[trigger] entries[j]).0
                    != k by {
                    if j > 0 {
                        assert(tail[j - 1] == entries[j]);
                    }
                }
            },
        }
    }
}

/// Looking up the registered name of descriptor `j` in the table built
/// from a collision-free descriptor set returns exactly `j`.
pub proof fn lemma_find_registered(infos: Seq<FlagInfoV>, j: int)
    requires
        unique_keys(infos),
        0 <= j < infos.len(),
    ensures
        lookup(table_of(infos), key_of(infos[j].name)) == Some(j as usize),
{
    let entries = table_of(infos);
    let k = key_of(infos[j].name);
    lemma_lookup_props(entries, k);
    match lookup(entries, k) {
        Some(v) => {
            let j2 = choose|j2: int|
                0 <= j2 < entries.len() && (#[trigger] entries[j2]).0 == k && entries[j2].1 == v;
            if j2 != j {
                assert(key_of(infos[j2].name) == key_of(infos[j].name));
                assert(false);
            }
        },
        None => {
            assert(entries[j].0 == k);
            assert(false);
        },
    }
}

/// Looking up a byte-for-byte different name — including any proper
/// prefix or suffix of a registered name — returns no match.
pub proof fn lemma_find_unregistered(infos: Seq<FlagInfoV>, k: Seq<char>)
    requires
        forall|j: int| 0 <= j < infos.len() ==> key_of((#[trigger] infos[j]).name) != k,
    ensures
        lookup(table_of(infos), k) is None,
{
    let entries = table_of(infos);
    lemma_lookup_props(entries, k);
    match lookup(entries, k) {
        Some(v) => {
            let j = choose|j: int|
                0 <= j < entries.len() && (#[trigger] entries[j]).0 == k && entries[j].1 == v;
            assert(key_of(infos[j].name) == k);
            assert(false);
        },
        None => {},
    }
}


/// Parses the given raw argument tokens with the standard flag
/// registry, starting from the empty accumulator: a latched special
/// mode wins over everything else, a usage error is reported as it
/// stopped the run, and otherwise the populated accumulator is handed
/// on to resolution.
pub fn parse(rawargs: Vec<String>) -> (r: ParseResult<args::Args>)
    ensures
        match spec_parse(standard_infos(), rawargs.deep_view(), 0, spec_default_args()) {
            ParseOutcome::Finished(av) => r matches ParseResult::Parsed(a) && a@ == av,
            ParseOutcome::Special(m, av) => r matches ParseResult::Special(mm) && mm == m,
            ParseOutcome::Failed(e, av) => r matches ParseResult::Failed(err) && err@ == e,
        },
{
    let parser = Parser::new();
    let mut parsed = args::Args::default();
    let res = parser.parse(&rawargs, &mut parsed);
    proof {
        lemma_outcome_special(standard_infos(), rawargs.deep_view(), 0, spec_default_args());
    }
    match res {
        Err(err) => ParseResult::Failed(err),
        Ok(_) => match parsed.special {
            Some(m) => ParseResult::Special(m),
            None => ParseResult::Parsed(parsed),
        },
    }
}

} // verus!
