use vstd::prelude::*;

use crate::error::Error;
use crate::error::ErrorV;

verus! {

/// What the tool has been asked to do; searching is the only mode.
#[derive(Clone, Copy, Debug)]
pub enum Mode {
    Search(Searchmode),
}

/// The flavour of search; only the standard line scan exists.
#[derive(Clone, Copy, Debug)]
pub enum Searchmode {
    Standard,
}

/// A "special" mode that supersedes everything else: help and version
/// output, in a short and a long form each.
#[derive(Clone, Copy, Debug, PartialEq, Eq, Structural)]
pub enum SpecialMode {
    /// Condensed "help" output, from the `-h` flag.
    HelpShort,
    /// Verbose "help" output, from the `--help` flag.
    HelpLong,
    /// Condensed version information, e.g. `minigrep x.y.z`.
    VersionShort,
    /// Verbose version information, with a contact line added.
    VersionLong,
}

/// The patterns supplied through a value flag.
#[derive(Debug)]
pub struct Patterns {
    pub patterns: Vec<String>,
}

/// The file name supplied through a value flag.
#[derive(Clone, Debug)]
pub struct File {
    pub name: String,
}

/// The argument accumulator: the mutable structure that flag descriptors
/// write into while parsing proceeds, consumed by resolution afterwards.
#[derive(Debug)]
pub struct Args {
    pub special: Option<SpecialMode>,
    pub mode: Mode,
    pub positional: Vec<String>,
    pub pattern: String,
    pub file: File,
    pub patterns: Patterns,
}

/// The mathematical value of an [`Args`] accumulator: every string is a
/// sequence of characters.
pub struct ArgsView {
    pub special: Option<SpecialMode>,
    pub mode: Mode,
    pub positional: Seq<Seq<char>>,
    pub pattern: Seq<char>,
    pub file: Seq<char>,
    pub patterns: Seq<Seq<char>>,
}

impl View for Args {
    type V = ArgsView;

    open spec fn view(&self) -> ArgsView {
        ArgsView {
            special: self.special,
            mode: self.mode,
            positional: self.positional.deep_view(),
            pattern: self.pattern@,
            file: self.file.name@,
            patterns: self.patterns.patterns.deep_view(),
        }
    }
}

/// The accumulator an invocation starts from: nothing latched, nothing
/// collected, standard search mode.
pub open spec fn spec_default_args() -> ArgsView {
    ArgsView {
        special: None,
        mode: Mode::Search(Searchmode::Standard),
        positional: Seq::empty(),
        pattern: Seq::empty(),
        file: Seq::empty(),
        patterns: Seq::empty(),
    }
}

/// Whether some non-zero number of matches is believed possible: false
/// exactly when positionals, explicit pattern and explicit pattern list
/// are all empty.
pub open spec fn spec_matches_possible(a: ArgsView) -> bool {
    !(a.positional.len() == 0 && a.pattern.len() == 0 && a.patterns.len() == 0)
}

/// Pattern resolution: the explicit pattern list wins, then the single
/// explicit pattern, then the last positional token is popped; `None`
/// when all three sources are empty.
pub open spec fn spec_get_patterns(a: ArgsView) -> Option<(Seq<Seq<char>>, ArgsView)> {
    if a.patterns.len() > 0 {
        Some((a.patterns, a))
    } else if a.pattern.len() > 0 {
        Some((seq![a.pattern], a))
    } else if a.positional.len() > 0 {
        Some((seq![a.positional.last()], ArgsView { positional: a.positional.drop_last(), ..a }))
    } else {
        None
    }
}

/// File resolution: the explicit file wins, else the last positional
/// token is popped; `None` when both sources are empty.
pub open spec fn spec_get_file(a: ArgsView) -> Option<(Seq<char>, ArgsView)> {
    if a.file.len() > 0 {
        Some((a.file, a))
    } else if a.positional.len() > 0 {
        Some((a.positional.last(), ArgsView { positional: a.positional.drop_last(), ..a }))
    } else {
        None
    }
}

impl Args {
    /// Returns true if some non-zero number of matches is believed to be
    /// possible.
    pub fn matches_possible(&self) -> (r: bool)
        ensures
            r == spec_matches_possible(self@),
    {
        if self.positional.len() == 0 && self.pattern.as_str().is_empty()
            && self.patterns.patterns.len() == 0 {
            return false;
        }
        true
    }

    /// Returns the patterns that are to be searched for, with the
    /// fallback order of [`spec_get_patterns`].
    pub fn get_patterns(&mut self) -> (r: Result<Vec<String>, Error>)
        ensures
            match spec_get_patterns(old(self)@) {
                Some((pats, av)) => {
                    &&& r matches Ok(v) && v.deep_view() == pats
                    &&& final(self)@ == av
                },
                None => {
                    &&& r matches Err(e) && e@ == ErrorV::MissingPattern
                    &&& final(self)@ == old(self)@
                },
            },
    {
        if self.patterns.patterns.len() > 0 {
            return Ok(clone_string_vec(&self.patterns.patterns));
        }
        if self.pattern.as_str().unicode_len() > 0 {
            let mut v: Vec<String> = Vec::new();
            v.push(self.pattern.clone());
            assert(v.deep_view() =~~= seq![self.pattern@]);
            return Ok(v);
        }
        match self.positional.pop() {
            Some(last) => {
                let mut v: Vec<String> = Vec::new();
                v.push(last);
                assert(v.deep_view() =~~= seq![old(self)@.positional.last()]);
                assert(self@.positional =~~= old(self)@.positional.drop_last());
                Ok(v)
            },
            None => Err(Error::MissingPattern),
        }
    }

    /// Returns the file that is to be searched, with the fallback order
    /// of [`spec_get_file`].
    pub fn get_file(&mut self) -> (r: Result<String, Error>)
        ensures
            match spec_get_file(old(self)@) {
                Some((file, av)) => {
                    &&& r matches Ok(f) && f@ == file
                    &&& final(self)@ == av
                },
                None => {
                    &&& r matches Err(e) && e@ == ErrorV::MissingFile
                    &&& final(self)@ == old(self)@
                },
            },
    {
        if self.file.name.as_str().unicode_len() > 0 {
            return Ok(self.file.name.clone());
        }
        match self.positional.pop() {
            Some(last) => {
                assert(self@.positional =~~= old(self)@.positional.drop_last());
                Ok(last)
            },
            None => Err(Error::MissingFile),
        }
    }

    /// Turns the accumulated arguments into the concrete file and pattern
    /// list that the search executor receives: the file is resolved
    /// first, then the patterns, both popping from the same positional
    /// sequence, so two bare tokens must come in `PATTERN FILE` order.
    pub fn resolve(&mut self) -> (r: Result<(String, Vec<String>), Error>)
        ensures
            match spec_get_file(old(self)@) {
                Some((file, av1)) => match spec_get_patterns(av1) {
                    Some((pats, av2)) => {
                        &&& r matches Ok(fp) && fp.0@ == file && fp.1.deep_view() == pats
                        &&& final(self)@ == av2
                    },
                    None => {
                        &&& r matches Err(e) && e@ == ErrorV::MissingPattern
                        &&& final(self)@ == av1
                    },
                },
                None => {
                    &&& r matches Err(e) && e@ == ErrorV::MissingFile
                    &&& final(self)@ == old(self)@
                },
            },
    {
        let file = match self.get_file() {
            Ok(f) => f,
            Err(e) => {
                return Err(e);
            },
        };
        let patterns = match self.get_patterns() {
            Ok(p) => p,
            Err(e) => {
                return Err(e);
            },
        };
        Ok((file, patterns))
    }
}

/// An element-wise copy of a vector of strings whose view is unchanged.
fn clone_string_vec(v: &Vec<String>) -> (r: Vec<String>)
    ensures
        r.deep_view() == v.deep_view(),
{
    let mut r: Vec<String> = Vec::new();
    let mut i: usize = 0;
    while i < v.len()
        invariant
            i <= v.len(),
            r@.len() == i,
            forall|j: int| 0 <= j < i ==> (#[trigger] r@[j])@ == v@[j]@,
        decreases v.len() - i,
    {
        r.push(v[i].clone());
        i += 1;
    }
    assert(r.deep_view() =~~= v.deep_view());
    r
}

impl Default for Args {
    /// The empty accumulator created at the start of parsing.
    fn default() -> (r: Self)
        ensures
            r@ == spec_default_args(),
    {
        let r = Args {
            special: None,
            mode: Mode::Search(Searchmode::Standard),
            positional: Vec::new(),
            pattern: String::new(),
            patterns: Patterns::new(),
            file: File::new(String::new()),
        };
        assert(r@.positional =~= spec_default_args().positional);
        assert(r@.patterns =~= spec_default_args().patterns);
        r
    }
}

impl Patterns {
    /// An empty pattern list.
    pub fn new() -> (r: Patterns)
        ensures
            r.patterns.deep_view() == Seq::<Seq<char>>::empty(),
    {
        let r = Patterns { patterns: Vec::new() };
        assert(r.patterns.deep_view() =~= Seq::<Seq<char>>::empty());
        r
    }

    /// Whether no pattern has been supplied.
    pub fn is_empty(&self) -> (r: bool)
        ensures
            r == (self.patterns.deep_view().len() == 0),
    {
        self.patterns.len() == 0
    }
}

impl Patterns {
    /// The one-element pattern list holding the given pattern.
    pub fn from_pattern(value: String) -> (r: Patterns)
        ensures
            r.patterns.deep_view() == seq![value@],
    {
        let mut v: Vec<String> = Vec::new();
        let ghost value_view = value@;
        v.push(value);
        assert(v.deep_view() =~= seq![value_view]);
        Patterns { patterns: v }
    }
}

impl File {
    /// A file record holding the given name.
    pub fn new(name: String) -> (r: File)
        ensures
            r.name == name,
    {
        File { name }
    }
}

} // verus!
