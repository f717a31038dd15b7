use vstd::pervasive::unreached;
use vstd::prelude::*;
use vstd::string::StrSliceExecFns;
use vstd::string::StringExecFns;

use crate::args;
use crate::args::ArgsView;
use crate::args::SpecialMode;
use crate::args::spec_default_args;
use crate::args::spec_get_file;
use crate::args::spec_get_patterns;
use crate::error::Error;
use crate::error::ErrorV;
use crate::flags::Flag;
use crate::flags::FlagInfo;
use crate::flags::FlagInfoKind;
use crate::flags::FlagInfoV;
use crate::flags::FlagLookUp;
use crate::flags::FlagMap;
use crate::flags::FlagName;
use crate::flags::FlagNameV;
use crate::flags::FlagValue;
use crate::flags::key_of;
use crate::flags::lemma_lookup_props;
use crate::flags::lookup;
use crate::flags::spec_is_switch;
use crate::flags::spec_update;
use crate::flags::spec_update_switch;
use crate::flags::table_of;
use crate::flags::unique_keys;

verus! {

/// The overall result of parsing an argument list: a latched special
/// mode, a populated accumulator, or a usage error.
#[derive(Debug)]
pub enum ParseResult<T> {
    Special(SpecialMode),
    Parsed(T),
    Failed(Error),
}

/// What one whole run of the token-stream machine produces: the final
/// accumulator together with how the run ended.
pub enum ParseOutcome {
    /// The stream was exhausted without error and without a special mode.
    Finished(ArgsView),
    /// A special flag short-circuited the run.
    Special(SpecialMode, ArgsView),
    /// A usage error stopped the run; the accumulator keeps exactly the
    /// effects of the tokens before the failing one.
    Failed(ErrorV, ArgsView),
}

/// The special, hard-coded flags that bypass registry lookup entirely:
/// they are parser-level short-circuits with no registry entry.
pub open spec fn special_of(t: Seq<char>) -> Option<SpecialMode> {
    if t == "-h"@ {
        Some(SpecialMode::HelpShort)
    } else if t == "-v"@ {
        Some(SpecialMode::VersionShort)
    } else if t == "--help"@ {
        Some(SpecialMode::HelpLong)
    } else if t == "--version"@ {
        Some(SpecialMode::VersionLong)
    } else {
        None
    }
}

/// The token `--`, after which every remaining token is positional.
pub open spec fn is_separator(t: Seq<char>) -> bool {
    t.len() == 2 && t[0] == '-' && t[1] == '-'
}

impl ArgsView {
    /// The accumulator with the given special mode latched.
    pub open spec fn with_special(self, m: SpecialMode) -> ArgsView {
        ArgsView { special: Some(m), ..self }
    }

    /// The accumulator with one more positional token.
    pub open spec fn push_positional(self, t: Seq<char>) -> ArgsView {
        ArgsView { positional: self.positional.push(t), ..self }
    }

    /// The accumulator with a run of positional tokens appended.
    pub open spec fn append_positionals(self, ts: Seq<Seq<char>>) -> ArgsView {
        ArgsView { positional: self.positional + ts, ..self }
    }
}

/// The token-stream machine, one step per token, from token `i` on.
///
/// Each token is classified in this order: the four special flags first
/// (they short-circuit and never consult the registry), then bare value
/// tokens, the `--` separator, long flags and short flags. A matched
/// value flag takes its value from the rest of its own token (short
/// flags only) or from the next token of the stream; a failed lookup or
/// a missing value stops the run with the accumulator unchanged by the
/// failing token.
pub open spec fn spec_parse(
    infos: Seq<FlagInfoV>,
    toks: Seq<Seq<char>>,
    i: int,
    a: ArgsView,
) -> ParseOutcome
    decreases toks.len() - i,
{
    if i >= toks.len() {
        ParseOutcome::Finished(a)
    } else {
        let t = toks[i];
        match special_of(t) {
            Some(m) => ParseOutcome::Special(m, a.with_special(m)),
            None => {
                if !(t.len() >= 2 && t[0] == '-') {
                    spec_parse(infos, toks, i + 1, a.push_positional(t))
                } else if t[1] == '-' {
                    if t.len() == 2 {
                        ParseOutcome::Finished(
                            a.append_positionals(toks.subrange(i + 1, toks.len() as int)),
                        )
                    } else {
                        let name = t.subrange(2, t.len() as int);
                        match lookup(table_of(infos), name) {
                            None => ParseOutcome::Failed(ErrorV::UnrecognizedLong(name), a),
                            Some(idx) => {
                                let f = infos[idx as int].flag;
                                let fname = infos[idx as int].name;
                                if spec_is_switch(f) {
                                    spec_parse(infos, toks, i + 1, spec_update_switch(f, a))
                                } else if i + 1 < toks.len() {
                                    spec_parse(infos, toks, i + 2, spec_update(f, toks[i + 1], a))
                                } else {
                                    ParseOutcome::Failed(ErrorV::MissingValue(fname), a)
                                }
                            },
                        }
                    }
                } else {
                    let ch = t[1];
                    match lookup(table_of(infos), seq![ch]) {
                        None => ParseOutcome::Failed(ErrorV::UnrecognizedShort(ch), a),
                        Some(idx) => {
                            let f = infos[idx as int].flag;
                            let fname = infos[idx as int].name;
                            if spec_is_switch(f) {
                                if t.len() > 2 {
                                    ParseOutcome::Failed(ErrorV::UnexpectedValue(fname), a)
                                } else {
                                    spec_parse(infos, toks, i + 1, spec_update_switch(f, a))
                                }
                            } else if t.len() > 2 {
                                spec_parse(
                                    infos,
                                    toks,
                                    i + 1,
                                    spec_update(f, t.subrange(2, t.len() as int), a),
                                )
                            } else if i + 1 < toks.len() {
                                spec_parse(infos, toks, i + 2, spec_update(f, toks[i + 1], a))
                            } else {
                                ParseOutcome::Failed(ErrorV::MissingValue(fname), a)
                            }
                        },
                    }
                }
            },
        }
    }
}

/// The registry entries of the closed flag set, in registration order:
/// for every flag its long name, then its short name where present.
pub open spec fn standard_infos() -> Seq<FlagInfoV> {
    seq![
        FlagInfoV { flag: Flag::Patterns, name: FlagNameV::Long("pattern"@) },
        FlagInfoV { flag: Flag::Patterns, name: FlagNameV::Char('p') },
        FlagInfoV { flag: Flag::File, name: FlagNameV::Long("file"@) },
        FlagInfoV { flag: Flag::File, name: FlagNameV::Char('f') },
    ]
}

/// The flag registry: the descriptor list and the name lookup table
/// built from it, constructed once and read-only afterwards.
#[derive(Debug)]
pub struct Parser {
    map: FlagMap,
    infos: Vec<FlagInfo>,
}

impl Parser {
    /// The descriptors the registry was built from.
    pub closed spec fn infos_view(&self) -> Seq<FlagInfoV> {
        self.infos.deep_view()
    }

    /// The table maps exactly the registered names, collision-free.
    pub closed spec fn wf(&self) -> bool {
        &&& self.map@ == table_of(self.infos_view())
        &&& unique_keys(self.infos_view())
    }

    /// Builds the registry for the closed flag set: for every flag an
    /// entry under its long name, and one more under its short name
    /// where it has one.
    pub fn new() -> (p: Parser)
        ensures
            p.wf(),
            p.infos_view() == standard_infos(),
    {
        let mut infos: Vec<FlagInfo> = Vec::new();
        infos.push(
            FlagInfo {
                flag: Flag::Patterns,
                name: FlagName::Long(Flag::Patterns.name_long()),
                _flag_kind: FlagInfoKind::Standard,
            },
        );
        infos.push(
            FlagInfo { flag: Flag::Patterns, name: FlagName::Char('p'), _flag_kind: FlagInfoKind::Standard },
        );
        infos.push(
            FlagInfo {
                flag: Flag::File,
                name: FlagName::Long(Flag::File.name_long()),
                _flag_kind: FlagInfoKind::Standard,
            },
        );
        infos.push(
            FlagInfo { flag: Flag::File, name: FlagName::Char('f'), _flag_kind: FlagInfoKind::Standard },
        );
        proof {
            assert(infos.deep_view() =~= standard_infos());
            reveal_strlit("pattern");
            reveal_strlit("file");
            assert("pattern"@.len() == 7);
            assert("file"@.len() == 4);
            assert(key_of(standard_infos()[0].name) == "pattern"@);
            assert(key_of(standard_infos()[1].name) =~= seq!['p']);
            assert(key_of(standard_infos()[2].name) == "file"@);
            assert(key_of(standard_infos()[3].name) =~= seq!['f']);
            assert(seq!['p'].len() == 1 && seq!['f'].len() == 1);
            assert(seq!['p'][0] == 'p' && seq!['f'][0] == 'f');
            assert(unique_keys(standard_infos()));
        }
        let map = FlagMap::new(&infos);
        Parser { map, infos }
    }

    /// Resolves a short flag character against the registry.
    fn find_short(&self, ch: char) -> (r: FlagLookUp)
        requires
            self.wf(),
        ensures
            match r {
                FlagLookUp::Match(idx) => lookup(table_of(self.infos_view()), seq![ch]) == Some(
                    idx,
                ),
                FlagLookUp::UnrecognizedShort(c) => c == ch && lookup(
                    table_of(self.infos_view()),
                    seq![ch],
                ) is None,
                FlagLookUp::UnrecognizedLong(_) => false,
            },
    {
        let mut key = String::new();
        key.push(ch);
        proof {
            assert(key@ =~= seq![ch]);
        }
        match self.map.find(&key) {
            Some(index) => FlagLookUp::Match(index),
            None => FlagLookUp::UnrecognizedShort(ch),
        }
    }

    /// Resolves a long flag name against the registry.
    fn find_long(&self, name: &String) -> (r: FlagLookUp)
        requires
            self.wf(),
        ensures
            match r {
                FlagLookUp::Match(idx) => lookup(table_of(self.infos_view()), name@) == Some(idx),
                FlagLookUp::UnrecognizedLong(s) => s@ == name@ && lookup(
                    table_of(self.infos_view()),
                    name@,
                ) is None,
                FlagLookUp::UnrecognizedShort(_) => false,
            },
    {
        match self.map.find(name) {
            Some(index) => FlagLookUp::Match(index),
            None => FlagLookUp::UnrecognizedLong(name.clone()),
        }
    }

    /// Runs the token-stream machine over the raw argument tokens,
    /// writing into the accumulator; the result and the final
    /// accumulator are exactly those of [`spec_parse`].
    #[verifier::loop_isolation(false)]
    pub fn parse(&self, rawargs: &Vec<String>, args: &mut args::Args) -> (r: Result<(), Error>)
        requires
            self.wf(),
        ensures
            parse_post(
                spec_parse(self.infos_view(), rawargs.deep_view(), 0, old(args)@),
                r,
                final(args)@,
            ),
    {
        let ghost infos = self.infos_view();
        let ghost toks = rawargs.deep_view();
        let ghost a0 = args@;
        let infos_len = self.infos.len();
        proof {
            assert(infos.len() == infos_len);
        }
        let n = rawargs.len();
        let mut i: usize = 0;
        while i < n
            invariant
                self.wf(),
                infos == self.infos_view(),
                infos.len() <= usize::MAX,
                toks == rawargs.deep_view(),
                n == rawargs.len(),
                i <= n,
                spec_parse(infos, toks, 0, a0) == spec_parse(infos, toks, i as int, args@),
            decreases n - i,
        {
            let ghost ii = i as int;
            let ghost pre = args@;
            let t = &rawargs[i];
            proof {
                assert(toks[ii] == t@);
            }
            if is_lit(t, "-h") {
                args.special = Some(SpecialMode::HelpShort);
                proof {
                    assert(spec_parse(infos, toks, ii, pre) == ParseOutcome::Special(
                        SpecialMode::HelpShort,
                        pre.with_special(SpecialMode::HelpShort),
                    ));
                }
                return Ok(());
            }
            if is_lit(t, "-v") {
                args.special = Some(SpecialMode::VersionShort);
                proof {
                    assert(spec_parse(infos, toks, ii, pre) == ParseOutcome::Special(
                        SpecialMode::VersionShort,
                        pre.with_special(SpecialMode::VersionShort),
                    ));
                }
                return Ok(());
            }
            if is_lit(t, "--help") {
                args.special = Some(SpecialMode::HelpLong);
                proof {
                    assert(spec_parse(infos, toks, ii, pre) == ParseOutcome::Special(
                        SpecialMode::HelpLong,
                        pre.with_special(SpecialMode::HelpLong),
                    ));
                }
                return Ok(());
            }
            if is_lit(t, "--version") {
                args.special = Some(SpecialMode::VersionLong);
                proof {
                    assert(spec_parse(infos, toks, ii, pre) == ParseOutcome::Special(
                        SpecialMode::VersionLong,
                        pre.with_special(SpecialMode::VersionLong),
                    ));
                }
                return Ok(());
            }
            proof {
                assert(special_of(toks[ii]) is None);
            }
            let len = t.as_str().unicode_len();
            if len < 2 || t.as_str().get_char(0) != '-' {
                // bare value token
                args.positional.push(t.clone());
                proof {
                    assert(args@.positional =~~= pre.positional.push(toks[ii]));
                    assert(args@ == pre.push_positional(toks[ii]));
                    assert(spec_parse(infos, toks, ii, pre) == spec_parse(
                        infos,
                        toks,
                        ii + 1,
                        args@,
                    ));
                }
                i += 1;
            } else if t.as_str().get_char(1) == '-' {
                if len == 2 {
                    // the `--` separator: everything after it is positional
                    let ghost a_sep = args@;
                    proof {
                        assert(a_sep.positional + toks.subrange(ii + 1, ii + 1) =~~= a_sep
                            .positional);
                        assert(args@ == a_sep.append_positionals(toks.subrange(ii + 1, ii + 1)));
                    }
                    let mut j = i + 1;
                    while j < n
                        invariant
                            toks == rawargs.deep_view(),
                            n == rawargs.len(),
                            i + 1 <= j <= n,
                            ii == i as int,
                            args@ == a_sep.append_positionals(
                                toks.subrange(ii + 1, j as int),
                            ),
                        decreases n - j,
                    {
                        let s = rawargs[j].clone();
                        let ghost pv = args@.positional;
                        proof {
                            assert(s@ == toks[j as int]);
                        }
                        args.positional.push(s);
                        proof {
                            assert(args@.positional =~~= pv.push(toks[j as int]));
                            assert(pv.push(toks[j as int]) =~~= a_sep.positional + toks.subrange(
                                ii + 1,
                                j + 1,
                            ));
                        }
                        j += 1;
                    }
                    proof {
                        assert(spec_parse(infos, toks, ii, pre) == ParseOutcome::Finished(args@));
                    }
                    return Ok(());
                }
                // long flag
                let name_slice = t.as_str().substring_char(2, len);
                let name = name_slice.to_owned();
                let ghost name_spec = toks[ii].subrange(2, toks[ii].len() as int);
                proof {
                    assert(name@ == name_spec);
                }
                match self.find_long(&name) {
                    FlagLookUp::Match(idx) => {
                        proof {
                            lemma_lookup_in_table(infos, name_spec, idx);
                        }
                        let info = &self.infos[idx];
                        proof {
                            assert(info@ == infos[idx as int]);
                        }
                        if info.flag.is_switch() {
                            info.flag.update(FlagValue::Switch(true), args);
                            proof {
                                assert(spec_parse(infos, toks, ii, pre) == spec_parse(
                                    infos,
                                    toks,
                                    ii + 1,
                                    args@,
                                ));
                            }
                            i += 1;
                        } else if i + 1 < n {
                            let value = rawargs[i + 1].clone();
                            proof {
                                assert(value@ == toks[ii + 1]);
                            }
                            info.flag.update(FlagValue::Value(value), args);
                            proof {
                                assert(spec_parse(infos, toks, ii, pre) == spec_parse(
                                    infos,
                                    toks,
                                    ii + 2,
                                    args@,
                                ));
                            }
                            i += 2;
                        } else {
                            return Err(Error::MissingValue(clone_name(&info.name)));
                        }
                    },
                    FlagLookUp::UnrecognizedLong(s) => {
                        return Err(Error::UnrecognizedLong(s));
                    },
                    FlagLookUp::UnrecognizedShort(_) => {
                        return unreached();
                    },
                }
            } else {
                // short flag
                let ch = t.as_str().get_char(1);
                match self.find_short(ch) {
                    FlagLookUp::Match(idx) => {
                        proof {
                            lemma_lookup_in_table(infos, seq![ch], idx);
                        }
                        let info = &self.infos[idx];
                        proof {
                            assert(info@ == infos[idx as int]);
                        }
                        if info.flag.is_switch() {
                            if len > 2 {
                                return Err(Error::UnexpectedValue(clone_name(&info.name)));
                            }
                            info.flag.update(FlagValue::Switch(true), args);
                            proof {
                                assert(spec_parse(infos, toks, ii, pre) == spec_parse(
                                    infos,
                                    toks,
                                    ii + 1,
                                    args@,
                                ));
                            }
                            i += 1;
                        } else if len > 2 {
                            // the rest of the token is the attached value
                            let value_slice = t.as_str().substring_char(2, len);
                            let value = value_slice.to_owned();
                            proof {
                                assert(value@ == toks[ii].subrange(2, toks[ii].len() as int));
                            }
                            info.flag.update(FlagValue::Value(value), args);
                            proof {
                                assert(spec_parse(infos, toks, ii, pre) == spec_parse(
                                    infos,
                                    toks,
                                    ii + 1,
                                    args@,
                                ));
                            }
                            i += 1;
                        } else if i + 1 < n {
                            let value = rawargs[i + 1].clone();
                            proof {
                                assert(value@ == toks[ii + 1]);
                            }
                            info.flag.update(FlagValue::Value(value), args);
                            proof {
                                assert(spec_parse(infos, toks, ii, pre) == spec_parse(
                                    infos,
                                    toks,
                                    ii + 2,
                                    args@,
                                ));
                            }
                            i += 2;
                        } else {
                            return Err(Error::MissingValue(clone_name(&info.name)));
                        }
                    },
                    FlagLookUp::UnrecognizedShort(c) => {
                        return Err(Error::UnrecognizedShort(c));
                    },
                    FlagLookUp::UnrecognizedLong(_) => {
                        return unreached();
                    },
                }
            }
        }
        proof {
            assert(spec_parse(infos, toks, i as int, args@) == ParseOutcome::Finished(args@));
        }
        Ok(())
    }
}

/// A copy of a flag name whose view is unchanged.
fn clone_name(n: &FlagName) -> (r: FlagName)
    ensures
        r@ == n@,
{
    match n {
        FlagName::Char(c) => FlagName::Char(*c),
        FlagName::Long(s) => FlagName::Long(s.clone()),
    }
}

/// Whether a token equals the given literal, character for character.
fn is_lit(t: &String, lit: &str) -> (b: bool)
    ensures
        b == (t@ == lit@),
{
    let s = lit.to_owned();
    t.eq(&s)
}

/// What [`Parser::parse`] promises: the result and the accumulator
/// after the call are exactly what the token-stream machine yields.
pub open spec fn parse_post(out: ParseOutcome, r: Result<(), Error>, post: ArgsView) -> bool {
    match out {
        ParseOutcome::Finished(av) => r is Ok && post == av,
        ParseOutcome::Special(m, av) => r is Ok && post == av,
        ParseOutcome::Failed(e, av) => r matches Err(err) && err@ == e && post == av,
    }
}

/// A successful lookup in the registry table yields an index into the
/// descriptor list, and the descriptor there carries the queried name.
proof fn lemma_lookup_in_table(infos: Seq<FlagInfoV>, k: Seq<char>, idx: usize)
    requires
        infos.len() <= usize::MAX,
        lookup(table_of(infos), k) == Some(idx),
    ensures
        0 <= idx < infos.len(),
        key_of(infos[idx as int].name) == k,
{
    lemma_lookup_props(table_of(infos), k);
    let j = choose|j: int|
        0 <= j < table_of(infos).len() && (#[trigger] table_of(infos)[j]).0 == k && table_of(
            infos,
        )[j].1 == idx;
    assert(table_of(infos)[j] == (key_of(infos[j].name), j as usize));
}


/// How a run ends relates to the special mode it latched: a finished or
/// failed run leaves the special mode as it found it, and a
/// short-circuited run leaves exactly the mode of the special flag it
/// saw. Registry lookups and flag updates never touch the mode.
pub proof fn lemma_outcome_special(
    infos: Seq<FlagInfoV>,
    toks: Seq<Seq<char>>,
    i: int,
    a: ArgsView,
)
    ensures
        spec_parse(infos, toks, i, a) matches ParseOutcome::Finished(av) ==> av.special
            == a.special,
        spec_parse(infos, toks, i, a) matches ParseOutcome::Special(m, av) ==> av.special == Some(
            m,
        ),
        spec_parse(infos, toks, i, a) matches ParseOutcome::Failed(e, av) ==> av.special
            == a.special,
    decreases toks.len() - i,
{
    if i >= toks.len() {
    } else {
        let t = toks[i];
        match special_of(t) {
            Some(m) => {},
            None => {
                if !(t.len() >= 2 && t[0] == '-') {
                    lemma_outcome_special(infos, toks, i + 1, a.push_positional(t));
                } else if t[1] == '-' {
                    if t.len() == 2 {
                    } else {
                        let name = t.subrange(2, t.len() as int);
                        match lookup(table_of(infos), name) {
                            None => {},
                            Some(idx) => {
                                let f = infos[idx as int].flag;
                                if spec_is_switch(f) {
                                    lemma_outcome_special(
                                        infos,
                                        toks,
                                        i + 1,
                                        spec_update_switch(f, a),
                                    );
                                } else if i + 1 < toks.len() {
                                    lemma_outcome_special(
                                        infos,
                                        toks,
                                        i + 2,
                                        spec_update(f, toks[i + 1], a),
                                    );
                                }
                            },
                        }
                    }
                } else {
                    let ch = t[1];
                    match lookup(table_of(infos), seq![ch]) {
                        None => {},
                        Some(idx) => {
                            let f = infos[idx as int].flag;
                            if spec_is_switch(f) {
                                if t.len() > 2 {
                                } else {
                                    lemma_outcome_special(
                                        infos,
                                        toks,
                                        i + 1,
                                        spec_update_switch(f, a),
                                    );
                                }
                            } else if t.len() > 2 {
                                lemma_outcome_special(
                                    infos,
                                    toks,
                                    i + 1,
                                    spec_update(f, t.subrange(2, t.len() as int), a),
                                );
                            } else if i + 1 < toks.len() {
                                lemma_outcome_special(
                                    infos,
                                    toks,
                                    i + 2,
                                    spec_update(f, toks[i + 1], a),
                                );
                            }
                        },
                    }
                }
            },
        }
    }
}

/// A run that finishes a prefix of the stream cleanly continues on the
/// whole stream exactly where the prefix left off, provided the prefix
/// holds no `--` separator (the separator makes the run consume the
/// rest of the whole stream at once).
pub proof fn lemma_parse_frame(
    infos: Seq<FlagInfoV>,
    pre: Seq<Seq<char>>,
    full: Seq<Seq<char>>,
    i: int,
    a: ArgsView,
)
    requires
        0 <= i <= pre.len(),
        pre.len() <= full.len(),
        pre == full.subrange(0, pre.len() as int),
        spec_parse(infos, pre, i, a) is Finished,
        forall|j: int| i <= j < pre.len() ==> !is_separator(#[trigger] pre[j]),
    ensures
        spec_parse(infos, full, i, a) == spec_parse(
            infos,
            full,
            pre.len() as int,
            spec_parse(infos, pre, i, a)->Finished_0,
        ),
    decreases pre.len() - i,
{
    if i >= pre.len() {
    } else {
        let t = pre[i];
        assert(full[i] == t);
        match special_of(t) {
            Some(m) => {
                assert(false);
            },
            None => {
                if !(t.len() >= 2 && t[0] == '-') {
                    lemma_parse_frame(infos, pre, full, i + 1, a.push_positional(t));
                } else if t[1] == '-' {
                    if t.len() == 2 {
                        assert(is_separator(t));
                        assert(false);
                    } else {
                        let name = t.subrange(2, t.len() as int);
                        match lookup(table_of(infos), name) {
                            None => {
                                assert(false);
                            },
                            Some(idx) => {
                                let f = infos[idx as int].flag;
                                if spec_is_switch(f) {
                                    lemma_parse_frame(
                                        infos,
                                        pre,
                                        full,
                                        i + 1,
                                        spec_update_switch(f, a),
                                    );
                                } else if i + 1 < pre.len() {
                                    assert(full[i + 1] == pre[i + 1]);
                                    lemma_parse_frame(
                                        infos,
                                        pre,
                                        full,
                                        i + 2,
                                        spec_update(f, pre[i + 1], a),
                                    );
                                } else {
                                    assert(false);
                                }
                            },
                        }
                    }
                } else {
                    let ch = t[1];
                    match lookup(table_of(infos), seq![ch]) {
                        None => {
                            assert(false);
                        },
                        Some(idx) => {
                            let f = infos[idx as int].flag;
                            if spec_is_switch(f) {
                                if t.len() > 2 {
                                    assert(false);
                                } else {
                                    lemma_parse_frame(
                                        infos,
                                        pre,
                                        full,
                                        i + 1,
                                        spec_update_switch(f, a),
                                    );
                                }
                            } else if t.len() > 2 {
                                lemma_parse_frame(
                                    infos,
                                    pre,
                                    full,
                                    i + 1,
                                    spec_update(f, t.subrange(2, t.len() as int), a),
                                );
                            } else if i + 1 < pre.len() {
                                assert(full[i + 1] == pre[i + 1]);
                                lemma_parse_frame(
                                    infos,
                                    pre,
                                    full,
                                    i + 2,
                                    spec_update(f, pre[i + 1], a),
                                );
                            } else {
                                assert(false);
                            }
                        },
                    }
                }
            },
        }
    }
}

/// A help or version flag short-circuits the run the moment it is
/// reached: for every token stream whose first `k` tokens parse cleanly
/// (no error, no earlier special flag, no `--` separator) and whose
/// token `k` is one of the four special flags, the whole run ends with
/// exactly that special mode, regardless of every later token, however
/// malformed. A stream where an error, a separator or a value-taking
/// flag comes first does not reach the special flag at all.
pub proof fn lemma_special_short_circuit(
    infos: Seq<FlagInfoV>,
    toks: Seq<Seq<char>>,
    k: int,
    a0: ArgsView,
)
    requires
        0 <= k < toks.len(),
        special_of(toks[k]) is Some,
        spec_parse(infos, toks.subrange(0, k), 0, a0) is Finished,
        forall|j: int| 0 <= j < k ==> !is_separator(#[trigger] toks[j]),
    ensures
        ({
            let m = special_of(toks[k])->Some_0;
            let a1 = spec_parse(infos, toks.subrange(0, k), 0, a0)->Finished_0;
            spec_parse(infos, toks, 0, a0) == ParseOutcome::Special(m, a1.with_special(m))
        }),
{
    let pre = toks.subrange(0, k);
    assert forall|j: int| 0 <= j < pre.len() implies !is_separator(#[trigger] pre[j]) by {
        assert(pre[j] == toks[j]);
    }
    lemma_parse_frame(infos, pre, toks, 0, a0);
    let a1 = spec_parse(infos, pre, 0, a0)->Finished_0;
    let m = special_of(toks[k])->Some_0;
    assert(spec_parse(infos, toks, k, a1) == ParseOutcome::Special(m, a1.with_special(m)));
}

/// Parsing is a single deterministic pass with no hidden state: two
/// runs of the machine over the same token stream, each from a fresh
/// default accumulator, end the same way, and the resolved file and
/// patterns drawn from the finished accumulators coincide as well.
pub proof fn lemma_parse_deterministic(
    infos: Seq<FlagInfoV>,
    toks: Seq<Seq<char>>,
    o1: ParseOutcome,
    o2: ParseOutcome,
)
    requires
        o1 == spec_parse(infos, toks, 0, spec_default_args()),
        o2 == spec_parse(infos, toks, 0, spec_default_args()),
    ensures
        o1 == o2,
        match (o1, o2) {
            (ParseOutcome::Finished(av1), ParseOutcome::Finished(av2)) => spec_get_file(av1)
                == spec_get_file(av2) && spec_get_patterns(av1) == spec_get_patterns(av2),
            _ => true,
        },
{
}

} // verus!
