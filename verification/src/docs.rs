use vstd::prelude::*;
use vstd::string::StrSliceExecFns;
use vstd::string::StringExecFns;

use crate::flags::Flag;
use crate::flags::spec_doc_short;
use crate::flags::spec_name_long;
use crate::flags::spec_name_short;

verus! {

/// The semantic version of the tool.
pub open spec fn spec_version() -> Seq<char> {
    "0.1.0"@
}

/// The short version line, `minigrep x.y.z`.
pub open spec fn spec_version_short() -> Seq<char> {
    "minigrep "@ + spec_version()
}

/// The long version text: the short line plus a contact line.
pub open spec fn spec_version_long() -> Seq<char> {
    spec_version_short() + " \n"@ + "the minigrep maintainers"@ + " <"@
        + "minigrep@example.com"@ + ">"@
}

/// A run of `n` spaces.
pub open spec fn spec_spaces(n: int) -> Seq<char> {
    Seq::new(n as nat, |i: int| ' ')
}

/// The first help column of one flag: its short name where it has one,
/// then its long name.
pub open spec fn spec_flag_col1(f: Flag) -> Seq<char> {
    match spec_name_short(f) {
        Some(c) => "-"@.push(c) + ", "@ + "--"@ + spec_name_long(f),
        None => "--"@ + spec_name_long(f),
    }
}

/// One help row: four leading spaces, the flag column padded to the
/// widest flag column plus two spaces, then the description.
pub open spec fn spec_row(col1: Seq<char>, col2: Seq<char>, max1: int) -> Seq<char> {
    "    "@ + col1 + spec_spaces(max1 - col1.len() + 2) + col2
}

/// The first `n` help rows, joined by newlines.
pub open spec fn spec_format_rows(
    col1s: Seq<Seq<char>>,
    col2s: Seq<Seq<char>>,
    max1: int,
    n: int,
) -> Seq<char>
    decreases n,
{
    if n <= 0 {
        Seq::empty()
    } else if n == 1 {
        spec_row(col1s[0], col2s[0], max1)
    } else {
        spec_format_rows(col1s, col2s, max1, n - 1) + "\n"@ + spec_row(
            col1s[n - 1],
            col2s[n - 1],
            max1,
        )
    }
}

/// The options block of the help text: one row per flag of the closed
/// set, aligned on the widest flag column.
pub open spec fn spec_options() -> Seq<char> {
    let a = spec_flag_col1(Flag::Patterns);
    let b = spec_flag_col1(Flag::File);
    let m = if a.len() >= b.len() {
        a.len()
    } else {
        b.len()
    };
    spec_format_rows(
        seq![a, b],
        seq![spec_doc_short(Flag::Patterns), spec_doc_short(Flag::File)],
        m as int,
        2,
    )
}

/// The condensed help text: banner, usage block and options block.
pub open spec fn spec_help_short() -> Seq<char> {
    "\nminigrep "@ + spec_version()
        + "\n\nminigrep searches for PATTERNS in the given FILE and prints each line that contains a pattern.\n\nUSAGE:\n    minigrep [OPTIONS] PATTERN FILE\n    minigrep [OPTIONS] PATTERN -f|--file FILE\n    minigrep [OPTIONS] -p|--pattern PATTERN FILE\n    minigrep [OPTIONS] -p|--pattern PATTERN -f|--file FILE\n\nOPTIONS:\n"@
        + spec_options() + "\n"@
}

/// The semantic version of the tool as a string.
pub fn generate_version() -> (r: String)
    ensures
        r@ == spec_version(),
{
    String::from_str("0.1.0")
}

/// Generates a short version string of the form `minigrep x.y.z`.
pub fn generate_version_short() -> (r: String)
    ensures
        r@ == spec_version_short(),
{
    let mut out = String::from_str("minigrep ");
    let version = generate_version();
    out.append(version.as_str());
    out
}

/// Generates a longer multi-line version string with a contact line.
pub fn generate_version_long() -> (r: String)
    ensures
        r@ == spec_version_long(),
{
    let mut out = generate_version_short();
    out.append(" \n");
    out.append("the minigrep maintainers");
    out.append(" <");
    out.append("minigrep@example.com");
    out.append(">");
    out
}

/// A string of `n` spaces.
fn spaces(n: usize) -> (r: String)
    ensures
        r@ == spec_spaces(n as int),
{
    let mut out = String::new();
    let mut i: usize = 0;
    while i < n
        invariant
            i <= n,
            out@ =~= spec_spaces(i as int),
        decreases n - i,
    {
        out.push(' ');
        proof {
            assert(out@ =~= spec_spaces(i as int + 1));
        }
        i += 1;
    }
    out
}

/// The two help columns of one flag: the written flag names, and its
/// one-line description.
pub fn generate_flag_short(flag: &Flag) -> (r: (String, String))
    ensures
        r.0@ == spec_flag_col1(*flag),
        r.1@ == spec_doc_short(*flag),
{
    let mut col_1 = String::new();
    match flag.name_short() {
        Some(c) => {
            col_1.append("-");
            col_1.push(c);
            col_1.append(", ");
        },
        None => {},
    }
    col_1.append("--");
    let long = flag.name_long();
    col_1.append(long.as_str());
    let col_2 = flag.doc_short();
    proof {
        assert(col_1@ =~= spec_flag_col1(*flag));
    }
    (col_1, col_2)
}

/// Renders the help rows, one per flag, each padded to the widest flag
/// column; the two column lists must pair up, and no flag column may
/// exceed the stated width.
#[verifier::loop_isolation(false)]
pub fn format_short_colums(
    column_1: Vec<String>,
    colums_2: Vec<String>,
    max_col_1: usize,
    _max_col_2: usize,
) -> (r: String)
    requires
        column_1@.len() == colums_2@.len(),
        forall|i: int| 0 <= i < column_1@.len() ==> (#[trigger] column_1@[i])@.len() <= max_col_1,
        max_col_1 <= usize::MAX - 2,
    ensures
        r@ == spec_format_rows(
            column_1.deep_view(),
            colums_2.deep_view(),
            max_col_1 as int,
            column_1@.len() as int,
        ),
{
    let n = column_1.len();
    let mut out = String::new();
    let mut i: usize = 0;
    while i < n
        invariant
            i <= n,
            out@ == spec_format_rows(
                column_1.deep_view(),
                colums_2.deep_view(),
                max_col_1 as int,
                i as int,
            ),
        decreases n - i,
    {
        if i > 0 {
            out.append("\n");
        }
        let col_1 = &column_1[i];
        let col_2 = &colums_2[i];
        proof {
            assert(column_1.deep_view()[i as int] == col_1@);
            assert(colums_2.deep_view()[i as int] == col_2@);
        }
        let l = col_1.as_str().unicode_len();
        let pad = max_col_1 - l + 2;
        out.append("    ");
        out.append(col_1.as_str());
        let sp = spaces(pad);
        out.append(sp.as_str());
        out.append(col_2.as_str());
        proof {
            assert(out@ == spec_format_rows(
                column_1.deep_view(),
                colums_2.deep_view(),
                max_col_1 as int,
                i as int + 1,
            ));
        }
        i += 1;
    }
    out
}

/// Renders the condensed help text shown for `-h`.
pub fn generate_help_short() -> (r: String)
    ensures
        r@ == spec_help_short(),
{
    let (col_1a, col_2a) = generate_flag_short(&Flag::Patterns);
    let (col_1b, col_2b) = generate_flag_short(&Flag::File);
    let len_a = col_1a.as_str().unicode_len();
    let len_b = col_1b.as_str().unicode_len();
    let max_col_1 = if len_a >= len_b {
        len_a
    } else {
        len_b
    };
    let max_col_2: usize = 0;
    proof {
        reveal_strlit("pattern");
        reveal_strlit("file");
        reveal_strlit("-");
        reveal_strlit(", ");
        reveal_strlit("--");
        assert(spec_flag_col1(Flag::Patterns).len() <= 20);
        assert(spec_flag_col1(Flag::File).len() <= 20);
    }
    let mut column_1: Vec<String> = Vec::new();
    column_1.push(col_1a);
    column_1.push(col_1b);
    let mut colums_2: Vec<String> = Vec::new();
    colums_2.push(col_2a);
    colums_2.push(col_2b);
    proof {
        assert(column_1.deep_view() =~= seq![
            spec_flag_col1(Flag::Patterns),
            spec_flag_col1(Flag::File),
        ]);
        assert(colums_2.deep_view() =~= seq![
            spec_doc_short(Flag::Patterns),
            spec_doc_short(Flag::File),
        ]);
    }
    let options = format_short_colums(column_1, colums_2, max_col_1, max_col_2);
    let mut out = String::from_str("\nminigrep ");
    let version = generate_version();
    out.append(version.as_str());
    out.append(
        "\n\nminigrep searches for PATTERNS in the given FILE and prints each line that contains a pattern.\n\nUSAGE:\n    minigrep [OPTIONS] PATTERN FILE\n    minigrep [OPTIONS] PATTERN -f|--file FILE\n    minigrep [OPTIONS] -p|--pattern PATTERN FILE\n    minigrep [OPTIONS] -p|--pattern PATTERN -f|--file FILE\n\nOPTIONS:\n",
    );
    out.append(options.as_str());
    out.append("\n");
    out
}

/// Renders the long-form help text shown for `--help`; its content is
/// currently identical to the condensed help.
pub fn generate_help_long() -> (r: String)
    ensures
        r@ == spec_help_short(),
{
    generate_help_short()
}

} // verus!
