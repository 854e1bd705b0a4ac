//! Command-line settings: what the flags select, the size limit, and the
//! messages for bad invocations.

use vstd::prelude::*;
use pico_args::Error as ArgumentError;
use crate::text::{chars_of, parse_decimal, parse_usize_from, NumberError};

verus! {

/// Where a single uploaded file goes.
#[derive(Debug)]
pub enum Output {
    Filename(String),
    Stdout,
    ClientFilename,
}

/// What the form accepts, and where it goes.
#[derive(Debug)]
pub enum Mode {
    /// Any number of files, into a directory (the current one when `None`).
    MultipleFiles { out_dir: Option<String> },
    /// One file.
    SingleFile { out: Output },
    /// A block of text, into a file (standard output when `None`).
    Text { out_filename: Option<String> },
}

/// The process-wide configuration.
#[derive(Debug)]
pub struct Args {
    pub mode: Mode,
    pub port: u16,
    pub limit: usize,
    pub keep_running: bool,
    pub quiet: bool,
    pub use_tailscale_funnel: bool,
}

/// The size limit when none is given: 2 GiB.
pub const DEFAULT_LIMIT: usize = 2 * 1024 * 1024 * 1024;

/// The flags of one invocation, as read from the command line.
pub struct Flags {
    /// `-s`
    pub single: bool,
    /// `-m`
    pub multiple: bool,
    /// `-t`
    pub text: bool,
    /// `-O`
    pub client_filename: bool,
    /// `-f`
    pub force_stdout: bool,
    /// `-k`
    pub keep_running: bool,
    /// `-q`
    pub quiet: bool,
    /// `-T`
    pub use_tailscale_funnel: bool,
    /// `-o <name>`
    pub out_name: Option<String>,
    /// `-p <port>`
    pub port: Option<u16>,
    /// `-l <limit>`
    pub limit: Option<usize>,
    /// Whether standard output is a terminal.
    pub stdout_is_terminal: bool,
}

/// A bad invocation.
#[derive(Debug)]
pub enum Error {
    StdoutIsTerminal,
    ConflictingModes,
    HelpRequested,
    PicoArgs(ArgumentError),
}

/// pico_args' `Error`, carried through as an opaque value.
#[verifier::external_type_specification]
#[verifier::external_body]
pub struct ExArgumentError(ArgumentError);

impl From<ArgumentError> for Error {
    fn from(value: ArgumentError) -> (r: Self) {
        Error::PicoArgs(value)
    }
}

impl vstd::std_specs::convert::FromSpecImpl<ArgumentError> for Error {
    open spec fn obeys_from_spec() -> bool {
        true
    }

    open spec fn from_spec(v: ArgumentError) -> Error {
        Error::PicoArgs(v)
    }
}

/// More than one of `-s`, `-m` and `-t` was given.
pub open spec fn modes_conflict(f: Flags) -> bool {
    (f.single && f.multiple) || (f.single && f.text) || (f.multiple && f.text)
}

/// Single-file mode, the default.
pub open spec fn single_selected(f: Flags) -> bool {
    !f.multiple && !f.text
}

/// Single-file mode would write to a terminal that nobody allowed.
pub open spec fn stdout_refused(f: Flags) -> bool {
    &&& single_selected(f)
    &&& f.out_name is None
    &&& !f.client_filename
    &&& !f.force_stdout
    &&& f.stdout_is_terminal
}

/// The mode that valid flags select: `-o` names the output; without it,
/// single-file mode takes the client's name with `-O`, else standard output.
pub open spec fn mode_of(f: Flags) -> Mode {
    if f.multiple {
        Mode::MultipleFiles { out_dir: f.out_name }
    } else if f.text {
        Mode::Text { out_filename: f.out_name }
    } else {
        Mode::SingleFile {
            out: match f.out_name {
                Some(name) => Output::Filename(name),
                None => if f.client_filename {
                    Output::ClientFilename
                } else {
                    Output::Stdout
                },
            },
        }
    }
}

/// The configuration that valid flags give.
pub open spec fn args_of(f: Flags) -> Args {
    Args {
        mode: mode_of(f),
        port: match f.port {
            Some(p) => p,
            None => 0,
        },
        limit: match f.limit {
            Some(l) => l,
            None => DEFAULT_LIMIT,
        },
        keep_running: f.keep_running,
        quiet: f.quiet,
        use_tailscale_funnel: f.use_tailscale_funnel,
    }
}

impl Args {
    /// The configuration that `flags` select, or why they select none.
    pub fn from_flags(flags: Flags) -> (r: Result<Args, Error>)
        ensures
            modes_conflict(flags) ==> r matches Err(Error::ConflictingModes),
            !modes_conflict(flags) && stdout_refused(flags) ==> r matches Err(
                Error::StdoutIsTerminal,
            ),
            !modes_conflict(flags) && !stdout_refused(flags) ==> r == Ok::<Args, Error>(
                args_of(flags),
            ),
    {
        if (flags.single && flags.multiple) || (flags.single && flags.text) || (flags.multiple
            && flags.text) {
            return Err(Error::ConflictingModes);
        }
        let mode = if flags.multiple {
            Mode::MultipleFiles { out_dir: flags.out_name }
        } else if flags.text {
            Mode::Text { out_filename: flags.out_name }
        } else {
            let out = match flags.out_name {
                Some(name) => Output::Filename(name),
                None => {
                    if flags.client_filename {
                        Output::ClientFilename
                    } else if flags.force_stdout || !flags.stdout_is_terminal {
                        Output::Stdout
                    } else {
                        return Err(Error::StdoutIsTerminal);
                    }
                },
            };
            Mode::SingleFile { out }
        };
        let port = match flags.port {
            Some(p) => p,
            None => 0,
        };
        let limit = match flags.limit {
            Some(l) => l,
            None => DEFAULT_LIMIT,
        };
        Ok(
            Args {
                mode,
                port,
                limit,
                keep_running: flags.keep_running,
                quiet: flags.quiet,
                use_tailscale_funnel: flags.use_tailscale_funnel,
            },
        )
    }
}

/// A size limit in bytes.
#[derive(Debug)]
pub struct Limit(pub usize);

/// `pat` occurs in `s` at index `i`.
pub open spec fn occurs_at(s: Seq<char>, pat: Seq<char>, i: int) -> bool {
    0 <= i && i + pat.len() <= s.len() && s.subrange(i, i + pat.len()) == pat
}

/// The first occurrence of `pat` in `s` closes `s`.
pub open spec fn first_occurrence_ends(s: Seq<char>, pat: Seq<char>) -> bool {
    &&& occurs_at(s, pat, s.len() - pat.len())
    &&& forall|i: int| 0 <= i < s.len() - pat.len() ==> !occurs_at(s, pat, i)
}

/// The unit suffixes of a limit, in the order they are tried, with their
/// multipliers.
pub open spec fn limit_suffixes() -> Seq<(Seq<char>, nat)> {
    seq![
        (seq!['k'], 1000),
        (seq!['M'], 1000_000),
        (seq!['G'], 1000_000_000),
        (seq!['K', 'i'], 1024),
        (seq!['M', 'i'], 1024 * 1024),
        (seq!['G', 'i'], 1024 * 1024 * 1024),
    ]
}

/// The limit that `s` gives, trying the suffixes from the `k`-th on: the
/// first suffix whose first occurrence closes `s` multiplies the number
/// before it; with none, `s` is a plain number.
pub open spec fn limit_from(s: Seq<char>, k: nat) -> Result<nat, NumberError>
    decreases 6 - k,
{
    if k >= 6 {
        parse_decimal(s, usize::MAX as nat)
    } else {
        let (suffix, multiplier) = limit_suffixes()[k as int];
        if first_occurrence_ends(s, suffix) {
            match parse_decimal(s.subrange(0, s.len() - suffix.len()), usize::MAX as nat) {
                Ok(v) => if v * multiplier > usize::MAX {
                    Err(NumberError::Overflow)
                } else {
                    Ok(v * multiplier)
                },
                Err(e) => Err(e),
            }
        } else {
            limit_from(s, k + 1)
        }
    }
}

/// The limit that `s` gives: `10`, `2k` (10³), `2Ki` (2¹⁰), and likewise
/// `M`, `Mi`, `G`, `Gi`.
pub open spec fn limit_value(s: Seq<char>) -> Result<nat, NumberError> {
    limit_from(s, 0)
}

/// Whether the first occurrence of `pat` in `s` closes `s`.
fn first_occurrence_ends_exec(s: &Vec<char>, pat: &Vec<char>) -> (r: bool)
    requires
        1 <= pat@.len() <= 2,
    ensures
        r == first_occurrence_ends(s@, pat@),
{
    if s.len() < pat.len() {
        return false;
    }
    let end = s.len() - pat.len();
    let mut i: usize = 0;
    while i <= end
        invariant
            end == s@.len() - pat@.len(),
            end < usize::MAX,
            s@.len() <= usize::MAX,
            1 <= pat@.len() <= 2,
            i <= end + 1,
            forall|j: int| 0 <= j < i ==> !occurs_at(s@, pat@, j),
        decreases end + 1 - i,
    {
        let mut k: usize = 0;
        let mut hit = true;
        while k < pat.len()
            invariant
                i <= end,
                end == s@.len() - pat@.len(),
                1 <= pat@.len() <= 2,
                k <= pat@.len(),
                i + pat@.len() <= s@.len() <= usize::MAX,
                hit == (forall|m: int| 0 <= m < k ==> s@[i + m] == pat@[m]),
            decreases pat@.len() - k,
        {
            if s[i + k] != pat[k] {
                hit = false;
            }
            k = k + 1;
        }
        if hit {
            assert(s@.subrange(i as int, i + pat@.len()) =~= pat@);
            assert(occurs_at(s@, pat@, i as int));
            return i == end;
        }
        assert(!occurs_at(s@, pat@, i as int)) by {
            if occurs_at(s@, pat@, i as int) {
                let m = choose|m: int| 0 <= m < pat@.len() && s@[i + m] != pat@[m];
                assert(s@.subrange(i as int, i + pat@.len())[m] == s@[i + m]);
            }
        }
        i = i + 1;
    }
    false
}

impl Limit {
    /// The limit that `s` gives, see [`limit_value`].
    pub fn parse(s: &str) -> (r: Result<Limit, NumberError>)
        ensures
            r matches Ok(l) ==> limit_value(s@) == Ok::<nat, NumberError>(l.0 as nat),
            r matches Err(e) ==> limit_value(s@) == Err::<nat, NumberError>(e),
    {
        let cs = chars_of(s);
        let suffixes: Vec<(Vec<char>, usize)> = vec![
            (vec!['k'], 1000),
            (vec!['M'], 1000_000),
            (vec!['G'], 1000_000_000),
            (vec!['K', 'i'], 1024),
            (vec!['M', 'i'], 1024 * 1024),
            (vec!['G', 'i'], 1024 * 1024 * 1024),
        ];
        let mut k: usize = 0;
        while k < suffixes.len()
            invariant
                cs@ == s@,
                suffixes@.len() == 6,
                k <= 6,
                forall|j: int| 0 <= j < 6 ==> (#[trigger] suffixes@[j]).0@ == limit_suffixes()[j].0
                    && suffixes@[j].1 as nat == limit_suffixes()[j].1,
                limit_from(s@, 0) == limit_from(s@, k as nat),
            decreases 6 - k,
        {
            let suffix = &suffixes[k].0;
            let multiplier = suffixes[k].1;
            assert(suffixes@[k as int].0@ == limit_suffixes()[k as int].0);
            assert(multiplier <= u32::MAX);
            if first_occurrence_ends_exec(&cs, suffix) {
                let end = cs.len() - suffix.len();
                let ghost digits = cs@.subrange(0, end as int);
                let mut head: Vec<char> = Vec::new();
                let mut i: usize = 0;
                while i < end
                    invariant
                        i <= end <= cs@.len(),
                        head@ == cs@.subrange(0, i as int),
                    decreases end - i,
                {
                    head.push(cs[i]);
                    i = i + 1;
                    assert(head@ =~= cs@.subrange(0, i as int));
                }
                assert(head@.subrange(0, head@.len() as int) =~= digits);
                return match parse_usize_from(&head, 0) {
                    Ok(v) => {
                        assert((v as u128) * (multiplier as u128) <= u64::MAX as u128 * u32::MAX as u128) by (nonlinear_arith)
                            requires
                                v <= u64::MAX,
                                multiplier <= u32::MAX,
                        ;
                        if (v as u128) * (multiplier as u128) > usize::MAX as u128 {
                            Err(NumberError::Overflow)
                        } else {
                            Ok(Limit(v * multiplier))
                        }
                    },
                    Err(e) => Err(e),
                };
            }
            k = k + 1;
        }
        assert(cs@.subrange(0, cs@.len() as int) =~= s@);
        match parse_usize_from(&cs, 0) {
            Ok(v) => Ok(Limit(v)),
            Err(e) => Err(e),
        }
    }
}

impl std::str::FromStr for Limit {
    type Err = NumberError;

    fn from_str(s: &str) -> Result<Self, Self::Err> {
        Limit::parse(s)
    }
}

/// The help screen up to the program's name.
pub const HELP_HEAD: &'static str = "sendme: accept file uploads via an ephemeral HTML form\n\nusage: ";

/// The help screen after the program's name.
pub const HELP_TAIL: &'static str = " [-s|-m|-t] [-O | -o <filename|dir>] [-p port] [-l limit] [-fkqTh]\n\
    \x20 -s: allow uploading single file (default)\n\
    \x20 -m: allow uploading multiple files at once\n\
    \x20 -t: accept text entry instead of file\n\
    \x20 -O (without -m/-t/-o): use name of the file the user uploaded\n\
    \x20 -o: specify output filename, or directory with -m\n\
    \x20     default: stdout for -s if not a tty or -f was passed\n\
    \x20              current directory for -m\n\
    \x20              stdout for -t\n\
    \x20 -p: specify port to listen on\n\
    \x20     default: free port assigned by OS\n\
    \x20 -l: specify file size limit, in bytes or with suffixes:\n\
    \x20     k, M, G = powers of 1000\n\
    \x20     Ki, Mi, Gi = powers of 1024\n\
    \x20     default: 2Gi\n\
    \x20 -f (with -s): allow writing files to stdout when stdout is a terminal\n\
    \x20 -k: keep the server running after the first upload\n\
    \x20 -q: suppress progress bars\n\
    \x20 -T: use tailscale funnel\n\
    \x20 -h: show help";

/// The line that closes every error message.
pub const HELP_HINT: &'static str = "run with -h for help";

/// The help screen, for a program invoked as `program`.
pub fn show_help(program: &str) -> (r: String)
    ensures
        r@ == HELP_HEAD@ + program@ + HELP_TAIL@,
{
    let mut out = String::from_str(HELP_HEAD);
    out.append(program);
    out.append(HELP_TAIL);
    out
}

/// The text of an argument error of the parser.
fn argument_error_text(e: &ArgumentError) -> String {
    e.to_string()
}

impl Error {
    /// What to tell the user, for a program invoked as `program`.
    pub fn describe(&self, program: &str) -> (r: String)
        ensures
            self is StdoutIsTerminal ==> r@ == "error: stdout is a terminal\nuse -f to print to stdout anyway, or -o to specify a file\n"@ + HELP_HINT@,
            self is ConflictingModes ==> r@ == "error: multiple modes were specified\nuse only one of -s, -m, and -t\n"@ + HELP_HINT@,
            self is HelpRequested ==> r@ == HELP_HEAD@ + program@ + HELP_TAIL@,
            self is PicoArgs ==> exists|t: Seq<char>| r@ == "error: "@ + t + "\n"@ + HELP_HINT@,
    {
        match self {
            Error::StdoutIsTerminal => {
                let mut out = String::from_str("error: stdout is a terminal\nuse -f to print to stdout anyway, or -o to specify a file\n");
                out.append(HELP_HINT);
                out
            },
            Error::ConflictingModes => {
                let mut out = String::from_str("error: multiple modes were specified\nuse only one of -s, -m, and -t\n");
                out.append(HELP_HINT);
                out
            },
            Error::HelpRequested => show_help(program),
            Error::PicoArgs(e) => {
                let mut out = String::from_str("error: ");
                let t = argument_error_text(e);
                out.append(t.as_str());
                out.append("\n");
                out.append(HELP_HINT);
                assert(out@ == "error: "@ + t@ + "\n"@ + HELP_HINT@);
                out
            },
        }
    }
}

/// Without a mode flag other than `-s`, without `-o`, `-O` or `-f`, and
/// with standard output not a terminal, the file goes to standard output.
pub proof fn lemma_piped_default(f: Flags)
    requires
        !f.multiple,
        !f.text,
        f.out_name is None,
        !f.client_filename,
        !f.force_stdout,
        !f.stdout_is_terminal,
    ensures
        !modes_conflict(f),
        !stdout_refused(f),
        args_of(f).mode == (Mode::SingleFile { out: Output::Stdout }),
{
}

} // verus!
