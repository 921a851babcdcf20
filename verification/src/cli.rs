//! The command line: its schema, the parser of its arguments, and the
//! mapping of the parsed flags onto the run configuration.
//!
//! Grammar accepted by [`CommandLine::parse_args`] (`args[0]` is the program
//! name and is skipped):
//!
//! * global flags, before or after the subcommand: `--no-banner`,
//!   `-n`/`--no-dns`, `--redact` (each at most once), `-q`/`--quiet` and
//!   `-v`/`--verbose` (counted, saturating at 255), `-p`/`--ports` with a
//!   value (`-p V`, `-pV`, `-p=V`, `--ports V`, `--ports=V`), split on `,`
//!   and appended across occurrences; `-h`/`--help` asks for help;
//! * short flags may be clustered (`-qqv`, `-np80`); a value after `-p`
//!   ends the cluster;
//! * the subcommand: `info`/`i`, `listen`/`l`, `discover`/`d`, `scan`/`s`
//!   (`help` asks for help); `discover` and `scan` take one or more targets;
//! * `--` makes every later argument positional; a lone `-` is positional.

use vstd::prelude::*;
use vstd::string::*;
use crate::text::{chars_equal, chars_of, range_equals, spec_split, split_chars, string_of, strings_view};

verus! {

/// The operation mode chosen on the command line.
pub enum Commands {
    /// Display local network interfaces.
    Info,
    /// Passive discovery via traffic monitoring.
    Listen,
    /// Find live hosts within the given targets.
    Discover { targets: Vec<String> },
    /// Port scan the given targets.
    Scan { targets: Vec<String> },
}

/// The kind of a subcommand, without its targets.
#[derive(Clone, Copy, PartialEq, Eq, Structural, Debug)]
pub enum Sub {
    Info,
    Listen,
    Discover,
    Scan,
}

/// The parsed command line.
pub struct CommandLine {
    pub command: Commands,
    /// Keep logs and colors but hide the ASCII art.
    pub no_banner: bool,
    /// Disables sending of DNS packets.
    pub no_dns: bool,
    /// Ports to target (e.g. 80,443, 1-1024, u:53).
    pub ports: Vec<String>,
    /// Reduce UI visual density (-q: reduce styling, -qq: raw IPs).
    pub quiet: u8,
    /// Redact sensitive info (IPv6 suffixes, MAC addresses etc.).
    pub redact: bool,
    /// Increase logging detail (-v: debug logs, -vv: full packets).
    pub verbosity: u8,
}

/// Why a command line was not accepted; each index points into the
/// argument list (index 0 is the program name).
#[derive(Clone, Copy, PartialEq, Eq, Structural, Debug)]
pub enum CliError {
    /// `-h`, `--help` or the `help` subcommand was given.
    HelpRequested,
    /// No subcommand was given.
    MissingSubcommand,
    /// `discover` or `scan` was given without targets.
    MissingTargets,
    /// An option that the schema does not know.
    UnknownArgument(usize),
    /// `-p`/`--ports` without a value.
    MissingValue(usize),
    /// A flag that may be given once was given again.
    RepeatedFlag(usize),
    /// A flag that takes no value was given one with `=`.
    UnexpectedValue(usize),
    /// A first positional argument that names no subcommand.
    InvalidSubcommand(usize),
    /// A positional argument where none is taken.
    UnexpectedArgument(usize),
}

/// The run configuration derived from the command line.
#[derive(Clone, Copy, PartialEq, Eq, Structural, Debug)]
pub struct Config {
    pub no_banner: bool,
    pub no_dns: bool,
    pub redact: bool,
    pub quiet: u8,
    pub disable_input: bool,
}

/// The state of the parser after a prefix of the arguments.
pub struct ArgState {
    pub command: Option<Sub>,
    pub targets: Seq<Seq<char>>,
    pub no_banner: bool,
    pub no_dns: bool,
    pub redact: bool,
    pub ports: Seq<Seq<char>>,
    pub quiet: u8,
    pub verbosity: u8,
    /// The index of a `-p`/`--ports` whose value is the next argument.
    pub awaiting_ports: Option<usize>,
    /// Whether `--` has been seen.
    pub positional_only: bool,
    pub error: Option<CliError>,
}

/// The parser's state before any argument.
pub open spec fn initial_state() -> ArgState {
    ArgState {
        command: None,
        targets: Seq::empty(),
        no_banner: false,
        no_dns: false,
        redact: false,
        ports: Seq::empty(),
        quiet: 0,
        verbosity: 0,
        awaiting_ports: None,
        positional_only: false,
        error: None,
    }
}

/// Adds one to a counter that stops at 255.
pub open spec fn saturating_inc(x: u8) -> u8 {
    if x < 255 {
        (x + 1) as u8
    } else {
        255
    }
}

/// The position of the first `c` in `s`, or `s.len()` when there is none.
pub open spec fn index_of(s: Seq<char>, c: char) -> nat
    decreases s.len(),
{
    if s.len() == 0 {
        0
    } else if s[0] == c {
        0
    } else {
        1 + index_of(s.drop_first(), c)
    }
}

/// Whether `tok` is an option token (starts with `-` and is not a lone `-`).
pub open spec fn is_option(tok: Seq<char>) -> bool {
    tok.len() > 1 && tok[0] == '-'
}

/// The state with `e` recorded as the error.
pub open spec fn with_error(st: ArgState, e: CliError) -> ArgState {
    ArgState { error: Some(e), ..st }
}

/// Sets a flag that may be given once.
pub open spec fn set_once(st: ArgState, i: usize, already: bool, set: ArgState) -> ArgState {
    if already {
        with_error(st, CliError::RepeatedFlag(i))
    } else {
        set
    }
}

/// A value given to `-p`/`--ports`: its comma separated pieces are appended.
pub open spec fn add_ports(st: ArgState, value: Seq<char>) -> ArgState {
    ArgState { ports: st.ports + spec_split(value, ','), ..st }
}

/// One short flag `c` of the cluster at index `i` (any but `p`).
pub open spec fn apply_short(st: ArgState, i: usize, c: char) -> ArgState {
    if c == 'n' {
        set_once(st, i, st.no_dns, ArgState { no_dns: true, ..st })
    } else if c == 'q' {
        ArgState { quiet: saturating_inc(st.quiet), ..st }
    } else if c == 'v' {
        ArgState { verbosity: saturating_inc(st.verbosity), ..st }
    } else if c == 'h' {
        with_error(st, CliError::HelpRequested)
    } else {
        with_error(st, CliError::UnknownArgument(i))
    }
}

/// The short flags of the cluster `tok` (index `i`) from position `j` on.
pub open spec fn apply_cluster(st: ArgState, i: usize, tok: Seq<char>, j: nat) -> ArgState
    decreases tok.len() - j,
{
    if st.error is Some || j >= tok.len() {
        st
    } else if tok[j as int] == 'p' {
        let rest = tok.skip(j + 1 as int);
        if rest.len() == 0 {
            ArgState { awaiting_ports: Some(i), ..st }
        } else if rest[0] == '=' {
            add_ports(st, rest.skip(1))
        } else {
            add_ports(st, rest)
        }
    } else {
        apply_cluster(apply_short(st, i, tok[j as int]), i, tok, j + 1)
    }
}

/// The long option `tok` (`--name` or `--name=value`) at index `i`.
pub open spec fn apply_long(st: ArgState, i: usize, tok: Seq<char>) -> ArgState {
    let body = tok.skip(2);
    let p = index_of(body, '=');
    let name = body.take(p as int);
    let has_value = p < body.len();
    let value = body.skip(p + 1 as int);
    if name == "ports"@ {
        if has_value {
            add_ports(st, value)
        } else {
            ArgState { awaiting_ports: Some(i), ..st }
        }
    } else if name == "help"@ {
        with_error(st, CliError::HelpRequested)
    } else if name == "no-banner"@ || name == "no-dns"@ || name == "redact"@ || name
        == "quiet"@ || name == "verbose"@ {
        if has_value {
            with_error(st, CliError::UnexpectedValue(i))
        } else if name == "no-banner"@ {
            set_once(st, i, st.no_banner, ArgState { no_banner: true, ..st })
        } else if name == "no-dns"@ {
            set_once(st, i, st.no_dns, ArgState { no_dns: true, ..st })
        } else if name == "redact"@ {
            set_once(st, i, st.redact, ArgState { redact: true, ..st })
        } else if name == "quiet"@ {
            ArgState { quiet: saturating_inc(st.quiet), ..st }
        } else {
            ArgState { verbosity: saturating_inc(st.verbosity), ..st }
        }
    } else {
        with_error(st, CliError::UnknownArgument(i))
    }
}

/// The subcommand named by `tok`, if any.
pub open spec fn sub_named(tok: Seq<char>) -> Option<Sub> {
    if tok == "info"@ || tok == "i"@ {
        Some(Sub::Info)
    } else if tok == "listen"@ || tok == "l"@ {
        Some(Sub::Listen)
    } else if tok == "discover"@ || tok == "d"@ {
        Some(Sub::Discover)
    } else if tok == "scan"@ || tok == "s"@ {
        Some(Sub::Scan)
    } else {
        None
    }
}

/// The positional argument `tok` at index `i`.
pub open spec fn apply_positional(st: ArgState, i: usize, tok: Seq<char>) -> ArgState {
    match st.command {
        None => {
            if tok == "help"@ {
                with_error(st, CliError::HelpRequested)
            } else {
                match sub_named(tok) {
                    Some(sub) => ArgState { command: Some(sub), ..st },
                    None => with_error(st, CliError::InvalidSubcommand(i)),
                }
            }
        },
        Some(sub) => {
            if sub == Sub::Discover || sub == Sub::Scan {
                ArgState { targets: st.targets.push(tok), ..st }
            } else {
                with_error(st, CliError::UnexpectedArgument(i))
            }
        },
    }
}

/// The argument `tok` at index `i`.
pub open spec fn step(st: ArgState, i: usize, tok: Seq<char>) -> ArgState {
    if st.error is Some {
        st
    } else if st.awaiting_ports is Some {
        if is_option(tok) {
            with_error(st, CliError::MissingValue(st.awaiting_ports->0))
        } else {
            add_ports(ArgState { awaiting_ports: None, ..st }, tok)
        }
    } else if st.positional_only {
        apply_positional(st, i, tok)
    } else if tok == "--"@ {
        ArgState { positional_only: true, ..st }
    } else if tok.len() >= 2 && tok[0] == '-' && tok[1] == '-' {
        apply_long(st, i, tok)
    } else if is_option(tok) {
        apply_cluster(st, i, tok, 1)
    } else {
        apply_positional(st, i, tok)
    }
}

/// The state after the arguments `args[i..]`, from `st`.
pub open spec fn run(st: ArgState, args: Seq<Seq<char>>, i: nat) -> ArgState
    decreases args.len() - i,
{
    if i >= args.len() {
        st
    } else {
        run(step(st, i as usize, args[i as int]), args, i + 1)
    }
}

/// The state after all of `args` (the program name at index 0 is skipped).
pub open spec fn parsed(args: Seq<Seq<char>>) -> ArgState {
    run(initial_state(), args, 1)
}

/// The error that the arguments end in, if any.
pub open spec fn outcome_error(st: ArgState) -> Option<CliError> {
    if st.error is Some {
        st.error
    } else if st.awaiting_ports is Some {
        Some(CliError::MissingValue(st.awaiting_ports->0))
    } else if st.command is None {
        Some(CliError::MissingSubcommand)
    } else if (st.command == Some(Sub::Discover) || st.command == Some(Sub::Scan))
        && st.targets.len() == 0 {
        Some(CliError::MissingTargets)
    } else {
        None
    }
}

impl Commands {
    /// The kind of this subcommand.
    pub open spec fn kind(&self) -> Sub {
        match self {
            Commands::Info => Sub::Info,
            Commands::Listen => Sub::Listen,
            Commands::Discover { .. } => Sub::Discover,
            Commands::Scan { .. } => Sub::Scan,
        }
    }

    /// The targets of `discover` and `scan`; empty for the others.
    pub open spec fn targets_view(&self) -> Seq<Seq<char>> {
        match self {
            Commands::Discover { targets } => strings_view(targets@),
            Commands::Scan { targets } => strings_view(targets@),
            _ => Seq::empty(),
        }
    }
}

impl CommandLine {
    /// Whether this command line is the one that the parser state `st` describes.
    pub open spec fn describes(&self, st: ArgState) -> bool {
        &&& st.command == Some(self.command.kind())
        &&& self.command.targets_view() == st.targets
        &&& self.no_banner == st.no_banner
        &&& self.no_dns == st.no_dns
        &&& self.redact == st.redact
        &&& strings_view(self.ports@) == st.ports
        &&& self.quiet == st.quiet
        &&& self.verbosity == st.verbosity
    }
}


/// `index_of` over `s` is the length of a prefix free of `c` plus the
/// position in the rest.
pub proof fn lemma_index_of_prefix(s: Seq<char>, c: char, k: int)
    requires
        0 <= k <= s.len(),
        forall|j: int| 0 <= j < k ==> s[j] != c,
    ensures
        index_of(s, c) == k + index_of(s.skip(k), c),
    decreases k,
{
    if k > 0 {
        lemma_index_of_prefix(s.drop_first(), c, k - 1);
        assert(s.drop_first().skip(k - 1) =~= s.skip(k));
    } else {
        assert(s.skip(0) =~= s);
    }
}

/// The strings of `a + b` are those of `a` followed by those of `b`.
pub proof fn lemma_strings_view_concat(a: Seq<String>, b: Seq<String>)
    ensures
        strings_view(a + b) == strings_view(a) + strings_view(b),
{
    assert(strings_view(a + b) =~= strings_view(a) + strings_view(b));
}

/// Targets are only ever collected for `discover` and `scan`.
pub open spec fn targets_consistent(st: ArgState) -> bool {
    st.command == Some(Sub::Discover) || st.command == Some(Sub::Scan) || st.targets.len() == 0
}

/// Short flag clusters leave the subcommand and the targets alone.
pub proof fn lemma_cluster_keeps_command(st: ArgState, i: usize, tok: Seq<char>, j: nat)
    ensures
        apply_cluster(st, i, tok, j).command == st.command,
        apply_cluster(st, i, tok, j).targets == st.targets,
        apply_cluster(st, i, tok, j).positional_only == st.positional_only,
    decreases tok.len() - j,
{
    if !(st.error is Some || j >= tok.len()) && tok[j as int] != 'p' {
        lemma_cluster_keeps_command(apply_short(st, i, tok[j as int]), i, tok, j + 1);
    }
}

/// Every step keeps targets and subcommand consistent.
pub proof fn lemma_step_consistent(st: ArgState, i: usize, tok: Seq<char>)
    requires
        targets_consistent(st),
    ensures
        targets_consistent(step(st, i, tok)),
{
    lemma_cluster_keeps_command(st, i, tok, 1);
}

/// The parser's working state, in executable form.
struct Parser {
    command: Option<Sub>,
    targets: Vec<String>,
    no_banner: bool,
    no_dns: bool,
    redact: bool,
    ports: Vec<String>,
    quiet: u8,
    verbosity: u8,
    awaiting_ports: Option<usize>,
    positional_only: bool,
    error: Option<CliError>,
}

impl Parser {
    closed spec fn view(&self) -> ArgState {
        ArgState {
            command: self.command,
            targets: strings_view(self.targets@),
            no_banner: self.no_banner,
            no_dns: self.no_dns,
            redact: self.redact,
            ports: strings_view(self.ports@),
            quiet: self.quiet,
            verbosity: self.verbosity,
            awaiting_ports: self.awaiting_ports,
            positional_only: self.positional_only,
            error: self.error,
        }
    }

    fn new() -> (p: Parser)
        ensures
            p.view() == initial_state(),
    {
        let p = Parser {
            command: None,
            targets: Vec::new(),
            no_banner: false,
            no_dns: false,
            redact: false,
            ports: Vec::new(),
            quiet: 0,
            verbosity: 0,
            awaiting_ports: None,
            positional_only: false,
            error: None,
        };
        assert(p.view().targets =~= Seq::<Seq<char>>::empty());
        assert(p.view().ports =~= Seq::<Seq<char>>::empty());
        p
    }

    fn add_ports(&mut self, tok: &[char], from: usize)
        requires
            from <= tok@.len(),
        ensures
            final(self).view() == add_ports(old(self).view(), tok@.skip(from as int)),
    {
        let mut pieces = split_chars(tok, from, ',');
        let ghost before = self.ports@;
        let ghost added = pieces@;
        self.ports.append(&mut pieces);
        proof {
            lemma_strings_view_concat(before, added);
        }
    }

    fn inc(x: u8) -> (r: u8)
        ensures
            r == saturating_inc(x),
    {
        if x < 255 {
            x + 1
        } else {
            255
        }
    }

    fn short_flag(&mut self, i: usize, c: char)
        ensures
            final(self).view() == apply_short(old(self).view(), i, c),
    {
        if c == 'n' {
            if self.no_dns {
                self.error = Some(CliError::RepeatedFlag(i));
            } else {
                self.no_dns = true;
            }
        } else if c == 'q' {
            self.quiet = Parser::inc(self.quiet);
        } else if c == 'v' {
            self.verbosity = Parser::inc(self.verbosity);
        } else if c == 'h' {
            self.error = Some(CliError::HelpRequested);
        } else {
            self.error = Some(CliError::UnknownArgument(i));
        }
    }

    fn cluster(&mut self, i: usize, tok: &[char])
        requires
            tok@.len() >= 1,
            old(self).view().error is None,
        ensures
            final(self).view() == apply_cluster(old(self).view(), i, tok@, 1),
    {
        let mut j: usize = 1;
        while j < tok.len()
            invariant
                1 <= j <= tok@.len(),
                apply_cluster(self.view(), i, tok@, j as nat) == apply_cluster(
                    old(self).view(),
                    i,
                    tok@,
                    1,
                ),
            decreases tok@.len() - j,
        {
            if self.error.is_some() {
                return;
            }
            let c = tok[j];
            if c == 'p' {
                if j + 1 == tok.len() {
                    self.awaiting_ports = Some(i);
                    assert(tok@.skip(j + 1).len() == 0);
                } else if tok[j + 1] == '=' {
                    assert(tok@.skip(j + 1).skip(1) =~= tok@.skip(j + 2));
                    self.add_ports(tok, j + 2);
                } else {
                    self.add_ports(tok, j + 1);
                }
                return;
            }
            self.short_flag(i, c);
            j = j + 1;
        }
    }

    fn long(&mut self, i: usize, tok: &[char])
        requires
            tok@.len() >= 2,
        ensures
            final(self).view() == apply_long(old(self).view(), i, tok@),
    {
        let n = tok.len();
        let ghost body = tok@.skip(2);
        let mut p: usize = 2;
        while p < n && tok[p] != '='
            invariant
                2 <= p <= n,
                n == tok@.len(),
                body == tok@.skip(2),
                forall|j: int| 0 <= j < p - 2 ==> body[j] != '=',
            decreases n - p,
        {
            p = p + 1;
        }
        proof {
            lemma_index_of_prefix(body, '=', p - 2);
            if p < n {
                assert(body.skip(p - 2)[0] == '=');
            } else {
                assert(body.skip(p - 2).len() == 0);
            }
            assert(index_of(body, '=') == p - 2);
            assert(body.take(p - 2) =~= tok@.subrange(2, p as int));
        }
        let has_value = p < n;
        if range_equals(tok, 2, p, "ports") {
            if has_value {
                assert(body.skip(p - 2 + 1) =~= tok@.skip(p + 1));
                self.add_ports(tok, p + 1);
            } else {
                self.awaiting_ports = Some(i);
            }
        } else if range_equals(tok, 2, p, "help") {
            self.error = Some(CliError::HelpRequested);
        } else if range_equals(tok, 2, p, "no-banner") {
            if has_value {
                self.error = Some(CliError::UnexpectedValue(i));
            } else if self.no_banner {
                self.error = Some(CliError::RepeatedFlag(i));
            } else {
                self.no_banner = true;
            }
        } else if range_equals(tok, 2, p, "no-dns") {
            if has_value {
                self.error = Some(CliError::UnexpectedValue(i));
            } else if self.no_dns {
                self.error = Some(CliError::RepeatedFlag(i));
            } else {
                self.no_dns = true;
            }
        } else if range_equals(tok, 2, p, "redact") {
            if has_value {
                self.error = Some(CliError::UnexpectedValue(i));
            } else if self.redact {
                self.error = Some(CliError::RepeatedFlag(i));
            } else {
                self.redact = true;
            }
        } else if range_equals(tok, 2, p, "quiet") {
            if has_value {
                self.error = Some(CliError::UnexpectedValue(i));
            } else {
                self.quiet = Parser::inc(self.quiet);
            }
        } else if range_equals(tok, 2, p, "verbose") {
            if has_value {
                self.error = Some(CliError::UnexpectedValue(i));
            } else {
                self.verbosity = Parser::inc(self.verbosity);
            }
        } else {
            self.error = Some(CliError::UnknownArgument(i));
        }
    }

    fn positional(&mut self, i: usize, tok: &[char])
        ensures
            final(self).view() == apply_positional(old(self).view(), i, tok@),
    {
        match self.command {
            None => {
                if chars_equal(tok, "help") {
                    self.error = Some(CliError::HelpRequested);
                } else if chars_equal(tok, "info") || chars_equal(tok, "i") {
                    self.command = Some(Sub::Info);
                } else if chars_equal(tok, "listen") || chars_equal(tok, "l") {
                    self.command = Some(Sub::Listen);
                } else if chars_equal(tok, "discover") || chars_equal(tok, "d") {
                    self.command = Some(Sub::Discover);
                } else if chars_equal(tok, "scan") || chars_equal(tok, "s") {
                    self.command = Some(Sub::Scan);
                } else {
                    self.error = Some(CliError::InvalidSubcommand(i));
                }
            },
            Some(sub) => {
                if sub == Sub::Discover || sub == Sub::Scan {
                    let t = string_of(tok, 0, tok.len());
                    assert(tok@.subrange(0, tok@.len() as int) =~= tok@);
                    let ghost before = self.targets@;
                    self.targets.push(t);
                    assert(strings_view(self.targets@) =~= strings_view(before).push(tok@));
                } else {
                    self.error = Some(CliError::UnexpectedArgument(i));
                }
            },
        }
    }

    fn step(&mut self, i: usize, tok: &[char])
        ensures
            final(self).view() == step(old(self).view(), i, tok@),
    {
        if self.error.is_some() {
            return;
        }
        if let Some(at) = self.awaiting_ports {
            if tok.len() > 1 && tok[0] == '-' {
                self.error = Some(CliError::MissingValue(at));
            } else {
                self.awaiting_ports = None;
                assert(tok@.skip(0) =~= tok@);
                self.add_ports(tok, 0);
            }
            return;
        }
        if self.positional_only {
            self.positional(i, tok);
        } else if chars_equal(tok, "--") {
            self.positional_only = true;
        } else if tok.len() >= 2 && tok[0] == '-' && tok[1] == '-' {
            self.long(i, tok);
        } else if tok.len() > 1 && tok[0] == '-' {
            self.cluster(i, tok);
        } else {
            self.positional(i, tok);
        }
    }
}

impl CommandLine {
    /// Parses the process arguments (`args[0]` is the program name) by the
    /// grammar described in this module.
    pub fn parse_args(args: &Vec<String>) -> (r: Result<CommandLine, CliError>)
        ensures
            match r {
                Ok(cl) => outcome_error(parsed(strings_view(args@))) is None && cl.describes(
                    parsed(strings_view(args@)),
                ),
                Err(e) => outcome_error(parsed(strings_view(args@))) == Some(e),
            },
    {
        let ghost all = strings_view(args@);
        let mut p = Parser::new();
        let mut i: usize = 1;
        if args.len() == 0 {
            i = 0;
        }
        assert(run(p.view(), all, i as nat) == parsed(all));
        assert(targets_consistent(p.view()));
        while i < args.len()
            invariant
                all == strings_view(args@),
                i <= args@.len(),
                run(p.view(), all, i as nat) == parsed(all),
                targets_consistent(p.view()),
            decreases args@.len() - i,
        {
            let tok = chars_of(args[i].as_str());
            assert(tok@ == all[i as int]);
            proof {
                lemma_step_consistent(p.view(), i, tok@);
            }
            p.step(i, tok.as_slice());
            i = i + 1;
        }
        let ghost fin = p.view();
        assert(fin == parsed(all));
        if let Some(e) = p.error {
            return Err(e);
        }
        if let Some(at) = p.awaiting_ports {
            return Err(CliError::MissingValue(at));
        }
        let targets = p.targets;
        let ghost tv = strings_view(targets@);
        let command = match p.command {
            None => {
                return Err(CliError::MissingSubcommand);
            },
            Some(Sub::Info) => Commands::Info,
            Some(Sub::Listen) => Commands::Listen,
            Some(Sub::Discover) => {
                if targets.len() == 0 {
                    return Err(CliError::MissingTargets);
                }
                Commands::Discover { targets }
            },
            Some(Sub::Scan) => {
                if targets.len() == 0 {
                    return Err(CliError::MissingTargets);
                }
                Commands::Scan { targets }
            },
        };
        proof {
            if command.kind() == Sub::Info || command.kind() == Sub::Listen {
                assert(command.targets_view() =~= Seq::<Seq<char>>::empty());
                assert(fin.targets.len() == 0);
            }
        }
        let cl = CommandLine {
            command,
            no_banner: p.no_banner,
            no_dns: p.no_dns,
            ports: p.ports,
            quiet: p.quiet,
            redact: p.redact,
            verbosity: p.verbosity,
        };
        assert(fin.command == Some(cl.command.kind()));
        assert(cl.command.targets_view() == fin.targets);
        assert(strings_view(cl.ports@) == fin.ports);
        Ok(cl)
    }
}

impl Config {
    /// The run configuration for a parsed command line (`From<&CommandLine>`).
    pub fn from(cmd: &CommandLine) -> (c: Config)
        ensures
            c.no_banner == cmd.no_banner,
            c.no_dns == cmd.no_dns,
            c.redact == cmd.redact,
            c.quiet == cmd.quiet,
            !c.disable_input,
    {
        Config {
            no_banner: cmd.no_banner,
            no_dns: cmd.no_dns,
            redact: cmd.redact,
            quiet: cmd.quiet,
            disable_input: false,
        }
    }
}

/// Before `--`, every argument but `--` leaves the parser reading options.
pub proof fn lemma_step_keeps_reading_options(st: ArgState, i: usize, tok: Seq<char>)
    requires
        !st.positional_only,
        tok != "--"@,
    ensures
        !step(st, i, tok).positional_only,
{
    lemma_cluster_keeps_command(st, i, tok, 1);
}

/// Arguments that agree from index `i` on are parsed alike from there.
pub proof fn lemma_run_same_rest(st: ArgState, args: Seq<Seq<char>>, other: Seq<Seq<char>>, i: nat)
    requires
        args.len() == other.len(),
        forall|j: int| i <= j < args.len() ==> args[j] == other[j],
    ensures
        run(st, args, i) == run(st, other, i),
    decreases args.len() - i,
{
    if i < args.len() {
        lemma_run_same_rest(step(st, i as usize, args[i as int]), args, other, i + 1);
    }
}

/// Replacing the argument at `k` by one that every state still reading
/// options treats alike gives the same parse, when no `--` comes before it.
pub proof fn lemma_run_replace(st: ArgState, args: Seq<Seq<char>>, i: nat, k: int, tok: Seq<char>)
    requires
        i <= k < args.len(),
        !st.positional_only,
        forall|j: int| i <= j < k ==> args[j] != "--"@,
        forall|s: ArgState| !s.positional_only ==> #[trigger] step(s, k as usize, args[k]) == step(s, k as usize, tok),
    ensures
        run(st, args, i) == run(st, args.update(k, tok), i),
    decreases k - i,
{
    let other = args.update(k, tok);
    if i < k {
        lemma_step_keeps_reading_options(st, i as usize, args[i as int]);
        lemma_run_replace(step(st, i as usize, args[i as int]), args, i + 1, k, tok);
    } else {
        let s1 = step(st, k as usize, args[k]);
        assert(s1 == step(st, k as usize, tok));
        lemma_run_same_rest(s1, args, other, i + 1);
    }
}

/// `-v` and `--verbose` are the same flag: on every state still reading
/// options they have the same effect, which raises the verbosity by one
/// (stopping at 255) and changes nothing else.
pub proof fn lemma_verbose_spellings(st: ArgState, i: usize)
    requires
        !st.positional_only,
    ensures
        step(st, i, "-v"@) == step(st, i, "--verbose"@),
        st.error is None && st.awaiting_ports is None ==> step(st, i, "--verbose"@) == (ArgState {
            verbosity: saturating_inc(st.verbosity),
            ..st
        }),
{
    reveal_strlit("-v");
    reveal_strlit("--verbose");
    reveal_strlit("verbose");
    reveal_strlit("--");
    reveal_strlit("ports");
    reveal_strlit("help");
    reveal_strlit("no-banner");
    reveal_strlit("no-dns");
    reveal_strlit("redact");
    reveal_strlit("quiet");
    let tok = "--verbose"@;
    let body = tok.skip(2);
    assert(body =~= "verbose"@);
    lemma_index_of_prefix(body, '=', 7);
    assert(body.skip(7) =~= Seq::<char>::empty());
    assert(body.take(7) =~= "verbose"@);
    let short = "-v"@;
    assert(short[1] == 'v');
    if st.error is None && st.awaiting_ports is None {
        let s2 = apply_short(st, i, 'v');
        assert(apply_cluster(s2, i, short, 2) == s2);
        assert(apply_cluster(st, i, short, 1) == s2);
    }
}

/// `-q` and `--quiet` are the same flag: on every state still reading
/// options they have the same effect, which raises the quiet level by one
/// (stopping at 255) and changes nothing else.
pub proof fn lemma_quiet_spellings(st: ArgState, i: usize)
    requires
        !st.positional_only,
    ensures
        step(st, i, "-q"@) == step(st, i, "--quiet"@),
        st.error is None && st.awaiting_ports is None ==> step(st, i, "--quiet"@) == (ArgState {
            quiet: saturating_inc(st.quiet),
            ..st
        }),
{
    reveal_strlit("-q");
    reveal_strlit("--quiet");
    reveal_strlit("quiet");
    reveal_strlit("--");
    reveal_strlit("ports");
    reveal_strlit("help");
    reveal_strlit("no-banner");
    reveal_strlit("no-dns");
    reveal_strlit("redact");
    let tok = "--quiet"@;
    let body = tok.skip(2);
    assert(body =~= "quiet"@);
    lemma_index_of_prefix(body, '=', 5);
    assert(body.skip(5) =~= Seq::<char>::empty());
    assert(body.take(5) =~= "quiet"@);
    let short = "-q"@;
    assert(short[1] == 'q');
    if st.error is None && st.awaiting_ports is None {
        let s2 = apply_short(st, i, 'q');
        assert(apply_cluster(s2, i, short, 2) == s2);
        assert(apply_cluster(st, i, short, 1) == s2);
    }
}

/// Writing `--verbose` for a `-v` that comes before any `--` gives the same
/// command line (or the same error).
pub proof fn lemma_parse_verbose_spelling(args: Seq<Seq<char>>, k: int)
    requires
        1 <= k < args.len(),
        args[k] == "-v"@,
        forall|j: int| 1 <= j < k ==> args[j] != "--"@,
    ensures
        parsed(args) == parsed(args.update(k, "--verbose"@)),
{
    assert forall|s: ArgState| !s.positional_only implies #[trigger] step(s, k as usize, args[k]) == step(
        s,
        k as usize,
        "--verbose"@,
    ) by {
        lemma_verbose_spellings(s, k as usize);
    }
    lemma_run_replace(initial_state(), args, 1, k, "--verbose"@);
}

/// Writing `--quiet` for a `-q` that comes before any `--` gives the same
/// command line (or the same error).
pub proof fn lemma_parse_quiet_spelling(args: Seq<Seq<char>>, k: int)
    requires
        1 <= k < args.len(),
        args[k] == "-q"@,
        forall|j: int| 1 <= j < k ==> args[j] != "--"@,
    ensures
        parsed(args) == parsed(args.update(k, "--quiet"@)),
{
    assert forall|s: ArgState| !s.positional_only implies #[trigger] step(s, k as usize, args[k]) == step(
        s,
        k as usize,
        "--quiet"@,
    ) by {
        lemma_quiet_spellings(s, k as usize);
    }
    lemma_run_replace(initial_state(), args, 1, k, "--quiet"@);
}

/// Each subcommand is chosen alike by its full name and by its alias
/// (`info`/`i`, `listen`/`l`, `discover`/`d`, `scan`/`s`): before any
/// subcommand, either one selects it and changes nothing else.
pub proof fn lemma_subcommand_names(st: ArgState, i: usize)
    requires
        st.command is None,
        st.error is None,
        st.awaiting_ports is None,
    ensures
        step(st, i, "info"@) == step(st, i, "i"@),
        step(st, i, "i"@) == (ArgState { command: Some(Sub::Info), ..st }),
        step(st, i, "listen"@) == step(st, i, "l"@),
        step(st, i, "l"@) == (ArgState { command: Some(Sub::Listen), ..st }),
        step(st, i, "discover"@) == step(st, i, "d"@),
        step(st, i, "d"@) == (ArgState { command: Some(Sub::Discover), ..st }),
        step(st, i, "scan"@) == step(st, i, "s"@),
        step(st, i, "s"@) == (ArgState { command: Some(Sub::Scan), ..st }),
{
    reveal_strlit("info");
    reveal_strlit("i");
    reveal_strlit("listen");
    reveal_strlit("l");
    reveal_strlit("discover");
    reveal_strlit("d");
    reveal_strlit("scan");
    reveal_strlit("s");
    reveal_strlit("--");
    reveal_strlit("help");
}

} // verus!

