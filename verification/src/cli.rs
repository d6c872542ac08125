//! The command line: `lerobot-mcp [OPTIONS] [COMMAND]`.
//!
//! Options: `-t`/`--transport <stdio|http>` (default stdio), `-p`/`--port
//! <PORT>` (default 8080), `--hf-token <HF_TOKEN>` (else the `HF_TOKEN`
//! environment variable), `--cache-dir <CACHE_DIR>` (else
//! `LEROBOT_MCP_CACHE_DIR`, else `~/.cache/lerobot-mcp`), `--cache-ttl
//! <CACHE_TTL>` (default 300), `-l`/`--log-format <pretty|json>` (default
//! pretty), `-h`/`--help`, `-V`/`--version`.
//!
//! Commands: `serve` (start the MCP server, also the default), `search
//! <QUERY> [--robot-type <ROBOT_TYPE>] [--min-episodes <MIN_EPISODES>]
//! [--limit <LIMIT>]` (default limit 10), and `help [COMMAND]`. `-h` and
//! `--help` ask for the help of the command they follow.
//!
//! An option's value is attached (`--port=3000`, `-p3000`, `-p=3000`) or is
//! the next argument, which must not look like an option. An option may be
//! given once. `--` ends the options. Numbers are read as Rust reads them
//! (an optional `+`; for the 16- and 32-bit ones also an optional `-`, so
//! that "-0" is 0) and must be in range.

use vstd::prelude::*;

use crate::text::{char_range, chars_of, decimal, digit_char, find_char, first_index_of, spells, string_from_chars};

verus! {

/// How the server talks to its client.
#[derive(Debug, Clone, Copy, PartialEq, Eq, Structural)]
pub enum Transport {
    /// Over stdin/stdout (the default, for local MCP clients).
    Stdio,
    /// Over HTTP (for remote clients).
    Http,
}

/// The format of log output.
#[derive(Debug, Clone, Copy, PartialEq, Eq, Structural)]
pub enum LogFormat {
    Pretty,
    Json,
}

/// What to run.
#[derive(Debug)]
pub enum Command {
    /// Start the MCP server.
    Serve,
    /// Search datasets directly (no MCP server).
    Search {
        /// Search query.
        query: String,
        /// Filter by robot type.
        robot_type: Option<String>,
        /// Minimum episodes.
        min_episodes: Option<u32>,
        /// Max results.
        limit: u32,
    },
}

/// The parsed command line.
#[derive(Debug)]
pub struct Cli {
    pub command: Option<Command>,
    /// Transport mode.
    pub transport: Transport,
    /// Port for HTTP transport (ignored for stdio).
    pub port: u16,
    /// Hugging Face API token (for private/gated datasets).
    pub hf_token: Option<String>,
    /// Cache directory.
    pub cache_dir: String,
    /// Default cache TTL in seconds.
    pub cache_ttl: u64,
    /// Log output format.
    pub log_format: LogFormat,
}

/// An option that takes a value.
#[derive(Debug, Clone, Copy, PartialEq, Eq, Structural)]
pub enum CliOption {
    Transport,
    Port,
    HfToken,
    CacheDir,
    CacheTtl,
    LogFormat,
    RobotType,
    MinEpisodes,
    Limit,
}

/// The command whose help is asked for.
#[derive(Debug, Clone, Copy, PartialEq, Eq, Structural)]
pub enum HelpTopic {
    /// The program as a whole.
    Main,
    /// The `serve` command.
    Serve,
    /// The `search` command.
    Search,
    /// The `help` command.
    Help,
}

/// Why a command line was not accepted.
#[derive(Debug)]
pub enum CliError {
    /// Help was asked for (`-h`, `--help`, `help`), on a command.
    HelpRequested(HelpTopic),
    /// The version was asked for (`-V`, `--version`).
    VersionRequested,
    /// An argument that has no place here.
    UnexpectedArgument(String),
    /// An option without its value.
    MissingValue(CliOption),
    /// An option with a value it does not take.
    InvalidValue(CliOption, String),
    /// An option given twice.
    RepeatedArgument(CliOption),
    /// `search` without its query.
    MissingQuery,
    /// `help` followed by a name that is not a command.
    UnrecognizedSubcommand(String),
}

/// `CliError` as plain values.
pub ghost enum CliErrorView {
    HelpRequested(HelpTopic),
    VersionRequested,
    UnexpectedArgument(Seq<char>),
    MissingValue(CliOption),
    InvalidValue(CliOption, Seq<char>),
    RepeatedArgument(CliOption),
    MissingQuery,
    UnrecognizedSubcommand(Seq<char>),
}

impl View for CliError {
    type V = CliErrorView;

    open spec fn view(&self) -> CliErrorView {
        match self {
            CliError::HelpRequested(t) => CliErrorView::HelpRequested(*t),
            CliError::VersionRequested => CliErrorView::VersionRequested,
            CliError::UnexpectedArgument(a) => CliErrorView::UnexpectedArgument(a@),
            CliError::MissingValue(o) => CliErrorView::MissingValue(*o),
            CliError::InvalidValue(o, v) => CliErrorView::InvalidValue(*o, v@),
            CliError::RepeatedArgument(o) => CliErrorView::RepeatedArgument(*o),
            CliError::MissingQuery => CliErrorView::MissingQuery,
            CliError::UnrecognizedSubcommand(a) => CliErrorView::UnrecognizedSubcommand(a@),
        }
    }
}

/// `Command` as plain values.
pub ghost enum CommandView {
    Serve,
    Search { query: Seq<char>, robot_type: Option<Seq<char>>, min_episodes: Option<u32>, limit: u32 },
}

/// `Cli` as plain values.
pub ghost struct CliView {
    pub command: Option<CommandView>,
    pub transport: Transport,
    pub port: u16,
    pub hf_token: Option<Seq<char>>,
    pub cache_dir: Seq<char>,
    pub cache_ttl: u64,
    pub log_format: LogFormat,
}

/// The text of an optional string.
pub open spec fn text_of(o: Option<String>) -> Option<Seq<char>> {
    match o {
        Some(s) => Some(s@),
        None => None,
    }
}

impl View for Cli {
    type V = CliView;

    open spec fn view(&self) -> CliView {
        CliView {
            command: match self.command {
                None => None,
                Some(Command::Serve) => Some(CommandView::Serve),
                Some(Command::Search { query, robot_type, min_episodes, limit }) => Some(
                    CommandView::Search { query: query@, robot_type: text_of(robot_type), min_episodes, limit },
                ),
            },
            transport: self.transport,
            port: self.port,
            hf_token: text_of(self.hf_token),
            cache_dir: self.cache_dir@,
            cache_ttl: self.cache_ttl,
            log_format: self.log_format,
        }
    }
}

/// Where on the command line the parser is.
#[derive(Debug, Clone, Copy, PartialEq, Eq, Structural)]
pub enum Phase {
    /// Before any command.
    Top,
    /// After `serve`.
    Serve,
    /// After `search`.
    Search,
}

/// What has been read so far, as plain values.
pub ghost struct ParseView {
    pub phase: Phase,
    /// `--` was read in the current phase.
    pub escaped: bool,
    /// The option whose value comes next.
    pub pending: Option<CliOption>,
    pub transport: Option<Transport>,
    pub port: Option<u16>,
    pub hf_token: Option<Seq<char>>,
    pub cache_dir: Option<Seq<char>>,
    pub cache_ttl: Option<u64>,
    pub log_format: Option<LogFormat>,
    pub query: Option<Seq<char>>,
    pub robot_type: Option<Seq<char>>,
    pub min_episodes: Option<u32>,
    pub limit: Option<u32>,
}

/// Nothing read yet.
pub open spec fn initial_parse() -> ParseView {
    ParseView {
        phase: Phase::Top,
        escaped: false,
        pending: None,
        transport: None,
        port: None,
        hf_token: None,
        cache_dir: None,
        cache_ttl: None,
        log_format: None,
        query: None,
        robot_type: None,
        min_episodes: None,
        limit: None,
    }
}

/// A decimal digit.
pub open spec fn is_digit(c: char) -> bool {
    '0' <= c <= '9'
}

/// One or more decimal digits.
pub open spec fn all_digits(s: Seq<char>) -> bool {
    s.len() > 0 && forall|i: int| 0 <= i < s.len() ==> is_digit(#[trigger] s[i])
}

/// The value of a string of decimal digits.
pub open spec fn digits_value(s: Seq<char>) -> nat
    decreases s.len(),
{
    if s.len() == 0 {
        0
    } else {
        digits_value(s.drop_last()) * 10 + ((s.last() as int) - ('0' as int)) as nat
    }
}

/// The number a text gives when read as `i64` (an optional sign and
/// digits), where it lies in `0..=max`.
pub open spec fn signed_number(t: Seq<char>, max: nat) -> Option<nat> {
    let negative = t.len() > 0 && t[0] == '-';
    let digits = if t.len() > 0 && (t[0] == '-' || t[0] == '+') {
        t.skip(1)
    } else {
        t
    };
    if !all_digits(digits) {
        None
    } else if negative {
        if digits_value(digits) == 0 {
            Some(0)
        } else {
            None
        }
    } else if digits_value(digits) <= max {
        Some(digits_value(digits))
    } else {
        None
    }
}

/// The number a text gives when read as `u64` (an optional `+` and digits).
pub open spec fn unsigned_number(t: Seq<char>) -> Option<nat> {
    let digits = if t.len() > 0 && t[0] == '+' {
        t.skip(1)
    } else {
        t
    };
    if all_digits(digits) && digits_value(digits) <= u64::MAX {
        Some(digits_value(digits))
    } else {
        None
    }
}

/// The transport a value names.
pub open spec fn transport_named(v: Seq<char>) -> Option<Transport> {
    if v == "stdio"@ {
        Some(Transport::Stdio)
    } else if v == "http"@ {
        Some(Transport::Http)
    } else {
        None
    }
}

/// The log format a value names.
pub open spec fn log_format_named(v: Seq<char>) -> Option<LogFormat> {
    if v == "pretty"@ {
        Some(LogFormat::Pretty)
    } else if v == "json"@ {
        Some(LogFormat::Json)
    } else {
        None
    }
}

/// The option has been given already.
pub open spec fn given(s: ParseView, o: CliOption) -> bool {
    match o {
        CliOption::Transport => s.transport is Some,
        CliOption::Port => s.port is Some,
        CliOption::HfToken => s.hf_token is Some,
        CliOption::CacheDir => s.cache_dir is Some,
        CliOption::CacheTtl => s.cache_ttl is Some,
        CliOption::LogFormat => s.log_format is Some,
        CliOption::RobotType => s.robot_type is Some,
        CliOption::MinEpisodes => s.min_episodes is Some,
        CliOption::Limit => s.limit is Some,
    }
}

/// Records the value `v` of option `o` (no option is pending in `s`).
pub open spec fn assign(s: ParseView, o: CliOption, v: Seq<char>) -> Result<ParseView, CliErrorView> {
    if given(s, o) {
        Err(CliErrorView::RepeatedArgument(o))
    } else {
        match o {
            CliOption::Transport => match transport_named(v) {
                Some(t) => Ok(ParseView { transport: Some(t), ..s }),
                None => Err(CliErrorView::InvalidValue(o, v)),
            },
            CliOption::LogFormat => match log_format_named(v) {
                Some(f) => Ok(ParseView { log_format: Some(f), ..s }),
                None => Err(CliErrorView::InvalidValue(o, v)),
            },
            CliOption::Port => match signed_number(v, u16::MAX as nat) {
                Some(n) => Ok(ParseView { port: Some(n as u16), ..s }),
                None => Err(CliErrorView::InvalidValue(o, v)),
            },
            CliOption::CacheTtl => match unsigned_number(v) {
                Some(n) => Ok(ParseView { cache_ttl: Some(n as u64), ..s }),
                None => Err(CliErrorView::InvalidValue(o, v)),
            },
            CliOption::MinEpisodes => match signed_number(v, u32::MAX as nat) {
                Some(n) => Ok(ParseView { min_episodes: Some(n as u32), ..s }),
                None => Err(CliErrorView::InvalidValue(o, v)),
            },
            CliOption::Limit => match signed_number(v, u32::MAX as nat) {
                Some(n) => Ok(ParseView { limit: Some(n as u32), ..s }),
                None => Err(CliErrorView::InvalidValue(o, v)),
            },
            CliOption::HfToken => Ok(ParseView { hf_token: Some(v), ..s }),
            CliOption::CacheDir => if v.len() == 0 {
                Err(CliErrorView::MissingValue(o))
            } else {
                Ok(ParseView { cache_dir: Some(v), ..s })
            },
            CliOption::RobotType => Ok(ParseView { robot_type: Some(v), ..s }),
        }
    }
}

/// The option a long name stands for in a phase.
pub open spec fn long_option(phase: Phase, name: Seq<char>) -> Option<CliOption> {
    match phase {
        Phase::Top => if name == "transport"@ {
            Some(CliOption::Transport)
        } else if name == "port"@ {
            Some(CliOption::Port)
        } else if name == "hf-token"@ {
            Some(CliOption::HfToken)
        } else if name == "cache-dir"@ {
            Some(CliOption::CacheDir)
        } else if name == "cache-ttl"@ {
            Some(CliOption::CacheTtl)
        } else if name == "log-format"@ {
            Some(CliOption::LogFormat)
        } else {
            None
        },
        Phase::Search => if name == "robot-type"@ {
            Some(CliOption::RobotType)
        } else if name == "min-episodes"@ {
            Some(CliOption::MinEpisodes)
        } else if name == "limit"@ {
            Some(CliOption::Limit)
        } else {
            None
        },
        Phase::Serve => None,
    }
}

/// The option a short name stands for in a phase.
pub open spec fn short_option(phase: Phase, c: char) -> Option<CliOption> {
    match phase {
        Phase::Top => if c == 't' {
            Some(CliOption::Transport)
        } else if c == 'p' {
            Some(CliOption::Port)
        } else if c == 'l' {
            Some(CliOption::LogFormat)
        } else {
            None
        },
        _ => None,
    }
}

/// An argument that can be an option's value: it does not look like an
/// option (a lone `-` does not).
pub open spec fn is_value(t: Seq<char>) -> bool {
    !(t.len() > 1 && t[0] == '-')
}

/// An argument that is neither an option nor `--`.
pub open spec fn positional(s: ParseView, t: Seq<char>) -> Result<ParseView, CliErrorView> {
    match s.phase {
        Phase::Top => if !s.escaped && t == "serve"@ {
            Ok(ParseView { phase: Phase::Serve, ..s })
        } else if !s.escaped && t == "search"@ {
            Ok(ParseView { phase: Phase::Search, ..s })
        } else {
            Err(CliErrorView::UnexpectedArgument(t))
        },
        Phase::Serve => Err(CliErrorView::UnexpectedArgument(t)),
        Phase::Search => if s.query is None {
            Ok(ParseView { query: Some(t), ..s })
        } else {
            Err(CliErrorView::UnexpectedArgument(t))
        },
    }
}

/// The command that `-h` or `--help` asks about, read in a phase.
pub open spec fn phase_topic(phase: Phase) -> HelpTopic {
    match phase {
        Phase::Top => HelpTopic::Main,
        Phase::Serve => HelpTopic::Serve,
        Phase::Search => HelpTopic::Search,
    }
}

/// The command a command name stands for.
pub open spec fn command_topic(t: Seq<char>) -> HelpTopic {
    if t == "serve"@ {
        HelpTopic::Serve
    } else if t == "search"@ {
        HelpTopic::Search
    } else {
        HelpTopic::Help
    }
}

/// A long option `--name` or `--name=value` (with `body` after the dashes).
pub open spec fn long_arg(s: ParseView, t: Seq<char>, body: Seq<char>) -> Result<ParseView, CliErrorView> {
    let (name, value) = match first_index_of(body, '=') {
        Some(i) => (body.take(i), Some(body.skip(i + 1))),
        None => (body, None),
    };
    if name == "help"@ && value is None {
        Err(CliErrorView::HelpRequested(phase_topic(s.phase)))
    } else if name == "version"@ && value is None && s.phase == Phase::Top {
        Err(CliErrorView::VersionRequested)
    } else {
        match long_option(s.phase, name) {
            Some(o) => match value {
                Some(v) => assign(s, o, v),
                None => Ok(ParseView { pending: Some(o), ..s }),
            },
            None => Err(CliErrorView::UnexpectedArgument(t)),
        }
    }
}

/// A short option `-c`, `-cvalue` or `-c=value` (`t` has at least two characters).
pub open spec fn short_arg(s: ParseView, t: Seq<char>) -> Result<ParseView, CliErrorView> {
    let c = t[1];
    let rest = t.skip(2);
    if c == 'h' {
        Err(CliErrorView::HelpRequested(phase_topic(s.phase)))
    } else if c == 'V' && s.phase == Phase::Top {
        Err(CliErrorView::VersionRequested)
    } else {
        match short_option(s.phase, c) {
            Some(o) => if rest.len() == 0 {
                Ok(ParseView { pending: Some(o), ..s })
            } else if rest[0] == '=' {
                assign(s, o, rest.skip(1))
            } else {
                assign(s, o, rest)
            },
            None => Err(CliErrorView::UnexpectedArgument(t)),
        }
    }
}

/// Reads one argument.
pub open spec fn parse_step(s: ParseView, t: Seq<char>) -> Result<ParseView, CliErrorView> {
    match s.pending {
        Some(o) => if is_value(t) {
            assign(ParseView { pending: None, ..s }, o, t)
        } else {
            Err(CliErrorView::MissingValue(o))
        },
        None => if s.escaped {
            positional(s, t)
        } else if t == "--"@ {
            Ok(ParseView { escaped: true, ..s })
        } else if t.len() >= 2 && t[0] == '-' && t[1] == '-' {
            long_arg(s, t, t.skip(2))
        } else if t.len() >= 2 && t[0] == '-' {
            short_arg(s, t)
        } else {
            positional(s, t)
        },
    }
}

/// The names of the commands: `serve`, `search` and `help`.
pub open spec fn is_command_name(t: Seq<char>) -> bool {
    t == "serve"@ || t == "search"@ || t == "help"@
}

/// The `help` command is read here: before any command, outside `--`, and
/// not as an option's value.
pub open spec fn starts_help(s: ParseView, t: Seq<char>) -> bool {
    s.pending is None && !s.escaped && s.phase == Phase::Top && t == "help"@
}

/// What `help` followed by `rest` answers: the program's help where `rest` is
/// empty, a command's help where it names one command (which has no commands
/// of its own); else the first name that is not a command there.
pub open spec fn help_answer(rest: Seq<Seq<char>>) -> CliErrorView {
    if rest.len() == 0 {
        CliErrorView::HelpRequested(HelpTopic::Main)
    } else if !is_command_name(rest[0]) {
        CliErrorView::UnrecognizedSubcommand(rest[0])
    } else if rest.len() == 1 {
        CliErrorView::HelpRequested(command_topic(rest[0]))
    } else {
        CliErrorView::UnrecognizedSubcommand(rest[1])
    }
}

/// Reads the arguments in order, stopping at the first that is refused; the
/// `help` command takes every argument after it.
pub open spec fn parse_all(s: ParseView, args: Seq<Seq<char>>) -> Result<ParseView, CliErrorView>
    decreases args.len(),
{
    if args.len() == 0 {
        Ok(s)
    } else if starts_help(s, args[0]) {
        Err(help_answer(args.drop_first()))
    } else {
        match parse_step(s, args[0]) {
            Ok(next) => parse_all(next, args.drop_first()),
            Err(e) => Err(e),
        }
    }
}

/// The command line once every argument has been read: defaults, then the
/// environment's token and cache directory where the options are absent.
pub open spec fn finish(
    s: ParseView,
    env_token: Option<Seq<char>>,
    env_cache_dir: Option<Seq<char>>,
) -> Result<CliView, CliErrorView> {
    if s.pending is Some {
        Err(CliErrorView::MissingValue(s.pending->0))
    } else if s.phase == Phase::Search && s.query is None {
        Err(CliErrorView::MissingQuery)
    } else if s.cache_dir is None && env_cache_dir == Some(Seq::<char>::empty()) {
        Err(CliErrorView::MissingValue(CliOption::CacheDir))
    } else {
        Ok(
            CliView {
                command: match s.phase {
                    Phase::Top => None,
                    Phase::Serve => Some(CommandView::Serve),
                    Phase::Search => Some(
                        CommandView::Search {
                            query: s.query->0,
                            robot_type: s.robot_type,
                            min_episodes: s.min_episodes,
                            limit: match s.limit {
                                Some(l) => l,
                                None => 10,
                            },
                        },
                    ),
                },
                transport: match s.transport {
                    Some(t) => t,
                    None => Transport::Stdio,
                },
                port: match s.port {
                    Some(p) => p,
                    None => 8080,
                },
                hf_token: match s.hf_token {
                    Some(t) => Some(t),
                    None => env_token,
                },
                cache_dir: match s.cache_dir {
                    Some(d) => d,
                    None => match env_cache_dir {
                        Some(d) => d,
                        None => "~/.cache/lerobot-mcp"@,
                    },
                },
                cache_ttl: match s.cache_ttl {
                    Some(n) => n,
                    None => 300,
                },
                log_format: match s.log_format {
                    Some(f) => f,
                    None => LogFormat::Pretty,
                },
            },
        )
    }
}

/// The command line `args` (the first being the program's name) stands for.
pub open spec fn cli_of(
    args: Seq<Seq<char>>,
    env_token: Option<Seq<char>>,
    env_cache_dir: Option<Seq<char>>,
) -> Result<CliView, CliErrorView> {
    let rest = if args.len() > 0 {
        args.drop_first()
    } else {
        args
    };
    match parse_all(initial_parse(), rest) {
        Ok(s) => finish(s, env_token, env_cache_dir),
        Err(e) => Err(e),
    }
}

} // verus!

verus! {

proof fn lemma_digits_prefix(s: Seq<char>, k: int)
    requires
        0 <= k <= s.len(),
    ensures
        digits_value(s.take(k)) <= digits_value(s),
    decreases s.len() - k,
{
    if k < s.len() {
        lemma_digits_prefix(s, k + 1);
        assert(s.take(k + 1).drop_last() =~= s.take(k));
    } else {
        assert(s.take(k) =~= s);
    }
}

/// The value of the digits `cs[from..]`, where they are one or more digits
/// with a value of at most `max`.
fn digits_number(cs: &Vec<char>, from: usize, max: u64) -> (r: Option<u64>)
    requires
        from <= cs@.len(),
    ensures
        match r {
            Some(n) => all_digits(cs@.skip(from as int)) && digits_value(cs@.skip(from as int)) == n && n <= max,
            None => !(all_digits(cs@.skip(from as int)) && digits_value(cs@.skip(from as int)) <= max),
        },
{
    let n = cs.len();
    if from == n {
        return None;
    }
    let ghost d = cs@.skip(from as int);
    let mut acc: u64 = 0;
    let mut i = from;
    while i < n
        invariant
            from <= i <= n == cs@.len(),
            d == cs@.skip(from as int),
            acc <= max,
            acc == digits_value(d.take(i - from)),
            forall|j: int| 0 <= j < i - from ==> is_digit(#[trigger] d[j]),
        decreases n - i,
    {
        let c = cs[i];
        assert(d[i - from] == c);
        if !('0' <= c && c <= '9') {
            assert(!is_digit(d[i - from]));
            return None;
        }
        assert(d.take(i - from + 1).drop_last() =~= d.take(i - from));
        let next: u128 = (acc as u128) * 10 + ((c as u32) - ('0' as u32)) as u128;
        assert(next == digits_value(d.take(i - from + 1)));
        if next > max as u128 {
            proof {
                lemma_digits_prefix(d, i - from + 1);
            }
            return None;
        }
        acc = next as u64;
        i = i + 1;
    }
    assert(d.take(i - from) =~= d);
    Some(acc)
}

/// A value read as `i64`, where it lies in `0..=max`.
fn signed_value(cs: &Vec<char>, max: u64) -> (r: Option<u64>)
    ensures
        match r {
            Some(v) => signed_number(cs@, max as nat) == Some(v as nat),
            None => signed_number(cs@, max as nat) is None,
        },
{
    let n = cs.len();
    if n > 0 && cs[0] == '-' {
        match digits_number(cs, 1, 0) {
            Some(_) => Some(0),
            None => None,
        }
    } else if n > 0 && cs[0] == '+' {
        digits_number(cs, 1, max)
    } else {
        assert(cs@.skip(0) =~= cs@);
        digits_number(cs, 0, max)
    }
}

/// A value read as `u64`.
fn unsigned_value(cs: &Vec<char>) -> (r: Option<u64>)
    ensures
        match r {
            Some(v) => unsigned_number(cs@) == Some(v as nat),
            None => unsigned_number(cs@) is None,
        },
{
    let n = cs.len();
    if n > 0 && cs[0] == '+' {
        digits_number(cs, 1, u64::MAX)
    } else {
        assert(cs@.skip(0) =~= cs@);
        digits_number(cs, 0, u64::MAX)
    }
}

} // verus!

verus! {

/// What has been read of a command line so far.
struct ParseState {
    phase: Phase,
    escaped: bool,
    pending: Option<CliOption>,
    transport: Option<Transport>,
    port: Option<u16>,
    hf_token: Option<String>,
    cache_dir: Option<String>,
    cache_ttl: Option<u64>,
    log_format: Option<LogFormat>,
    query: Option<String>,
    robot_type: Option<String>,
    min_episodes: Option<u32>,
    limit: Option<u32>,
}

impl View for ParseState {
    type V = ParseView;

    closed spec fn view(&self) -> ParseView {
        ParseView {
            phase: self.phase,
            escaped: self.escaped,
            pending: self.pending,
            transport: self.transport,
            port: self.port,
            hf_token: text_of(self.hf_token),
            cache_dir: text_of(self.cache_dir),
            cache_ttl: self.cache_ttl,
            log_format: self.log_format,
            query: text_of(self.query),
            robot_type: text_of(self.robot_type),
            min_episodes: self.min_episodes,
            limit: self.limit,
        }
    }
}

/// The outcome of a step, compared with what the grammar says.
pub open spec fn step_agrees(r: Result<(), CliError>, after: ParseView, expected: Result<ParseView, CliErrorView>) -> bool {
    match r {
        Ok(()) => expected == Ok::<ParseView, CliErrorView>(after),
        Err(e) => expected == Err::<ParseView, CliErrorView>(e@),
    }
}

impl ParseState {
    fn new() -> (s: ParseState)
        ensures
            s@ == initial_parse(),
    {
        ParseState {
            phase: Phase::Top,
            escaped: false,
            pending: None,
            transport: None,
            port: None,
            hf_token: None,
            cache_dir: None,
            cache_ttl: None,
            log_format: None,
            query: None,
            robot_type: None,
            min_episodes: None,
            limit: None,
        }
    }

    fn is_given(&self, o: CliOption) -> (b: bool)
        ensures
            b == given(self@, o),
    {
        match o {
            CliOption::Transport => self.transport.is_some(),
            CliOption::Port => self.port.is_some(),
            CliOption::HfToken => self.hf_token.is_some(),
            CliOption::CacheDir => self.cache_dir.is_some(),
            CliOption::CacheTtl => self.cache_ttl.is_some(),
            CliOption::LogFormat => self.log_format.is_some(),
            CliOption::RobotType => self.robot_type.is_some(),
            CliOption::MinEpisodes => self.min_episodes.is_some(),
            CliOption::Limit => self.limit.is_some(),
        }
    }

    /// Records the value `v` of option `o`.
    fn assign(&mut self, o: CliOption, v: &Vec<char>) -> (r: Result<(), CliError>)
        ensures
            step_agrees(r, final(self)@, assign(old(self)@, o, v@)),
    {
        if self.is_given(o) {
            return Err(CliError::RepeatedArgument(o));
        }
        match o {
            CliOption::Transport => {
                if spells(v, "stdio") {
                    self.transport = Some(Transport::Stdio);
                } else if spells(v, "http") {
                    self.transport = Some(Transport::Http);
                } else {
                    return Err(CliError::InvalidValue(o, string_from_chars(v)));
                }
            },
            CliOption::LogFormat => {
                if spells(v, "pretty") {
                    self.log_format = Some(LogFormat::Pretty);
                } else if spells(v, "json") {
                    self.log_format = Some(LogFormat::Json);
                } else {
                    return Err(CliError::InvalidValue(o, string_from_chars(v)));
                }
            },
            CliOption::Port => match signed_value(v, 65535) {
                Some(n) => {
                    self.port = Some(n as u16);
                },
                None => {
                    return Err(CliError::InvalidValue(o, string_from_chars(v)));
                },
            },
            CliOption::CacheTtl => match unsigned_value(v) {
                Some(n) => {
                    self.cache_ttl = Some(n);
                },
                None => {
                    return Err(CliError::InvalidValue(o, string_from_chars(v)));
                },
            },
            CliOption::MinEpisodes => match signed_value(v, 4294967295) {
                Some(n) => {
                    self.min_episodes = Some(n as u32);
                },
                None => {
                    return Err(CliError::InvalidValue(o, string_from_chars(v)));
                },
            },
            CliOption::Limit => match signed_value(v, 4294967295) {
                Some(n) => {
                    self.limit = Some(n as u32);
                },
                None => {
                    return Err(CliError::InvalidValue(o, string_from_chars(v)));
                },
            },
            CliOption::HfToken => {
                self.hf_token = Some(string_from_chars(v));
            },
            CliOption::CacheDir => {
                if v.len() == 0 {
                    return Err(CliError::MissingValue(o));
                }
                self.cache_dir = Some(string_from_chars(v));
            },
            CliOption::RobotType => {
                self.robot_type = Some(string_from_chars(v));
            },
        }
        Ok(())
    }
}

} // verus!

verus! {

impl ParseState {
    /// Reads an argument that is neither an option nor `--`.
    fn positional(&mut self, t: &Vec<char>) -> (r: Result<(), CliError>)
        ensures
            step_agrees(r, final(self)@, positional(old(self)@, t@)),
    {
        match self.phase {
            Phase::Top => {
                if !self.escaped && spells(t, "serve") {
                    self.phase = Phase::Serve;
                    Ok(())
                } else if !self.escaped && spells(t, "search") {
                    self.phase = Phase::Search;
                    Ok(())
                } else {
                    Err(CliError::UnexpectedArgument(string_from_chars(t)))
                }
            },
            Phase::Serve => Err(CliError::UnexpectedArgument(string_from_chars(t))),
            Phase::Search => {
                if self.query.is_none() {
                    self.query = Some(string_from_chars(t));
                    Ok(())
                } else {
                    Err(CliError::UnexpectedArgument(string_from_chars(t)))
                }
            },
        }
    }

    /// The command that `-h` or `--help` asks about here.
    fn topic(&self) -> (t: HelpTopic)
        ensures
            t == phase_topic(self@.phase),
    {
        match self.phase {
            Phase::Top => HelpTopic::Main,
            Phase::Serve => HelpTopic::Serve,
            Phase::Search => HelpTopic::Search,
        }
    }

    /// The option a long name stands for here.
    fn long_option(&self, name: &Vec<char>) -> (r: Option<CliOption>)
        ensures
            r == long_option(self@.phase, name@),
    {
        match self.phase {
            Phase::Top => {
                if spells(name, "transport") {
                    Some(CliOption::Transport)
                } else if spells(name, "port") {
                    Some(CliOption::Port)
                } else if spells(name, "hf-token") {
                    Some(CliOption::HfToken)
                } else if spells(name, "cache-dir") {
                    Some(CliOption::CacheDir)
                } else if spells(name, "cache-ttl") {
                    Some(CliOption::CacheTtl)
                } else if spells(name, "log-format") {
                    Some(CliOption::LogFormat)
                } else {
                    None
                }
            },
            Phase::Search => {
                if spells(name, "robot-type") {
                    Some(CliOption::RobotType)
                } else if spells(name, "min-episodes") {
                    Some(CliOption::MinEpisodes)
                } else if spells(name, "limit") {
                    Some(CliOption::Limit)
                } else {
                    None
                }
            },
            Phase::Serve => None,
        }
    }

    /// Reads a long option (`t` starts with `--` and is longer).
    fn long_arg(&mut self, t: &Vec<char>) -> (r: Result<(), CliError>)
        requires
            old(self)@.pending is None,
            t@.len() >= 2,
        ensures
            step_agrees(r, final(self)@, long_arg(old(self)@, t@, t@.skip(2))),
    {
        let body = char_range(t, 2, t.len());
        assert(body@ =~= t@.skip(2));
        let (name, value) = match find_char(&body, '=') {
            Some(i) => {
                let name = char_range(&body, 0, i);
                let value = char_range(&body, i + 1, body.len());
                assert(name@ =~= body@.take(i as int));
                assert(value@ =~= body@.skip(i + 1));
                (name, Some(value))
            },
            None => (body, None),
        };
        if spells(&name, "help") && value.is_none() {
            return Err(CliError::HelpRequested(self.topic()));
        }
        if spells(&name, "version") && value.is_none() && self.phase == Phase::Top {
            return Err(CliError::VersionRequested);
        }
        match self.long_option(&name) {
            Some(o) => match value {
                Some(v) => self.assign(o, &v),
                None => {
                    self.pending = Some(o);
                    Ok(())
                },
            },
            None => Err(CliError::UnexpectedArgument(string_from_chars(t))),
        }
    }

    /// Reads a short option (`t` starts with `-` and is longer).
    fn short_arg(&mut self, t: &Vec<char>) -> (r: Result<(), CliError>)
        requires
            old(self)@.pending is None,
            t@.len() >= 2,
        ensures
            step_agrees(r, final(self)@, short_arg(old(self)@, t@)),
    {
        let c = t[1];
        if c == 'h' {
            return Err(CliError::HelpRequested(self.topic()));
        }
        if c == 'V' && self.phase == Phase::Top {
            return Err(CliError::VersionRequested);
        }
        let option = match self.phase {
            Phase::Top => {
                if c == 't' {
                    Some(CliOption::Transport)
                } else if c == 'p' {
                    Some(CliOption::Port)
                } else if c == 'l' {
                    Some(CliOption::LogFormat)
                } else {
                    None
                }
            },
            _ => None,
        };
        match option {
            Some(o) => {
                if t.len() == 2 {
                    self.pending = Some(o);
                    Ok(())
                } else if t[2] == '=' {
                    let v = char_range(t, 3, t.len());
                    assert(v@ =~= t@.skip(2).skip(1));
                    self.assign(o, &v)
                } else {
                    let v = char_range(t, 2, t.len());
                    assert(v@ =~= t@.skip(2));
                    self.assign(o, &v)
                }
            },
            None => Err(CliError::UnexpectedArgument(string_from_chars(t))),
        }
    }

    /// Reads one argument.
    fn step(&mut self, arg: &str) -> (r: Result<(), CliError>)
        ensures
            step_agrees(r, final(self)@, parse_step(old(self)@, arg@)),
    {
        let t = chars_of(arg);
        match self.pending {
            Some(o) => {
                if !(t.len() > 1 && t[0] == '-') {
                    self.pending = None;
                    self.assign(o, &t)
                } else {
                    Err(CliError::MissingValue(o))
                }
            },
            None => {
                if self.escaped {
                    self.positional(&t)
                } else if spells(&t, "--") {
                    self.escaped = true;
                    Ok(())
                } else if t.len() >= 2 && t[0] == '-' && t[1] == '-' {
                    self.long_arg(&t)
                } else if t.len() >= 2 && t[0] == '-' {
                    self.short_arg(&t)
                } else {
                    self.positional(&t)
                }
            },
        }
    }
}

} // verus!

verus! {

/// The text of an optional `&str`.
pub open spec fn opt_str_text(o: Option<&str>) -> Option<Seq<char>> {
    match o {
        Some(s) => Some(s@),
        None => None,
    }
}

/// The texts of the arguments.
pub open spec fn arg_texts(args: Seq<&str>) -> Seq<Seq<char>> {
    args.map_values(|a: &str| a@)
}

/// An owned copy of an optional `&str`.
fn own(o: Option<&str>) -> (r: Option<String>)
    ensures
        text_of(r) == opt_str_text(o),
{
    match o {
        Some(s) => Some(string_from_chars(&chars_of(s))),
        None => None,
    }
}

/// What `help` followed by `args[from..]` answers.
fn help_error(args: &[&str], from: usize) -> (e: CliError)
    requires
        from <= args@.len(),
    ensures
        e@ == help_answer(arg_texts(args@).skip(from as int)),
{
    let ghost rest = arg_texts(args@).skip(from as int);
    if from == args.len() {
        return CliError::HelpRequested(HelpTopic::Main);
    }
    let first = chars_of(args[from]);
    assert(rest[0] == args@[from as int]@);
    if !(spells(&first, "serve") || spells(&first, "search") || spells(&first, "help")) {
        return CliError::UnrecognizedSubcommand(string_from_chars(&first));
    }
    if from + 1 == args.len() {
        let topic = if spells(&first, "serve") {
            HelpTopic::Serve
        } else if spells(&first, "search") {
            HelpTopic::Search
        } else {
            HelpTopic::Help
        };
        return CliError::HelpRequested(topic);
    }
    assert(rest[1] == args@[from + 1]@);
    CliError::UnrecognizedSubcommand(string_from_chars(&chars_of(args[from + 1])))
}

impl ParseState {
    /// Whether `arg` is the `help` command, read here.
    fn reads_help(&self, arg: &str) -> (b: bool)
        ensures
            b == starts_help(self@, arg@),
    {
        self.pending.is_none() && !self.escaped && self.phase == Phase::Top && spells(&chars_of(arg), "help")
    }

    /// The command line once every argument has been read.
    fn finish(self, env_token: Option<&str>, env_cache_dir: Option<&str>) -> (r: Result<Cli, CliError>)
        ensures
            match r {
                Ok(c) => finish(self@, opt_str_text(env_token), opt_str_text(env_cache_dir)) == Ok::<
                    CliView,
                    CliErrorView,
                >(c@),
                Err(e) => finish(self@, opt_str_text(env_token), opt_str_text(env_cache_dir)) == Err::<
                    CliView,
                    CliErrorView,
                >(e@),
            },
    {
        if let Some(o) = self.pending {
            return Err(CliError::MissingValue(o));
        }
        let command = match self.phase {
            Phase::Top => None,
            Phase::Serve => Some(Command::Serve),
            Phase::Search => match self.query {
                Some(query) => Some(
                    Command::Search {
                        query,
                        robot_type: self.robot_type,
                        min_episodes: self.min_episodes,
                        limit: match self.limit {
                            Some(l) => l,
                            None => 10,
                        },
                    },
                ),
                None => {
                    return Err(CliError::MissingQuery);
                },
            },
        };
        let hf_token = match self.hf_token {
            Some(t) => Some(t),
            None => own(env_token),
        };
        let cache_dir = match self.cache_dir {
            Some(d) => d,
            None => match env_cache_dir {
                Some(d) => {
                    let dc = chars_of(d);
                    if dc.len() == 0 {
                        assert(d@ =~= Seq::<char>::empty());
                        return Err(CliError::MissingValue(CliOption::CacheDir));
                    }
                    string_from_chars(&dc)
                },
                None => string_from_chars(&chars_of("~/.cache/lerobot-mcp")),
            },
        };
        Ok(
            Cli {
                command,
                transport: match self.transport {
                    Some(t) => t,
                    None => Transport::Stdio,
                },
                port: match self.port {
                    Some(p) => p,
                    None => 8080,
                },
                hf_token,
                cache_dir,
                cache_ttl: match self.cache_ttl {
                    Some(n) => n,
                    None => 300,
                },
                log_format: match self.log_format {
                    Some(f) => f,
                    None => LogFormat::Pretty,
                },
            },
        )
    }
}

impl Cli {
    /// Parses a command line (the first argument being the program's name),
    /// with the values of the `HF_TOKEN` and `LEROBOT_MCP_CACHE_DIR`
    /// environment variables, where they are set.
    pub fn try_parse_from_env(args: &[&str], hf_token_env: Option<&str>, cache_dir_env: Option<&str>) -> (r:
        Result<Cli, CliError>)
        ensures
            match r {
                Ok(c) => cli_of(arg_texts(args@), opt_str_text(hf_token_env), opt_str_text(cache_dir_env)) == Ok::<
                    CliView,
                    CliErrorView,
                >(c@),
                Err(e) => cli_of(arg_texts(args@), opt_str_text(hf_token_env), opt_str_text(cache_dir_env))
                    == Err::<CliView, CliErrorView>(e@),
            },
    {
        let ghost all = arg_texts(args@);
        let ghost toks = if all.len() > 0 {
            all.drop_first()
        } else {
            all
        };
        let mut state = ParseState::new();
        let n = args.len();
        let mut i: usize = if n > 0 {
            1
        } else {
            0
        };
        assert(toks.skip(0) =~= toks);
        while i < n
            invariant
                n == args@.len(),
                all == arg_texts(args@),
                toks == (if all.len() > 0 { all.drop_first() } else { all }),
                n > 0 ==> 1 <= i,
                i <= n,
                parse_all(initial_parse(), toks) == parse_all(state@, toks.skip(if n > 0 { i - 1 } else { 0 })),
            decreases n - i,
        {
            let ghost k = i - 1;
            assert(toks.skip(k)[0] == args@[i as int]@);
            assert(toks.skip(k).drop_first() =~= toks.skip(k + 1));
            if state.reads_help(args[i]) {
                assert(toks.skip(k + 1) =~= all.skip(i + 1));
                return Err(help_error(args, i + 1));
            }
            match state.step(args[i]) {
                Ok(()) => {},
                Err(e) => {
                    return Err(e);
                },
            }
            i = i + 1;
        }
        assert(toks.skip(if n > 0 { i - 1 } else { 0 }) =~= Seq::<Seq<char>>::empty());
        state.finish(hf_token_env, cache_dir_env)
    }

    /// Parses a command line (the first argument being the program's name),
    /// with no environment variables set.
    pub fn try_parse_from(args: &[&str]) -> (r: Result<Cli, CliError>)
        ensures
            match r {
                Ok(c) => cli_of(arg_texts(args@), None, None) == Ok::<CliView, CliErrorView>(c@),
                Err(e) => cli_of(arg_texts(args@), None, None) == Err::<CliView, CliErrorView>(e@),
            },
    {
        Cli::try_parse_from_env(args, None, None)
    }
}

} // verus!

verus! {

/// The command line is read without error, gives no cache directory, and
/// the environment's cache directory is empty: the one case where the
/// environment refuses a command line.
pub open spec fn env_cache_dir_refused(args: Seq<Seq<char>>, env_cache_dir: Option<Seq<char>>) -> bool {
    let rest = if args.len() > 0 {
        args.drop_first()
    } else {
        args
    };
    &&& env_cache_dir == Some(Seq::<char>::empty())
    &&& parse_all(initial_parse(), rest) matches Ok(s)
    &&& s.pending is None
    &&& !(s.phase == Phase::Search && s.query is None)
    &&& s.cache_dir is None
}

/// An empty cache directory from the environment is refused, as an empty
/// `--cache-dir` is, where the command line gives none.
pub proof fn law_empty_environment_cache_dir_refused(
    args: Seq<Seq<char>>,
    env_token: Option<Seq<char>>,
    env_cache_dir: Option<Seq<char>>,
)
    requires
        env_cache_dir_refused(args, env_cache_dir),
    ensures
        cli_of(args, env_token, env_cache_dir) == Err::<CliView, CliErrorView>(
            CliErrorView::MissingValue(CliOption::CacheDir),
        ),
{
}

/// Apart from an empty cache directory (above), the environment only fills
/// what the command line leaves out: it never turns an accepted command line
/// into a refused one or the reverse, never changes an error, and a token
/// given on the command line wins over the environment's.
pub proof fn law_environment_only_fills_gaps(
    args: Seq<Seq<char>>,
    env_token: Option<Seq<char>>,
    env_cache_dir: Option<Seq<char>>,
)
    requires
        !env_cache_dir_refused(args, env_cache_dir),
    ensures
        cli_of(args, env_token, env_cache_dir) is Ok <==> cli_of(args, None, None) is Ok,
        cli_of(args, env_token, env_cache_dir) is Err ==> cli_of(args, env_token, env_cache_dir) == cli_of(
            args,
            None,
            None,
        ),
        (cli_of(args, env_token, env_cache_dir), cli_of(args, None, None)) matches (Ok(a), Ok(b)) ==> {
            &&& a.command == b.command
            &&& a.transport == b.transport
            &&& a.port == b.port
            &&& a.cache_ttl == b.cache_ttl
            &&& a.log_format == b.log_format
            &&& b.hf_token is Some ==> a.hf_token == b.hf_token
            &&& b.hf_token is None ==> a.hf_token == env_token
        },
{
}

} // verus!

verus! {

proof fn lemma_digit_char(d: nat)
    requires
        d < 10,
    ensures
        is_digit(digit_char(d)),
        (digit_char(d) as int) - ('0' as int) == d,
{
}

/// The decimal text of a number is all digits and reads back as the number.
proof fn lemma_decimal_reads_back(n: nat)
    ensures
        all_digits(decimal(n)),
        digits_value(decimal(n)) == n,
    decreases n,
{
    lemma_digit_char(n % 10);
    let d = decimal(n);
    if n < 10 {
        assert(d.drop_last() =~= Seq::<char>::empty());
        assert(digits_value(d.drop_last()) == 0);
        assert(d.last() == digit_char(n));
        assert(digits_value(d) == n);
    } else {
        lemma_decimal_reads_back(n / 10);
        assert(d.drop_last() =~= decimal(n / 10));
        assert(d.last() == digit_char(n % 10));
        assert((n / 10) * 10 + n % 10 == n);
        assert(digits_value(d) == digits_value(d.drop_last()) * 10 + n % 10);
        assert(forall|i: int| 0 <= i < d.len() ==> is_digit(#[trigger] d[i]) <== (forall|i: int|
            0 <= i < d.len() - 1 ==> is_digit(d.drop_last()[i])));
    }
}

/// A number given to a numeric option is read back as that number.
proof fn lemma_number_read(n: nat, max: nat)
    ensures
        n <= max ==> signed_number(decimal(n), max) == Some(n),
        n > max ==> signed_number(decimal(n), max) is None,
        n <= u64::MAX ==> unsigned_number(decimal(n)) == Some(n),
        n > u64::MAX ==> unsigned_number(decimal(n)) is None,
        all_digits(decimal(n)),
{
    lemma_decimal_reads_back(n);
    let t = decimal(n);
    assert(is_digit(t[0]));
}

/// `search QUERY --limit N` is accepted, with that query and limit, for every
/// number N that fits in `u32` (and a query that does not look like an
/// option); the environment only has to leave the cache directory alone.
pub proof fn law_search_limit_accepted(
    prog: Seq<char>,
    query: Seq<char>,
    n: nat,
    env_token: Option<Seq<char>>,
    env_cache_dir: Option<Seq<char>>,
)
    requires
        n <= u32::MAX,
        query.len() == 0 || query[0] != '-',
        env_cache_dir != Some(Seq::<char>::empty()),
    ensures
        cli_of(seq![prog, "search"@, query, "--limit"@, decimal(n)], env_token, env_cache_dir) matches Ok(c)
            && c.command == Some(
            CommandView::Search { query, robot_type: None, min_episodes: None, limit: n as u32 },
        ),
{
    reveal_strlit("search");
    reveal_strlit("--limit");
    reveal_strlit("limit");
    reveal_strlit("help");
    reveal_strlit("serve");
    reveal_strlit("--");
    reveal_strlit("version");
    reveal_strlit("robot-type");
    reveal_strlit("min-episodes");
    lemma_number_read(n, u32::MAX as nat);
    let args = seq![prog, "search"@, query, "--limit"@, decimal(n)];
    let rest = args.drop_first();
    let s0 = initial_parse();
    let s1 = ParseView { phase: Phase::Search, ..s0 };
    let s2 = ParseView { query: Some(query), ..s1 };
    let s3 = ParseView { pending: Some(CliOption::Limit), ..s2 };
    let s4 = ParseView { limit: Some(n as u32), pending: None, ..s3 };
    assert(parse_step(s0, "search"@) == Ok::<ParseView, CliErrorView>(s1));
    assert(parse_step(s1, query) == Ok::<ParseView, CliErrorView>(s2));
    assert("--limit"@.skip(2) =~= "limit"@);
    assert(first_index_of("limit"@, '=') is None);
    assert(parse_step(s2, "--limit"@) == Ok::<ParseView, CliErrorView>(s3));
    assert(parse_step(s3, decimal(n)) == Ok::<ParseView, CliErrorView>(s4));
    assert(rest.drop_first().drop_first().drop_first().drop_first() =~= Seq::<Seq<char>>::empty());
    assert(parse_all(s4, Seq::<Seq<char>>::empty()) == Ok::<ParseView, CliErrorView>(s4));
    assert(parse_all(s3, rest.drop_first().drop_first().drop_first()) == Ok::<ParseView, CliErrorView>(s4));
    assert(parse_all(s2, rest.drop_first().drop_first()) == Ok::<ParseView, CliErrorView>(s4));
    assert(parse_all(s1, rest.drop_first()) == Ok::<ParseView, CliErrorView>(s4));
    assert(parse_all(s0, rest) == Ok::<ParseView, CliErrorView>(s4));
}

/// `search QUERY --min-episodes N` is accepted, with that query and minimum,
/// for every number N that fits in `u32` (and a query that does not look like an
/// option); the environment only has to leave the cache directory alone.
pub proof fn law_search_min_episodes_accepted(
    prog: Seq<char>,
    query: Seq<char>,
    n: nat,
    env_token: Option<Seq<char>>,
    env_cache_dir: Option<Seq<char>>,
)
    requires
        n <= u32::MAX,
        query.len() == 0 || query[0] != '-',
        env_cache_dir != Some(Seq::<char>::empty()),
    ensures
        cli_of(seq![prog, "search"@, query, "--min-episodes"@, decimal(n)], env_token, env_cache_dir) matches Ok(c)
            && c.command == Some(
            CommandView::Search { query, robot_type: None, min_episodes: Some(n as u32), limit: 10 },
        ),
{
    reveal_strlit("search");
    reveal_strlit("--min-episodes");
    reveal_strlit("limit");
    reveal_strlit("limit");
    reveal_strlit("help");
    reveal_strlit("serve");
    reveal_strlit("--");
    reveal_strlit("version");
    reveal_strlit("robot-type");
    reveal_strlit("min-episodes");
    lemma_number_read(n, u32::MAX as nat);
    let args = seq![prog, "search"@, query, "--min-episodes"@, decimal(n)];
    let rest = args.drop_first();
    let s0 = initial_parse();
    let s1 = ParseView { phase: Phase::Search, ..s0 };
    let s2 = ParseView { query: Some(query), ..s1 };
    let s3 = ParseView { pending: Some(CliOption::MinEpisodes), ..s2 };
    let s4 = ParseView { min_episodes: Some(n as u32), pending: None, ..s3 };
    assert(parse_step(s0, "search"@) == Ok::<ParseView, CliErrorView>(s1));
    assert(parse_step(s1, query) == Ok::<ParseView, CliErrorView>(s2));
    assert("--min-episodes"@.skip(2) =~= "min-episodes"@);
    assert(first_index_of("min-episodes"@, '=') is None);
    assert(parse_step(s2, "--min-episodes"@) == Ok::<ParseView, CliErrorView>(s3));
    assert(parse_step(s3, decimal(n)) == Ok::<ParseView, CliErrorView>(s4));
    assert(rest.drop_first().drop_first().drop_first().drop_first() =~= Seq::<Seq<char>>::empty());
    assert(parse_all(s4, Seq::<Seq<char>>::empty()) == Ok::<ParseView, CliErrorView>(s4));
    assert(parse_all(s3, rest.drop_first().drop_first().drop_first()) == Ok::<ParseView, CliErrorView>(s4));
    assert(parse_all(s2, rest.drop_first().drop_first()) == Ok::<ParseView, CliErrorView>(s4));
    assert(parse_all(s1, rest.drop_first()) == Ok::<ParseView, CliErrorView>(s4));
    assert(parse_all(s0, rest) == Ok::<ParseView, CliErrorView>(s4));
}

/// `search QUERY --limit N` is refused, naming the value, for every number N
/// that does not fit in `u32`.
pub proof fn law_search_limit_too_large_refused(
    prog: Seq<char>,
    query: Seq<char>,
    n: nat,
    env_token: Option<Seq<char>>,
    env_cache_dir: Option<Seq<char>>,
)
    requires
        n > u32::MAX,
        query.len() == 0 || query[0] != '-',
    ensures
        cli_of(seq![prog, "search"@, query, "--limit"@, decimal(n)], env_token, env_cache_dir) == Err::<
            CliView,
            CliErrorView,
        >(CliErrorView::InvalidValue(CliOption::Limit, decimal(n))),
{
    reveal_strlit("search");
    reveal_strlit("--limit");
    reveal_strlit("limit");
    reveal_strlit("help");
    reveal_strlit("serve");
    reveal_strlit("--");
    reveal_strlit("version");
    reveal_strlit("robot-type");
    reveal_strlit("min-episodes");
    lemma_number_read(n, u32::MAX as nat);
    let args = seq![prog, "search"@, query, "--limit"@, decimal(n)];
    let rest = args.drop_first();
    let s0 = initial_parse();
    let s1 = ParseView { phase: Phase::Search, ..s0 };
    let s2 = ParseView { query: Some(query), ..s1 };
    let s3 = ParseView { pending: Some(CliOption::Limit), ..s2 };
    let e = CliErrorView::InvalidValue(CliOption::Limit, decimal(n));
    assert(parse_step(s0, "search"@) == Ok::<ParseView, CliErrorView>(s1));
    assert(parse_step(s1, query) == Ok::<ParseView, CliErrorView>(s2));
    assert("--limit"@.skip(2) =~= "limit"@);
    assert(first_index_of("limit"@, '=') is None);
    assert(parse_step(s2, "--limit"@) == Ok::<ParseView, CliErrorView>(s3));
    assert(is_digit(decimal(n)[0]));
    assert(parse_step(s3, decimal(n)) == Err::<ParseView, CliErrorView>(e));
    assert(parse_all(s3, rest.drop_first().drop_first().drop_first()) == Err::<ParseView, CliErrorView>(e));
    assert(parse_all(s2, rest.drop_first().drop_first()) == Err::<ParseView, CliErrorView>(e));
    assert(parse_all(s1, rest.drop_first()) == Err::<ParseView, CliErrorView>(e));
    assert(parse_all(s0, rest) == Err::<ParseView, CliErrorView>(e));
}

/// `--port N` is accepted with that port for every N up to 65535, and refused,
/// naming the value, above it.
pub proof fn law_port_value(prog: Seq<char>, n: nat, env_token: Option<Seq<char>>, env_cache_dir: Option<Seq<char>>)
    requires
        env_cache_dir != Some(Seq::<char>::empty()),
    ensures
        n <= u16::MAX ==> (cli_of(seq![prog, "--port"@, decimal(n)], env_token, env_cache_dir) matches Ok(c)
            && c.port == n && c.command is None),
        n > u16::MAX ==> cli_of(seq![prog, "--port"@, decimal(n)], env_token, env_cache_dir) == Err::<
            CliView,
            CliErrorView,
        >(CliErrorView::InvalidValue(CliOption::Port, decimal(n))),
{
    reveal_strlit("--port");
    reveal_strlit("port");
    reveal_strlit("transport");
    reveal_strlit("help");
    reveal_strlit("--");
    reveal_strlit("version");
    lemma_number_read(n, u16::MAX as nat);
    let args = seq![prog, "--port"@, decimal(n)];
    let rest = args.drop_first();
    let s0 = initial_parse();
    let s1 = ParseView { pending: Some(CliOption::Port), ..s0 };
    assert("--port"@.skip(2) =~= "port"@);
    assert(first_index_of("port"@, '=') is None);
    assert(parse_step(s0, "--port"@) == Ok::<ParseView, CliErrorView>(s1));
    assert(rest.drop_first().drop_first() =~= Seq::<Seq<char>>::empty());
    if n <= u16::MAX {
        let s2 = ParseView { port: Some(n as u16), pending: None, ..s1 };
        assert(parse_step(s1, decimal(n)) == Ok::<ParseView, CliErrorView>(s2));
        assert(parse_all(s2, rest.drop_first().drop_first()) == Ok::<ParseView, CliErrorView>(s2));
        assert(parse_all(s1, rest.drop_first()) == Ok::<ParseView, CliErrorView>(s2));
        assert(parse_all(s0, rest) == Ok::<ParseView, CliErrorView>(s2));
    } else {
        let e = CliErrorView::InvalidValue(CliOption::Port, decimal(n));
        assert(is_digit(decimal(n)[0]));
        assert(parse_step(s1, decimal(n)) == Err::<ParseView, CliErrorView>(e));
        assert(parse_all(s1, rest.drop_first()) == Err::<ParseView, CliErrorView>(e));
        assert(parse_all(s0, rest) == Err::<ParseView, CliErrorView>(e));
    }
}

/// `--cache-ttl N` is accepted with that time for every N that fits in `u64`,
/// and refused, naming the value, above it.
pub proof fn law_cache_ttl_value(
    prog: Seq<char>,
    n: nat,
    env_token: Option<Seq<char>>,
    env_cache_dir: Option<Seq<char>>,
)
    requires
        env_cache_dir != Some(Seq::<char>::empty()),
    ensures
        n <= u64::MAX ==> (cli_of(seq![prog, "--cache-ttl"@, decimal(n)], env_token, env_cache_dir) matches Ok(
            c,
        ) && c.cache_ttl == n && c.command is None),
        n > u64::MAX ==> cli_of(seq![prog, "--cache-ttl"@, decimal(n)], env_token, env_cache_dir) == Err::<
            CliView,
            CliErrorView,
        >(CliErrorView::InvalidValue(CliOption::CacheTtl, decimal(n))),
{
    reveal_strlit("--cache-ttl");
    reveal_strlit("cache-ttl");
    reveal_strlit("port");
    reveal_strlit("transport");
    reveal_strlit("hf-token");
    reveal_strlit("cache-dir");
    reveal_strlit("help");
    reveal_strlit("--");
    reveal_strlit("version");
    lemma_number_read(n, u64::MAX as nat);
    let args = seq![prog, "--cache-ttl"@, decimal(n)];
    let rest = args.drop_first();
    let s0 = initial_parse();
    let s1 = ParseView { pending: Some(CliOption::CacheTtl), ..s0 };
    assert("--cache-ttl"@.skip(2) =~= "cache-ttl"@);
    assert("cache-ttl"@[6] != "cache-dir"@[6]);
    assert(first_index_of("cache-ttl"@, '=') is None);
    assert(parse_step(s0, "--cache-ttl"@) == Ok::<ParseView, CliErrorView>(s1));
    assert(rest.drop_first().drop_first() =~= Seq::<Seq<char>>::empty());
    if n <= u64::MAX {
        let s2 = ParseView { cache_ttl: Some(n as u64), pending: None, ..s1 };
        assert(parse_step(s1, decimal(n)) == Ok::<ParseView, CliErrorView>(s2));
        assert(parse_all(s2, rest.drop_first().drop_first()) == Ok::<ParseView, CliErrorView>(s2));
        assert(parse_all(s1, rest.drop_first()) == Ok::<ParseView, CliErrorView>(s2));
        assert(parse_all(s0, rest) == Ok::<ParseView, CliErrorView>(s2));
    } else {
        let e = CliErrorView::InvalidValue(CliOption::CacheTtl, decimal(n));
        assert(is_digit(decimal(n)[0]));
        assert(parse_step(s1, decimal(n)) == Err::<ParseView, CliErrorView>(e));
        assert(parse_all(s1, rest.drop_first()) == Err::<ParseView, CliErrorView>(e));
        assert(parse_all(s0, rest) == Err::<ParseView, CliErrorView>(e));
    }
}

/// `--transport` takes the names `stdio` and `http`, and `--log-format` the
/// names `pretty` and `json`.
pub proof fn law_named_values(prog: Seq<char>, env_token: Option<Seq<char>>, env_cache_dir: Option<Seq<char>>)
    requires
        env_cache_dir != Some(Seq::<char>::empty()),
    ensures
        cli_of(seq![prog, "--transport"@, "http"@], env_token, env_cache_dir) matches Ok(c) && c.transport
            == Transport::Http,
        cli_of(seq![prog, "--transport"@, "stdio"@], env_token, env_cache_dir) matches Ok(c) && c.transport
            == Transport::Stdio,
        cli_of(seq![prog, "--log-format"@, "json"@], env_token, env_cache_dir) matches Ok(c) && c.log_format
            == LogFormat::Json,
        cli_of(seq![prog, "--log-format"@, "pretty"@], env_token, env_cache_dir) matches Ok(c) && c.log_format
            == LogFormat::Pretty,
{
    reveal_strlit("--transport");
    reveal_strlit("transport");
    reveal_strlit("--log-format");
    reveal_strlit("log-format");
    reveal_strlit("port");
    reveal_strlit("hf-token");
    reveal_strlit("cache-dir");
    reveal_strlit("cache-ttl");
    reveal_strlit("http");
    reveal_strlit("stdio");
    reveal_strlit("json");
    reveal_strlit("pretty");
    reveal_strlit("help");
    reveal_strlit("--");
    reveal_strlit("version");
    let s0 = initial_parse();
    assert("--transport"@.skip(2) =~= "transport"@);
    assert(first_index_of("transport"@, '=') is None);
    assert("--log-format"@.skip(2) =~= "log-format"@);
    assert(first_index_of("log-format"@, '=') is None);
    let st = ParseView { pending: Some(CliOption::Transport), ..s0 };
    let sl = ParseView { pending: Some(CliOption::LogFormat), ..s0 };
    assert(parse_step(s0, "--transport"@) == Ok::<ParseView, CliErrorView>(st));
    assert(parse_step(s0, "--log-format"@) == Ok::<ParseView, CliErrorView>(sl));
    let pairs = seq![
        (seq![prog, "--transport"@, "http"@], st, "http"@, ParseView { transport: Some(Transport::Http), pending: None, ..st }),
        (seq![prog, "--transport"@, "stdio"@], st, "stdio"@, ParseView { transport: Some(Transport::Stdio), pending: None, ..st }),
        (seq![prog, "--log-format"@, "json"@], sl, "json"@, ParseView { log_format: Some(LogFormat::Json), pending: None, ..sl }),
        (seq![prog, "--log-format"@, "pretty"@], sl, "pretty"@, ParseView { log_format: Some(LogFormat::Pretty), pending: None, ..sl }),
    ];
    assert forall|k: int| 0 <= k < 4 implies ({
        let (args, s1, v, s2) = #[trigger] pairs[k];
        parse_all(s0, args.drop_first()) == Ok::<ParseView, CliErrorView>(s2)
    }) by {
        let (args, s1, v, s2) = pairs[k];
        let rest = args.drop_first();
        assert(rest[0] == args[1] && rest[1] == v);
        assert(parse_step(s0, rest[0]) == Ok::<ParseView, CliErrorView>(s1));
        assert(parse_step(s1, v) == Ok::<ParseView, CliErrorView>(s2));
        assert(rest.drop_first().drop_first() =~= Seq::<Seq<char>>::empty());
        assert(parse_all(s2, rest.drop_first().drop_first()) == Ok::<ParseView, CliErrorView>(s2));
        assert(parse_all(s1, rest.drop_first()) == Ok::<ParseView, CliErrorView>(s2));
    }
    assert(pairs[0].0 == seq![prog, "--transport"@, "http"@]);
    assert(pairs[1].0 == seq![prog, "--transport"@, "stdio"@]);
    assert(pairs[2].0 == seq![prog, "--log-format"@, "json"@]);
    assert(pairs[3].0 == seq![prog, "--log-format"@, "pretty"@]);
}

} // verus!
