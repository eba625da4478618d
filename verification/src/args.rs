//! The command line: a global `--url` option and the `dump` subcommand
//! with its stream name and options.
//!
//! ```text
//! nats-stream-dump [--url URL] dump STREAM [-o|--output PATH] [-n|--count N]
//!                  [--pretty] [-f|--filter JSONPATH]
//! ```
//!
//! Options take their value from the next argument (`--output out.json`,
//! `-o out.json`), after `=` (`--output=out.json`, `-o=out.json`) or, for
//! short options, attached (`-oout.json`). `--url` may stand before or after
//! the subcommand. `--` ends the options. `-h`, `--help` or the `help`
//! subcommand asks for help.
use vstd::prelude::*;

use crate::json::opt_view;
use crate::text::{chars_equal, chars_of, parse_u64, parse_u64_chars, string_of, sub_chars};

verus! {

/// The URL of the NATS server when none is given.
pub open spec fn default_url() -> Seq<char> {
    "nats://localhost:4222"@
}

/// Arguments of the `dump` subcommand.
#[derive(Debug, Clone, PartialEq, Eq)]
pub struct DumpArgs {
    /// Name of the NATS JetStream stream to dump.
    pub stream: String,
    /// Output file path; standard output when there is none.
    pub output: Option<String>,
    /// Maximum number of messages to read from the stream.
    pub count: Option<u64>,
    /// Whether the JSON output is indented.
    pub pretty: bool,
    /// JSONPath filter expression.
    pub filter: Option<String>,
}

/// The subcommands.
#[derive(Debug, Clone, PartialEq, Eq)]
pub enum Command {
    /// Dump raw messages from a NATS JetStream stream to a JSON file or
    /// standard output.
    Dump(DumpArgs),
}

/// The command line.
#[derive(Debug, Clone, PartialEq, Eq)]
pub struct Cli {
    /// NATS server URL.
    pub url: String,
    pub command: Command,
}

/// Why a command line is refused.
#[derive(Debug, Clone, PartialEq, Eq)]
pub enum ArgsError {
    /// `-h`, `--help` or the `help` subcommand was given.
    HelpRequested,
    /// No subcommand was given.
    MissingSubcommand,
    /// The first positional argument is no subcommand.
    UnknownSubcommand(String),
    /// An argument that has no place here.
    UnexpectedArgument(String),
    /// The named option has no value.
    MissingValue(String),
    /// The value given for `--count` is no unsigned 64-bit number.
    InvalidCount(String),
    /// The named option was given twice.
    RepeatedArgument(String),
    /// The `dump` subcommand has no stream name.
    MissingStream,
}

/// The mathematical value of an `ArgsError`.
pub enum ArgsFault {
    HelpRequested,
    MissingSubcommand,
    UnknownSubcommand(Seq<char>),
    UnexpectedArgument(Seq<char>),
    MissingValue(Seq<char>),
    InvalidCount(Seq<char>),
    RepeatedArgument(Seq<char>),
    MissingStream,
}

impl View for ArgsError {
    type V = ArgsFault;

    open spec fn view(&self) -> ArgsFault {
        match self {
            ArgsError::HelpRequested => ArgsFault::HelpRequested,
            ArgsError::MissingSubcommand => ArgsFault::MissingSubcommand,
            ArgsError::UnknownSubcommand(s) => ArgsFault::UnknownSubcommand(s@),
            ArgsError::UnexpectedArgument(s) => ArgsFault::UnexpectedArgument(s@),
            ArgsError::MissingValue(s) => ArgsFault::MissingValue(s@),
            ArgsError::InvalidCount(s) => ArgsFault::InvalidCount(s@),
            ArgsError::RepeatedArgument(s) => ArgsFault::RepeatedArgument(s@),
            ArgsError::MissingStream => ArgsFault::MissingStream,
        }
    }
}

/// The mathematical value of a `Cli`.
pub struct CliModel {
    pub url: Seq<char>,
    pub stream: Seq<char>,
    pub output: Option<Seq<char>>,
    pub count: Option<u64>,
    pub pretty: bool,
    pub filter: Option<Seq<char>>,
}

impl View for Cli {
    type V = CliModel;

    open spec fn view(&self) -> CliModel {
        match self.command {
            Command::Dump(d) => CliModel {
                url: self.url@,
                stream: d.stream@,
                output: opt_view(d.output),
                count: d.count,
                pretty: d.pretty,
                filter: opt_view(d.filter),
            },
        }
    }
}

/// What has been read of a command line so far.
pub struct ArgsModel {
    pub url: Option<Seq<char>>,
    pub in_dump: bool,
    pub stream: Option<Seq<char>>,
    pub output: Option<Seq<char>>,
    pub count: Option<u64>,
    pub pretty: bool,
    pub filter: Option<Seq<char>>,
    pub positional_only: bool,
}

/// Nothing read yet.
pub open spec fn args_start() -> ArgsModel {
    ArgsModel {
        url: None,
        in_dump: false,
        stream: None,
        output: None,
        count: None,
        pretty: false,
        filter: None,
        positional_only: false,
    }
}

/// One step of reading: on to the argument at the index with a new state,
/// or a refusal.
pub enum ArgsStep {
    Next(int, ArgsModel),
    Fail(ArgsFault),
}

/// An argument that reads as an option or a flag: a dash and more.
pub open spec fn is_flag_like(t: Seq<char>) -> bool {
    t.len() >= 2 && t[0] == '-'
}

/// An argument that reads as a long option: two dashes and more.
pub open spec fn is_long(t: Seq<char>) -> bool {
    t.len() >= 2 && t[0] == '-' && t[1] == '-'
}

/// The index of the first `=` in `s`, or its length when it has none.
pub open spec fn eq_index(s: Seq<char>) -> nat
    decreases s.len(),
{
    if s.len() == 0 {
        0
    } else if s[0] == '=' {
        0
    } else {
        1 + eq_index(s.drop_first())
    }
}

/// The name of a long option: what follows the dashes, up to a `=`.
pub open spec fn long_name(t: Seq<char>) -> Seq<char> {
    t.skip(2).take(eq_index(t.skip(2)) as int)
}

/// The value given with a long option after `=`, if any.
pub open spec fn long_inline(t: Seq<char>) -> Option<Seq<char>> {
    let body = t.skip(2);
    if eq_index(body) < body.len() {
        Some(body.skip(eq_index(body) as int + 1))
    } else {
        None
    }
}

/// The value given with a short option, attached or after `=`, if any.
pub open spec fn short_inline(t: Seq<char>) -> Option<Seq<char>> {
    let rest = t.skip(2);
    if rest.len() == 0 {
        None
    } else if rest[0] == '=' {
        Some(rest.skip(1))
    } else {
        Some(rest)
    }
}

/// The long name of a short option that takes a value.
pub open spec fn short_name(c: char, in_dump: bool) -> Option<Seq<char>> {
    if in_dump && c == 'o' {
        Some("output"@)
    } else if in_dump && c == 'n' {
        Some("count"@)
    } else if in_dump && c == 'f' {
        Some("filter"@)
    } else {
        None
    }
}

/// Whether the long option `name` takes a value here.
pub open spec fn takes_value(name: Seq<char>, in_dump: bool) -> bool {
    name == "url"@ || (in_dump && (name == "output"@ || name == "count"@ || name == "filter"@))
}

/// Records `value` for the option `name`, which takes a value; an option
/// may be given once, and the count must read as a `u64`.
pub open spec fn set_value(st: ArgsModel, name: Seq<char>, value: Seq<char>) -> Result<
    ArgsModel,
    ArgsFault,
> {
    if name == "url"@ {
        if st.url is Some {
            Err(ArgsFault::RepeatedArgument(name))
        } else {
            Ok(ArgsModel { url: Some(value), ..st })
        }
    } else if name == "output"@ {
        if st.output is Some {
            Err(ArgsFault::RepeatedArgument(name))
        } else {
            Ok(ArgsModel { output: Some(value), ..st })
        }
    } else if name == "count"@ {
        if st.count is Some {
            Err(ArgsFault::RepeatedArgument(name))
        } else {
            match parse_u64(value) {
                Some(n) => Ok(ArgsModel { count: Some(n), ..st }),
                None => Err(ArgsFault::InvalidCount(value)),
            }
        }
    } else {
        if st.filter is Some {
            Err(ArgsFault::RepeatedArgument(name))
        } else {
            Ok(ArgsModel { filter: Some(value), ..st })
        }
    }
}

/// The step after recording a value, the next argument being at `next`.
pub open spec fn after_value(r: Result<ArgsModel, ArgsFault>, next: int) -> ArgsStep {
    match r {
        Ok(st) => ArgsStep::Next(next, st),
        Err(e) => ArgsStep::Fail(e),
    }
}

/// Reads the value of the option `name` at index `i`: the value given with
/// it, or else the next argument unless that reads as an option itself.
pub open spec fn take_value(
    args: Seq<Seq<char>>,
    i: int,
    st: ArgsModel,
    name: Seq<char>,
    inline: Option<Seq<char>>,
) -> ArgsStep {
    match inline {
        Some(v) => after_value(set_value(st, name, v), i + 1),
        None => if i + 1 < args.len() && !is_flag_like(args[i + 1]) {
            after_value(set_value(st, name, args[i + 1]), i + 2)
        } else {
            ArgsStep::Fail(ArgsFault::MissingValue(name))
        },
    }
}

/// Reads the argument at index `i`.
pub open spec fn args_step(args: Seq<Seq<char>>, i: int, st: ArgsModel) -> ArgsStep {
    let t = args[i];
    if !st.positional_only && t == "--"@ {
        ArgsStep::Next(i + 1, ArgsModel { positional_only: true, ..st })
    } else if !st.positional_only && is_long(t) {
        let name = long_name(t);
        if name == "help"@ {
            ArgsStep::Fail(ArgsFault::HelpRequested)
        } else if st.in_dump && name == "pretty"@ {
            if long_inline(t) is Some {
                ArgsStep::Fail(ArgsFault::UnexpectedArgument(t))
            } else if st.pretty {
                ArgsStep::Fail(ArgsFault::RepeatedArgument(name))
            } else {
                ArgsStep::Next(i + 1, ArgsModel { pretty: true, ..st })
            }
        } else if takes_value(name, st.in_dump) {
            take_value(args, i, st, name, long_inline(t))
        } else {
            ArgsStep::Fail(ArgsFault::UnexpectedArgument(t))
        }
    } else if !st.positional_only && is_flag_like(t) {
        if t[1] == 'h' {
            ArgsStep::Fail(ArgsFault::HelpRequested)
        } else {
            match short_name(t[1], st.in_dump) {
                Some(name) => take_value(args, i, st, name, short_inline(t)),
                None => ArgsStep::Fail(ArgsFault::UnexpectedArgument(t)),
            }
        }
    } else if !st.in_dump {
        if st.positional_only {
            ArgsStep::Fail(ArgsFault::UnexpectedArgument(t))
        } else if t == "dump"@ {
            ArgsStep::Next(i + 1, ArgsModel { in_dump: true, ..st })
        } else if t == "help"@ {
            ArgsStep::Fail(ArgsFault::HelpRequested)
        } else {
            ArgsStep::Fail(ArgsFault::UnknownSubcommand(t))
        }
    } else if st.stream is None {
        ArgsStep::Next(i + 1, ArgsModel { stream: Some(t), ..st })
    } else {
        ArgsStep::Fail(ArgsFault::UnexpectedArgument(t))
    }
}

/// Reads the arguments from index `i` on.
pub open spec fn args_run(args: Seq<Seq<char>>, i: int, st: ArgsModel) -> Result<
    ArgsModel,
    ArgsFault,
>
    decreases args.len() - i,
{
    if i < 0 || i >= args.len() {
        Ok(st)
    } else {
        match args_step(args, i, st) {
            ArgsStep::Next(j, next) => if i < j {
                args_run(args, j, next)
            } else {
                Ok(next)
            },
            ArgsStep::Fail(e) => Err(e),
        }
    }
}

/// The command line that `args` (the program name first) spell, or why
/// they spell none.
pub open spec fn parse_args(args: Seq<Seq<char>>) -> Result<CliModel, ArgsFault> {
    match args_run(args, 1, args_start()) {
        Err(e) => Err(e),
        Ok(st) => if !st.in_dump {
            Err(ArgsFault::MissingSubcommand)
        } else {
            match st.stream {
                None => Err(ArgsFault::MissingStream),
                Some(stream) => Ok(
                    CliModel {
                        url: match st.url {
                            Some(u) => u,
                            None => default_url(),
                        },
                        stream,
                        output: st.output,
                        count: st.count,
                        pretty: st.pretty,
                        filter: st.filter,
                    },
                ),
            }
        },
    }
}

/// The view of an optional character vector.
pub open spec fn opt_seq(o: Option<Vec<char>>) -> Option<Seq<char>> {
    match o {
        Some(v) => Some(v@),
        None => None,
    }
}

/// What has been read of a command line so far.
struct ArgsState {
    url: Option<Vec<char>>,
    in_dump: bool,
    stream: Option<Vec<char>>,
    output: Option<Vec<char>>,
    count: Option<u64>,
    pretty: bool,
    filter: Option<Vec<char>>,
    positional_only: bool,
}

impl ArgsState {
    spec fn model(&self) -> ArgsModel {
        ArgsModel {
            url: opt_seq(self.url),
            in_dump: self.in_dump,
            stream: opt_seq(self.stream),
            output: opt_seq(self.output),
            count: self.count,
            pretty: self.pretty,
            filter: opt_seq(self.filter),
            positional_only: self.positional_only,
        }
    }
}

/// The texts of the arguments.
pub open spec fn arg_views(args: Seq<&str>) -> Seq<Seq<char>> {
    args.map_values(|a: &str| a@)
}

/// The views of the arguments.
pub open spec fn token_views(toks: Seq<Vec<char>>) -> Seq<Seq<char>> {
    toks.map_values(|t: Vec<char>| t@)
}

/// Whether a step taken agrees with the step of the grammar.
spec fn step_agrees(r: Result<(usize, ArgsState), ArgsError>, s: ArgsStep) -> bool {
    match (r, s) {
        (Ok((j, st)), ArgsStep::Next(k, m)) => j as int == k && st.model() == m,
        (Err(e), ArgsStep::Fail(f)) => e@ == f,
        _ => false,
    }
}

/// Whether `t` spells the literal `lit`.
fn is_lit(t: &Vec<char>, lit: &str) -> (r: bool)
    ensures
        r == (t@ == lit@),
{
    let l = chars_of(lit);
    chars_equal(t.as_slice(), l.as_slice())
}

/// The index of the first `=` in `s`, or its length.
fn eq_index_of(s: &Vec<char>) -> (k: usize)
    ensures
        k as nat == eq_index(s@),
        k <= s@.len(),
{
    let mut k: usize = 0;
    while k < s.len() && s[k] != '='
        invariant
            k <= s@.len(),
            forall|j: int| 0 <= j < k ==> s@[j] != '=',
        decreases s@.len() - k,
    {
        k = k + 1;
    }
    proof {
        lemma_eq_index(s@, k as int);
    }
    k
}

/// `eq_index` is the first index holding `=`, or the length.
proof fn lemma_eq_index(s: Seq<char>, k: int)
    requires
        0 <= k <= s.len(),
        forall|j: int| 0 <= j < k ==> s[j] != '=',
        k == s.len() || s[k] == '=',
    ensures
        eq_index(s) == k,
    decreases k,
{
    if k > 0 {
        let t = s.drop_first();
        assert forall|j: int| 0 <= j < k - 1 implies t[j] != '=' by {
            assert(t[j] == s[j + 1]);
        }
        if k < s.len() {
            assert(t[k - 1] == s[k]);
        }
        lemma_eq_index(t, k - 1);
    }
}

/// Records `value` for the option `name`.
fn set_value_of(st: ArgsState, name: &Vec<char>, value: Vec<char>) -> (r: Result<
    ArgsState,
    ArgsError,
>)
    ensures
        match (r, set_value(st.model(), name@, value@)) {
            (Ok(a), Ok(b)) => a.model() == b,
            (Err(e), Err(f)) => e@ == f,
            _ => false,
        },
{
    let mut st = st;
    if is_lit(name, "url") {
        if st.url.is_some() {
            Err(ArgsError::RepeatedArgument(string_of(name.as_slice())))
        } else {
            st.url = Some(value);
            Ok(st)
        }
    } else if is_lit(name, "output") {
        if st.output.is_some() {
            Err(ArgsError::RepeatedArgument(string_of(name.as_slice())))
        } else {
            st.output = Some(value);
            Ok(st)
        }
    } else if is_lit(name, "count") {
        if st.count.is_some() {
            Err(ArgsError::RepeatedArgument(string_of(name.as_slice())))
        } else {
            match parse_u64_chars(value.as_slice()) {
                Some(n) => {
                    st.count = Some(n);
                    Ok(st)
                },
                None => Err(ArgsError::InvalidCount(string_of(value.as_slice()))),
            }
        }
    } else {
        if st.filter.is_some() {
            Err(ArgsError::RepeatedArgument(string_of(name.as_slice())))
        } else {
            st.filter = Some(value);
            Ok(st)
        }
    }
}

/// Reads the value of the option `name` at index `i`.
fn take_value_of(
    toks: &Vec<Vec<char>>,
    i: usize,
    st: ArgsState,
    name: Vec<char>,
    inline: Option<Vec<char>>,
) -> (r: Result<(usize, ArgsState), ArgsError>)
    requires
        i < toks@.len(),
    ensures
        step_agrees(r, take_value(token_views(toks@), i as int, st.model(), name@, opt_seq(inline))),
        r matches Ok((j, _)) ==> i < j <= toks@.len(),
{
    let ghost args = token_views(toks@);
    let n = toks.len();
    match inline {
        Some(v) => match set_value_of(st, &name, v) {
            Ok(next) => Ok((i + 1, next)),
            Err(e) => Err(e),
        },
        None => {
            if i + 1 < n && !(toks[i + 1].len() >= 2 && toks[i + 1][0] == '-') {
                assert(args[i + 1] == toks@[i + 1]@);
                let v = toks[i + 1].clone();
                assert(v@ == toks@[i + 1]@);
                match set_value_of(st, &name, v) {
                    Ok(next) => Ok((i + 2, next)),
                    Err(e) => Err(e),
                }
            } else {
                if i + 1 < n {
                    assert(args[i + 1] == toks@[i + 1]@);
                }
                Err(ArgsError::MissingValue(string_of(name.as_slice())))
            }
        },
    }
}

/// Reads the argument at index `i`.
fn step_of(toks: &Vec<Vec<char>>, i: usize, st: ArgsState) -> (r: Result<(usize, ArgsState), ArgsError>)
    requires
        i < toks@.len(),
    ensures
        step_agrees(r, args_step(token_views(toks@), i as int, st.model())),
        r matches Ok((j, _)) ==> i < j <= toks@.len(),
{
    let ghost args = token_views(toks@);
    let n = toks.len();
    let t = &toks[i];
    assert(args[i as int] == t@);
    let mut st = st;
    if !st.positional_only && is_lit(t, "--") {
        st.positional_only = true;
        Ok((i + 1, st))
    } else if !st.positional_only && t.len() >= 2 && t[0] == '-' && t[1] == '-' {
        let body = sub_chars(t.as_slice(), 2, t.len());
        assert(body@ == t@.skip(2));
        let k = eq_index_of(&body);
        let name = sub_chars(body.as_slice(), 0, k);
        assert(name@ == long_name(t@));
        let inline = if k < body.len() {
            Some(sub_chars(body.as_slice(), k + 1, body.len()))
        } else {
            None
        };
        assert(opt_seq(inline) == long_inline(t@));
        if is_lit(&name, "help") {
            Err(ArgsError::HelpRequested)
        } else if st.in_dump && is_lit(&name, "pretty") {
            if inline.is_some() {
                Err(ArgsError::UnexpectedArgument(string_of(t.as_slice())))
            } else if st.pretty {
                Err(ArgsError::RepeatedArgument(string_of(name.as_slice())))
            } else {
                st.pretty = true;
                Ok((i + 1, st))
            }
        } else if is_lit(&name, "url") || (st.in_dump && (is_lit(&name, "output") || is_lit(
            &name,
            "count",
        ) || is_lit(&name, "filter"))) {
            take_value_of(toks, i, st, name, inline)
        } else {
            Err(ArgsError::UnexpectedArgument(string_of(t.as_slice())))
        }
    } else if !st.positional_only && t.len() >= 2 && t[0] == '-' {
        let c = t[1];
        if c == 'h' {
            Err(ArgsError::HelpRequested)
        } else {
            let rest = sub_chars(t.as_slice(), 2, t.len());
            assert(rest@ == t@.skip(2));
            let inline = if rest.len() == 0 {
                None
            } else if rest[0] == '=' {
                Some(sub_chars(rest.as_slice(), 1, rest.len()))
            } else {
                Some(rest)
            };
            assert(opt_seq(inline) == short_inline(t@));
            if st.in_dump && c == 'o' {
                take_value_of(toks, i, st, chars_of("output"), inline)
            } else if st.in_dump && c == 'n' {
                take_value_of(toks, i, st, chars_of("count"), inline)
            } else if st.in_dump && c == 'f' {
                take_value_of(toks, i, st, chars_of("filter"), inline)
            } else {
                Err(ArgsError::UnexpectedArgument(string_of(t.as_slice())))
            }
        }
    } else if !st.in_dump {
        if st.positional_only {
            Err(ArgsError::UnexpectedArgument(string_of(t.as_slice())))
        } else if is_lit(t, "dump") {
            st.in_dump = true;
            Ok((i + 1, st))
        } else if is_lit(t, "help") {
            Err(ArgsError::HelpRequested)
        } else {
            Err(ArgsError::UnknownSubcommand(string_of(t.as_slice())))
        }
    } else if st.stream.is_none() {
        st.stream = Some(t.clone());
        Ok((i + 1, st))
    } else {
        Err(ArgsError::UnexpectedArgument(string_of(t.as_slice())))
    }
}

/// The string of an optional character vector.
fn opt_string(o: Option<Vec<char>>) -> (r: Option<String>)
    ensures
        opt_view(r) == opt_seq(o),
{
    match o {
        Some(v) => Some(string_of(v.as_slice())),
        None => None,
    }
}

impl Cli {
    /// Reads a command line, the program name first.
    pub fn try_parse_from(args: &[&str]) -> (r: Result<Cli, ArgsError>)
        ensures
            match (r, parse_args(arg_views(args@))) {
                (Ok(c), Ok(m)) => c@ == m,
                (Err(e), Err(f)) => e@ == f,
                _ => false,
            },
    {
        let ghost views = arg_views(args@);
        let mut toks: Vec<Vec<char>> = Vec::new();
        let mut n: usize = 0;
        while n < args.len()
            invariant
                n <= args@.len(),
                toks@.len() == n,
                forall|j: int| 0 <= j < n ==> #[trigger] toks@[j]@ == args@[j]@,
            decreases args@.len() - n,
        {
            toks.push(chars_of(args[n]));
            n = n + 1;
        }
        assert(token_views(toks@) =~= views);
        let mut st = ArgsState {
            url: None,
            in_dump: false,
            stream: None,
            output: None,
            count: None,
            pretty: false,
            filter: None,
            positional_only: false,
        };
        let mut i: usize = 1;
        while i < toks.len()
            invariant
                views == arg_views(args@),
                token_views(toks@) == views,
                1 <= i,
                args_run(views, i as int, st.model()) == args_run(views, 1, args_start()),
            decreases toks@.len() - i,
        {
            match step_of(&toks, i, st) {
                Ok((j, next)) => {
                    st = next;
                    i = j;
                },
                Err(e) => {
                    assert(args_run(views, i as int, st.model()) == Err::<ArgsModel, ArgsFault>(e@));
                    return Err(e);
                },
            }
        }
        if !st.in_dump {
            return Err(ArgsError::MissingSubcommand);
        }
        match st.stream {
            None => Err(ArgsError::MissingStream),
            Some(stream) => {
                let url = match st.url {
                    Some(u) => string_of(u.as_slice()),
                    None => "nats://localhost:4222".to_owned(),
                };
                Ok(
                    Cli {
                        url,
                        command: Command::Dump(
                            DumpArgs {
                                stream: string_of(stream.as_slice()),
                                output: opt_string(st.output),
                                count: st.count,
                                pretty: st.pretty,
                                filter: opt_string(st.filter),
                            },
                        ),
                    },
                )
            },
        }
    }
}

/// The text by which a refused command line is reported.
pub open spec fn args_error_text(e: ArgsFault) -> Seq<char> {
    match e {
        ArgsFault::HelpRequested => "help was requested"@,
        ArgsFault::MissingSubcommand => "a subcommand is required"@,
        ArgsFault::UnknownSubcommand(t) => "unrecognized subcommand '"@ + t + "'"@,
        ArgsFault::UnexpectedArgument(t) => "unexpected argument '"@ + t + "' found"@,
        ArgsFault::MissingValue(name) => "a value is required for '--"@ + name + "'"@,
        ArgsFault::InvalidCount(v) => "invalid value '"@ + v + "' for '--count <COUNT>'"@,
        ArgsFault::RepeatedArgument(name) => "the argument '--"@ + name
            + "' cannot be used multiple times"@,
        ArgsFault::MissingStream => "the following required argument was not provided: <STREAM>"@,
    }
}

impl ArgsError {
    /// The text by which this error is reported.
    pub fn message(&self) -> (r: String)
        ensures
            r@ == args_error_text(self@),
    {
        let mut s = String::new();
        match self {
            ArgsError::HelpRequested => s.append("help was requested"),
            ArgsError::MissingSubcommand => s.append("a subcommand is required"),
            ArgsError::UnknownSubcommand(t) => {
                s.append("unrecognized subcommand '");
                s.append(t.as_str());
                s.append("'");
            },
            ArgsError::UnexpectedArgument(t) => {
                s.append("unexpected argument '");
                s.append(t.as_str());
                s.append("' found");
            },
            ArgsError::MissingValue(name) => {
                s.append("a value is required for '--");
                s.append(name.as_str());
                s.append("'");
            },
            ArgsError::InvalidCount(v) => {
                s.append("invalid value '");
                s.append(v.as_str());
                s.append("' for '--count <COUNT>'");
            },
            ArgsError::RepeatedArgument(name) => {
                s.append("the argument '--");
                s.append(name.as_str());
                s.append("' cannot be used multiple times");
            },
            ArgsError::MissingStream => s.append(
                "the following required argument was not provided: <STREAM>",
            ),
        }
        s
    }
}

/// An option spelled `--NAME VALUE` takes the next argument as its value,
/// when that argument does not read as an option itself.
pub proof fn law_option_value_is_next_argument(
    args: Seq<Seq<char>>,
    i: int,
    st: ArgsModel,
    name: Seq<char>,
)
    requires
        0 <= i,
        i + 1 < args.len(),
        !st.positional_only,
        name.len() > 0,
        forall|j: int| 0 <= j < name.len() ==> name[j] != '=',
        args[i] == "--"@ + name,
        name != "help"@,
        !(st.in_dump && name == "pretty"@),
        takes_value(name, st.in_dump),
        !is_flag_like(args[i + 1]),
    ensures
        args_step(args, i, st) == after_value(set_value(st, name, args[i + 1]), i + 2),
{
    reveal_strlit("--");
    let t = args[i];
    assert(t.skip(2) =~= name);
    lemma_eq_index(name, name.len() as int);
    assert(name.take(name.len() as int) =~= name);
    assert(t != "--"@);
}

/// An option spelled `--NAME=VALUE` takes what follows the `=` as its
/// value.
pub proof fn law_option_value_after_equals(
    args: Seq<Seq<char>>,
    i: int,
    st: ArgsModel,
    name: Seq<char>,
    value: Seq<char>,
)
    requires
        0 <= i < args.len(),
        !st.positional_only,
        name.len() > 0,
        forall|j: int| 0 <= j < name.len() ==> name[j] != '=',
        args[i] == "--"@ + name + "="@ + value,
        name != "help"@,
        !(st.in_dump && name == "pretty"@),
        takes_value(name, st.in_dump),
    ensures
        args_step(args, i, st) == after_value(set_value(st, name, value), i + 1),
{
    reveal_strlit("--");
    reveal_strlit("=");
    let t = args[i];
    let body = t.skip(2);
    assert(body =~= name + "="@ + value);
    assert(body[name.len() as int] == '=');
    assert forall|j: int| 0 <= j < name.len() implies body[j] != '=' by {
        assert(body[j] == name[j]);
    }
    lemma_eq_index(body, name.len() as int);
    assert(body.take(name.len() as int) =~= name);
    assert(body.skip(name.len() as int + 1) =~= value);
    assert(t.len() > 2);
    assert(t != "--"@);
}

/// Each option may be given once: giving a value again for an option that
/// already has one is refused, naming the option.
pub proof fn law_option_given_once(st: ArgsModel, name: Seq<char>, value: Seq<char>)
    requires
        (name == "url"@ && st.url is Some) || (name == "output"@ && st.output is Some) || (name
            == "count"@ && st.count is Some) || (name == "filter"@ && st.filter is Some),
    ensures
        set_value(st, name, value) == Err::<ArgsModel, ArgsFault>(ArgsFault::RepeatedArgument(name)),
{
    reveal_strlit("url");
    reveal_strlit("output");
    reveal_strlit("count");
    reveal_strlit("filter");
    assert("url"@.len() == 3 && "output"@.len() == 6 && "count"@.len() == 5);
    assert("filter"@.len() == 6 && "output"@[0] == 'o' && "filter"@[0] == 'f');
    assert("url"@ != "output"@ && "url"@ != "count"@ && "url"@ != "filter"@);
    assert("output"@ != "count"@ && "output"@ != "filter"@ && "count"@ != "filter"@);
}

/// `--` ends the options: once it is read, every later argument of the
/// `dump` subcommand is positional, even one that starts with a dash.
pub proof fn law_double_dash_ends_options(args: Seq<Seq<char>>, i: int, st: ArgsModel)
    requires
        0 <= i < args.len(),
        !st.positional_only,
        st.in_dump,
        st.stream is None,
        args[i] == "--"@,
        i + 1 < args.len(),
    ensures
        args_step(args, i, st) == ArgsStep::Next(i + 1, ArgsModel { positional_only: true, ..st }),
        args_step(args, i + 1, ArgsModel { positional_only: true, ..st }) == ArgsStep::Next(
            i + 2,
            ArgsModel { positional_only: true, stream: Some(args[i + 1]), ..st },
        ),
{
}

/// `--pretty` is a flag that takes no value: once the `dump` subcommand
/// has been read, it sets the layout and reading goes on with the very next
/// argument, whatever that argument is, so `dump --pretty S` names the
/// stream `S`.
pub proof fn law_pretty_takes_no_value(args: Seq<Seq<char>>, i: int, st: ArgsModel)
    requires
        0 <= i < args.len(),
        !st.positional_only,
        st.in_dump,
        !st.pretty,
        args[i] == "--pretty"@,
    ensures
        args_step(args, i, st) == ArgsStep::Next(i + 1, ArgsModel { pretty: true, ..st }),
        args_run(args, i, st) == args_run(args, i + 1, ArgsModel { pretty: true, ..st }),
{
    reveal_strlit("--pretty");
    reveal_strlit("pretty");
    reveal_strlit("help");
    reveal_strlit("--");
    let t = args[i];
    let name = "pretty"@;
    assert(t.skip(2) =~= name);
    assert forall|j: int| 0 <= j < name.len() implies name[j] != '=' by {}
    lemma_eq_index(name, name.len() as int);
    assert(name.take(name.len() as int) =~= name);
    assert(long_name(t) == name);
    assert(long_inline(t) is None);
    assert(t != "--"@);
    assert(name != "help"@);
}

/// A short option of the `dump` subcommand (`-o`, `-n`, `-f`) spelled
/// alone takes the next argument as the value of its long form, when that
/// argument does not read as an option itself.
pub proof fn law_short_option_value_is_next_argument(
    args: Seq<Seq<char>>,
    i: int,
    st: ArgsModel,
    c: char,
)
    requires
        0 <= i,
        i + 1 < args.len(),
        !st.positional_only,
        st.in_dump,
        c == 'o' || c == 'n' || c == 'f',
        args[i] == seq!['-', c],
        !is_flag_like(args[i + 1]),
    ensures
        args_step(args, i, st) == after_value(
            set_value(
                st,
                if c == 'o' {
                    "output"@
                } else if c == 'n' {
                    "count"@
                } else {
                    "filter"@
                },
                args[i + 1],
            ),
            i + 2,
        ),
{
    reveal_strlit("--");
    let t = args[i];
    assert(t != "--"@);
    assert(t.skip(2).len() == 0);
}

/// A value given for an option not given before is recorded as it is, and
/// nothing else changes.
pub proof fn law_first_value_is_recorded(st: ArgsModel, value: Seq<char>)
    ensures
        st.url is None ==> set_value(st, "url"@, value) == Ok::<ArgsModel, ArgsFault>(
            ArgsModel { url: Some(value), ..st },
        ),
        st.output is None ==> set_value(st, "output"@, value) == Ok::<ArgsModel, ArgsFault>(
            ArgsModel { output: Some(value), ..st },
        ),
        st.filter is None ==> set_value(st, "filter"@, value) == Ok::<ArgsModel, ArgsFault>(
            ArgsModel { filter: Some(value), ..st },
        ),
{
    reveal_strlit("url");
    reveal_strlit("output");
    reveal_strlit("count");
    reveal_strlit("filter");
    assert("url"@.len() == 3 && "output"@.len() == 6 && "count"@.len() == 5);
    assert("filter"@.len() == 6 && "output"@[0] == 'o' && "filter"@[0] == 'f');
    assert("url"@ != "output"@ && "url"@ != "count"@ && "url"@ != "filter"@);
    assert("output"@ != "count"@ && "output"@ != "filter"@ && "count"@ != "filter"@);
}

/// The first argument of the `dump` subcommand that is no option names the
/// stream; reading goes on with the next one.
pub proof fn law_first_positional_names_the_stream(args: Seq<Seq<char>>, i: int, st: ArgsModel)
    requires
        0 <= i < args.len(),
        st.in_dump,
        st.stream is None,
        st.positional_only || (!is_flag_like(args[i]) && args[i] != "--"@),
    ensures
        args_step(args, i, st) == ArgsStep::Next(i + 1, ArgsModel { stream: Some(args[i]), ..st }),
{
}

} // verus!
