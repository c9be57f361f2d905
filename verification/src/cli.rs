//! Configuration: its fields, the default locations, and the shell-style
//! expansion of the paths it holds.

use vstd::prelude::*;

use crate::service::ServiceArgs;
use crate::text::str_eq;

verus! {

/// Verbosity of the agent's log.
#[derive(Clone, Copy)]
pub enum LogLevel {
    Error,
    Warn,
    Info,
    Debug,
    Trace,
}

/// The agent's configuration, after merging the file with the command line.
pub struct Config {
    /// Socket path the multiplexer listens on.
    pub listen_path: String,
    /// Log verbosity.
    pub log_level: LogLevel,
    /// Log file; standard output when absent.
    pub log_file: Option<String>,
    /// Socket paths of the upstream agents, in the order their keys are offered.
    pub agent_sock_paths: Vec<String>,
    /// Path of the configuration file.
    pub config_path: String,
    /// Service-management options.
    pub service: ServiceArgs,
}

/// `rel` appended to `base` as a path component, as `PathBuf::push` does for
/// a relative `rel`: a separator is put between them unless `base` is empty
/// or already ends with one.
pub open spec fn join_component(base: Seq<char>, rel: Seq<char>) -> Seq<char> {
    if base.len() == 0 || base.last() == '/' {
        base + rel
    } else {
        base + "/"@ + rel
    }
}

/// Append `rel` to `base` as a path component.
pub fn join_path(base: &str, rel: &str) -> (p: String)
    ensures
        p@ == join_component(base@, rel@),
{
    let n = base.unicode_len();
    let mut p = String::from_str(base);
    if n > 0 && base.get_char(n - 1) != '/' {
        p.append("/");
    }
    p.append(rel);
    p
}

/// The configuration file under the configuration directory `config_dir`.
pub open spec fn config_file_in(config_dir: Seq<char>) -> Seq<char> {
    join_component(join_component(config_dir, "ssh-agent-mux"@), "ssh-agent-mux.toml"@)
}

/// Where the configuration file is looked for: under `$XDG_CONFIG_HOME` when
/// that variable is set, else under `~/.config`.
pub fn default_config_path(xdg_config_home: Option<&str>) -> (p: String)
    ensures
        p@ == config_file_in(
            match xdg_config_home {
                Some(d) => d@,
                None => "~/.config"@,
            },
        ),
{
    let dir = match xdg_config_home {
        Some(d) => join_path(d, "ssh-agent-mux"),
        None => join_path("~/.config", "ssh-agent-mux"),
    };
    join_path(dir.as_str(), "ssh-agent-mux.toml")
}

/// The socket path the multiplexer listens on unless configured otherwise.
pub fn default_listen_path() -> (p: String)
    ensures
        p@ == "~/.ssh/ssh-agent-mux.sock"@,
{
    String::from_str("~/.ssh/ssh-agent-mux.sock")
}

/// The log level unless configured otherwise.
pub fn default_log_level() -> (l: LogLevel)
    ensures
        l is Warn,
{
    LogLevel::Warn
}

/// The value of the first variable named `name` in `vars`.
pub open spec fn lookup_var(vars: Seq<(Seq<char>, Seq<char>)>, name: Seq<char>) -> Option<Seq<char>>
    decreases vars.len(),
{
    if vars.len() == 0 {
        None
    } else if vars[0].0 == name {
        Some(vars[0].1)
    } else {
        lookup_var(vars.drop_first(), name)
    }
}

/// The environment that paths are expanded in: the home directory, the
/// environment variables, and the variables whose values are not UTF-8
/// (each with the `Debug` form of its value).
pub struct ExpandContext {
    pub home: Option<String>,
    pub vars: Vec<(String, String)>,
    pub non_unicode: Vec<(String, String)>,
}

/// Why a variable named in a path has no value, as `std::env::var` reports it.
pub enum LookupFailure {
    /// The variable is not set.
    NotPresent,
    /// The variable's value is not UTF-8; carries the `Debug` form of the value.
    NotUnicode(String),
}

/// A lookup failure by its view: `None` for a variable that is not set, the
/// `Debug` form of the value for one that is not UTF-8.
pub open spec fn failure_view(f: LookupFailure) -> Option<Seq<char>> {
    match f {
        LookupFailure::NotPresent => None,
        LookupFailure::NotUnicode(d) => Some(d@),
    }
}

/// The outcome of expanding a text: the expanded text, or the name of the
/// first variable that has no value and why (see `failure_view`).
pub type Expansion = Result<Seq<char>, (Seq<char>, Option<Seq<char>>)>;

/// A variable named in a path has no value.
pub struct ExpandError {
    pub var_name: String,
    pub cause: LookupFailure,
}

/// An expansion error by its view.
pub open spec fn error_view(e: ExpandError) -> (Seq<char>, Option<Seq<char>>) {
    (e.var_name@, failure_view(e.cause))
}

/// The text of an expansion error.
pub open spec fn expand_error_text(e: ExpandError) -> Seq<char> {
    "error looking key '"@ + e.var_name@ + "' up: "@ + match e.cause {
        LookupFailure::NotPresent => "environment variable not found"@,
        LookupFailure::NotUnicode(d) => "environment variable was not valid unicode: "@ + d@,
    }
}

impl ExpandError {
    /// Human-readable description of the error.
    pub fn message(&self) -> (m: String)
        ensures
            m@ == expand_error_text(*self),
    {
        let mut m = String::from_str("error looking key '");
        m.append(self.var_name.as_str());
        m.append("' up: ");
        match &self.cause {
            LookupFailure::NotPresent => m.append("environment variable not found"),
            LookupFailure::NotUnicode(d) => {
                m.append("environment variable was not valid unicode: ");
                m.append(d.as_str());
            },
        }
        m
    }
}

impl ExpandContext {
    pub open spec fn home_view(&self) -> Option<Seq<char>> {
        match self.home {
            Some(h) => Some(h@),
            None => None,
        }
    }

    pub open spec fn vars_view(&self) -> Seq<(Seq<char>, Seq<char>)> {
        self.vars@.map_values(|p: (String, String)| (p.0@, p.1@))
    }

    pub open spec fn non_unicode_view(&self) -> Seq<(Seq<char>, Seq<char>)> {
        self.non_unicode@.map_values(|p: (String, String)| (p.0@, p.1@))
    }

    /// The home directory, for expanding a leading `~`.
    pub fn home_dir(&self) -> (h: Option<String>)
        ensures
            match h {
                Some(s) => self.home_view() == Some(s@),
                None => self.home_view() is None,
            },
    {
        match &self.home {
            Some(s) => Some(s.clone()),
            None => None,
        }
    }

    /// The value of the variable `name`; a variable that is not set, or whose
    /// value is not UTF-8, is an error, as for `std::env::var`.
    pub fn lookup(&self, name: &str) -> (r: Result<Option<String>, LookupFailure>)
        ensures
            match lookup_var(self.vars_view(), name@) {
                Some(v) => r matches Ok(Some(s)) && s@ == v,
                None => r matches Err(f) && failure_view(f) == lookup_var(self.non_unicode_view(), name@),
            },
            r matches Ok(Some(s)) ==> exists|i: int|
                0 <= i < self.vars@.len() && (#[trigger] self.vars@[i]).0@ == name@ && self.vars@[i].1@
                    == s@ && forall|j: int| 0 <= j < i ==> (#[trigger] self.vars@[j]).0@ != name@,
            r is Err ==> forall|i: int|
                0 <= i < self.vars@.len() ==> (#[trigger] self.vars@[i]).0@ != name@,
            !(r matches Ok(None)),
    {
        match find_var(&self.vars, name) {
            Some(v) => Ok(Some(v)),
            None => match find_var(&self.non_unicode, name) {
                Some(d) => Err(LookupFailure::NotUnicode(d)),
                None => Err(LookupFailure::NotPresent),
            },
        }
    }
}

/// The value of the first variable named `name` in `vars`.
fn find_var(vars: &Vec<(String, String)>, name: &str) -> (r: Option<String>)
    ensures
        match lookup_var(vars@.map_values(|p: (String, String)| (p.0@, p.1@)), name@) {
            Some(v) => r matches Some(s) && s@ == v,
            None => r is None,
        },
        r matches Some(s) ==> exists|i: int|
            0 <= i < vars@.len() && (#[trigger] vars@[i]).0@ == name@ && vars@[i].1@ == s@
                && forall|j: int| 0 <= j < i ==> (#[trigger] vars@[j]).0@ != name@,
        r is None ==> forall|i: int| 0 <= i < vars@.len() ==> (#[trigger] vars@[i]).0@ != name@,
{
    let ghost all = vars@.map_values(|p: (String, String)| (p.0@, p.1@));
    assert(all.subrange(0, all.len() as int) =~= all);
    let mut i: usize = 0;
    while i < vars.len()
        invariant
            all == vars@.map_values(|p: (String, String)| (p.0@, p.1@)),
            i <= vars.len(),
            lookup_var(all, name@) == lookup_var(all.subrange(i as int, all.len() as int), name@),
            forall|j: int| 0 <= j < i ==> (#[trigger] vars@[j]).0@ != name@,
        decreases vars.len() - i,
    {
        let ghost rest = all.subrange(i as int, all.len() as int);
        assert(rest[0] == all[i as int]);
        if str_eq(vars[i].0.as_str(), name) {
            let v = vars[i].1.clone();
            assert(vars@[i as int].0@ == name@ && vars@[i as int].1@ == v@);
            return Some(v);
        }
        assert(rest.drop_first() =~= all.subrange(i + 1, all.len() as int));
        i = i + 1;
    }
    assert(all.subrange(i as int, all.len() as int).len() == 0);
    None
}

/// Name for what `shellexpand::full_with_context` returns for `input` when
/// `~` stands for `home` and variables are looked up in `vars` (a variable
/// that is not there being an error, with the `Debug` form of its value when
/// it is listed in `non_unicode`): the expanded text, or the name of the
/// first variable without a value and why. (The crate's tilde rule also accepts `~\` on Windows;
/// this library runs on Unix only, where it does not.)
pub uninterp spec fn shell_expansion(
    input: Seq<char>,
    home: Option<Seq<char>>,
    vars: Seq<(Seq<char>, Seq<char>)>,
    non_unicode: Seq<(Seq<char>, Seq<char>)>,
) -> Expansion;

/// Text with no variable reference and no leading tilde.
pub open spec fn needs_no_expansion(s: Seq<char>) -> bool {
    !s.contains('$') && !(s.len() > 0 && s[0] == '~')
}

/// Text with no variable reference that is `~` alone or starts with `~/`.
pub open spec fn home_relative(s: Seq<char>) -> bool {
    !s.contains('$') && s.len() > 0 && s[0] == '~' && (s.len() == 1 || s[1] == '/')
}

/// A successful expansion to `s`.
pub open spec fn ok_text(s: Seq<char>) -> Expansion {
    Ok(s)
}

/// A result of strings, by the strings' views.
pub open spec fn text_result(r: Result<String, (String, LookupFailure)>) -> Expansion {
    match r {
        Ok(s) => Ok(s@),
        Err((n, f)) => Err((n@, failure_view(f))),
    }
}

/// Shell-style expansion of a leading `~` and of `$VAR` / `${VAR}` references:
/// calls `shellexpand::full_with_context`. The contract ties the result to the
/// name above and states two facts its source shows: text with no `$` and no
/// leading `~` is returned unchanged, and with no `$`, a leading `~` alone or
/// followed by `/` is replaced by the home directory when there is one.
#[verifier::external_body]
fn shellexpand_full(input: &str, ctx: &ExpandContext) -> (r: Result<String, (String, LookupFailure)>)
    ensures
        text_result(r) == shell_expansion(
            input@,
            ctx.home_view(),
            ctx.vars_view(),
            ctx.non_unicode_view(),
        ),
        needs_no_expansion(input@) ==> text_result(r) == ok_text(input@),
        home_relative(input@) && ctx.home_view() is Some ==> text_result(r) == ok_text(
            ctx.home_view()->0 + input@.drop_first(),
        ),
{
    shellexpand::full_with_context(input, || ctx.home_dir(), |name: &str| ctx.lookup(name))
        .map(|s| s.into_owned())
        .map_err(|e| (e.var_name, e.cause))
}

/// The expansion of a path in the context `ctx`.
pub open spec fn expansion_of(p: Seq<char>, ctx: ExpandContext) -> Expansion {
    shell_expansion(p, ctx.home_view(), ctx.vars_view(), ctx.non_unicode_view())
}

/// Expand a leading `~` and environment variable references in `path`.
pub fn expand_path(path: &str, ctx: &ExpandContext) -> (r: Result<String, ExpandError>)
    ensures
        match expansion_of(path@, *ctx) {
            Ok(p) => r matches Ok(s) && s@ == p,
            Err(n) => r matches Err(e) && error_view(e) == n,
        },
        needs_no_expansion(path@) ==> (r matches Ok(s) && s@ == path@),
        home_relative(path@) && ctx.home_view() is Some ==> (r matches Ok(s) && s@
            == ctx.home_view()->0 + path@.drop_first()),
        match plain_expansion(path@, ctx.home_view()) {
            Some(q) => expansion_of(path@, *ctx) == ok_text(q) && (r matches Ok(s) && s@ == q),
            None => true,
        },
{
    match shellexpand_full(path, ctx) {
        Ok(s) => Ok(s),
        Err((n, f)) => Err(ExpandError { var_name: n, cause: f }),
    }
}

/// What a path expands to whatever the variables: itself when it holds no
/// variable reference and no leading tilde, the home directory followed by
/// the rest when it is `~` or starts with `~/` and there is a home directory.
pub open spec fn plain_expansion(p: Seq<char>, home: Option<Seq<char>>) -> Option<Seq<char>> {
    if needs_no_expansion(p) {
        Some(p)
    } else if home_relative(p) && home is Some {
        Some(home->0 + p.drop_first())
    } else {
        None
    }
}

/// `out` is what `p` expands to, where `plain_expansion` says what that is.
pub open spec fn expands_plainly(p: Seq<char>, home: Option<Seq<char>>, out: Seq<char>) -> bool {
    match plain_expansion(p, home) {
        Some(q) => out == q,
        None => true,
    }
}

/// Expansion of every path of `paths`, in order; the first failure wins.
pub open spec fn expand_all(paths: Seq<String>, ctx: ExpandContext) -> Result<
    Seq<Seq<char>>,
    (Seq<char>, Option<Seq<char>>),
>
    decreases paths.len(),
{
    if paths.len() == 0 {
        Ok(Seq::empty())
    } else {
        match expand_all(paths.drop_last(), ctx) {
            Err(n) => Err(n),
            Ok(done) => match expansion_of(paths.last()@, ctx) {
                Err(n) => Err(n),
                Ok(p) => Ok(done.push(p)),
            },
        }
    }
}

/// Expand each path of `paths`, in order, stopping at the first failure.
pub fn expand_each(paths: &Vec<String>, ctx: &ExpandContext) -> (r: Result<Vec<String>, ExpandError>)
    ensures
        match expand_all(paths@, *ctx) {
            Ok(ps) => r matches Ok(v) && v@.map_values(|s: String| s@) == ps,
            Err(n) => r matches Err(e) && error_view(e) == n,
        },
        r matches Ok(v) ==> v@.len() == paths@.len() && forall|i: int|
            0 <= i < paths@.len() ==> expands_plainly(
                #[trigger] paths@[i]@,
                ctx.home_view(),
                v@[i]@,
            ),
        r is Err ==> exists|i: int|
            0 <= i < paths@.len() && (plain_expansion(#[trigger] paths@[i]@, ctx.home_view()) is None),
        r matches Ok(v) ==> forall|i: int|
            0 <= i < paths@.len() ==> expansion_of(#[trigger] paths@[i]@, *ctx) == ok_text(v@[i]@),
        r matches Err(e) ==> exists|i: int|
            0 <= i < paths@.len() && expansion_of(#[trigger] paths@[i]@, *ctx) == Err::<
                Seq<char>,
                (Seq<char>, Option<Seq<char>>),
            >(error_view(e)),
{
    let mut out: Vec<String> = Vec::new();
    let mut i: usize = 0;
    assert(paths@.subrange(0, 0) =~= Seq::<String>::empty());
    assert(out@.map_values(|s: String| s@) =~= Seq::<Seq<char>>::empty());
    while i < paths.len()
        invariant
            i <= paths.len(),
            expand_all(paths@.subrange(0, i as int), *ctx) == Ok::<Seq<Seq<char>>, (Seq<char>, Option<Seq<char>>)>(
                out@.map_values(|s: String| s@),
            ),
            out@.len() == i,
            forall|k: int|
                0 <= k < i ==> expands_plainly(#[trigger] paths@[k]@, ctx.home_view(), out@[k]@),
            forall|k: int| 0 <= k < i ==> expansion_of(#[trigger] paths@[k]@, *ctx) == ok_text(out@[k]@),
        decreases paths.len() - i,
    {
        let ghost sub = paths@.subrange(0, i + 1);
        assert(sub.drop_last() =~= paths@.subrange(0, i as int));
        assert(sub.last() == paths@[i as int]);
        match expand_path(paths[i].as_str(), ctx) {
            Ok(p) => {
                let ghost before = out@;
                out.push(p);
                assert(out@.map_values(|s: String| s@) =~= before.map_values(|s: String| s@).push(p@));
            },
            Err(e) => {
                proof {
                    lemma_expand_all_stops(paths@, *ctx, i + 1);
                    assert(plain_expansion(paths@[i as int]@, ctx.home_view()) is None);
                }
                return Err(e);
            },
        }
        i = i + 1;
    }
    assert(paths@.subrange(0, paths@.len() as int) =~= paths@);
    Ok(out)
}

/// Once a prefix of the paths fails to expand, the whole list fails the same way.
proof fn lemma_expand_all_stops(paths: Seq<String>, ctx: ExpandContext, k: int)
    requires
        0 <= k <= paths.len(),
        expand_all(paths.subrange(0, k), ctx) is Err,
    ensures
        expand_all(paths, ctx) == expand_all(paths.subrange(0, k), ctx),
    decreases paths.len() - k,
{
    if k < paths.len() {
        let next = paths.subrange(0, k + 1);
        assert(next.drop_last() =~= paths.subrange(0, k));
        lemma_expand_all_stops(paths, ctx, k + 1);
    } else {
        assert(paths.subrange(0, k) =~= paths);
    }
}

/// The expansions of a configuration's listen path, log file and upstream
/// agent paths, in that order; the first failure wins.
pub open spec fn config_expansion(c: Config, ctx: ExpandContext) -> Result<
    (Seq<char>, Option<Seq<char>>, Seq<Seq<char>>),
    (Seq<char>, Option<Seq<char>>),
> {
    match expansion_of(c.listen_path@, ctx) {
        Err(n) => Err(n),
        Ok(l) => {
            let f: Result<Option<Seq<char>>, (Seq<char>, Option<Seq<char>>)> = match c.log_file {
                None => Ok(None),
                Some(p) => match expansion_of(p@, ctx) {
                    Err(n) => Err(n),
                    Ok(q) => Ok(Some(q)),
                },
            };
            match f {
                Err(n) => Err(n),
                Ok(fo) => match expand_all(c.agent_sock_paths@, ctx) {
                    Err(n) => Err(n),
                    Ok(a) => Ok((l, fo, a)),
                },
            }
        },
    }
}

/// An optional string, by its view.
pub open spec fn opt_text(o: Option<String>) -> Option<Seq<char>> {
    match o {
        Some(s) => Some(s@),
        None => None,
    }
}

impl Config {
    /// Expand `~` and environment variables in the listen path, the log file
    /// and the upstream agent paths; the other fields are kept.
    pub fn expand_paths(self, ctx: &ExpandContext) -> (r: Result<Config, ExpandError>)
        ensures
            match config_expansion(self, *ctx) {
                Ok((l, f, a)) => r matches Ok(c) && {
                    &&& c.listen_path@ == l
                    &&& opt_text(c.log_file) == f
                    &&& c.agent_sock_paths@.map_values(|s: String| s@) == a
                    &&& c.log_level == self.log_level
                    &&& c.config_path == self.config_path
                    &&& c.service == self.service
                },
                Err(n) => r matches Err(e) && error_view(e) == n,
            },
            r matches Ok(c) ==> {
                &&& expands_plainly(self.listen_path@, ctx.home_view(), c.listen_path@)
                &&& match (self.log_file, c.log_file) {
                    (Some(f), Some(g)) => expands_plainly(f@, ctx.home_view(), g@),
                    (None, None) => true,
                    _ => false,
                }
                &&& c.agent_sock_paths@.len() == self.agent_sock_paths@.len()
                &&& forall|i: int|
                    0 <= i < self.agent_sock_paths@.len() ==> expands_plainly(
                        #[trigger] self.agent_sock_paths@[i]@,
                        ctx.home_view(),
                        c.agent_sock_paths@[i]@,
                    )
            },
            r matches Ok(c) ==> expansion_of(self.listen_path@, *ctx) == ok_text(c.listen_path@),
            r matches Ok(c) ==> match (self.log_file, c.log_file) {
                (Some(f), Some(g)) => expansion_of(f@, *ctx) == ok_text(g@),
                (None, None) => true,
                _ => false,
            },
            r matches Ok(c) ==> forall|i: int|
                0 <= i < self.agent_sock_paths@.len() ==> expansion_of(
                    #[trigger] self.agent_sock_paths@[i]@,
                    *ctx,
                ) == ok_text(c.agent_sock_paths@[i]@),
            expansion_of(self.listen_path@, *ctx) matches Err(n) ==> (r matches Err(e) && error_view(e)
                == n),
            r matches Err(e) ==> {
                ||| expansion_of(self.listen_path@, *ctx) == Err::<Seq<char>, (Seq<char>, Option<Seq<char>>)>(
                    error_view(e),
                )
                ||| (self.log_file matches Some(f) && expansion_of(f@, *ctx) == Err::<
                    Seq<char>,
                    (Seq<char>, Option<Seq<char>>),
                >(error_view(e)))
                ||| exists|i: int|
                    0 <= i < self.agent_sock_paths@.len() && expansion_of(
                        #[trigger] self.agent_sock_paths@[i]@,
                        *ctx,
                    ) == Err::<Seq<char>, (Seq<char>, Option<Seq<char>>)>(error_view(e))
            },
            r is Err ==> {
                ||| plain_expansion(self.listen_path@, ctx.home_view()) is None
                ||| (self.log_file matches Some(f) && plain_expansion(f@, ctx.home_view()) is None)
                ||| exists|i: int|
                    0 <= i < self.agent_sock_paths@.len() && (plain_expansion(
                        #[trigger] self.agent_sock_paths@[i]@,
                        ctx.home_view(),
                    ) is None)
            },
    {
        let listen_path = match expand_path(self.listen_path.as_str(), ctx) {
            Ok(p) => p,
            Err(e) => return Err(e),
        };
        let log_file = match &self.log_file {
            None => None,
            Some(f) => match expand_path(f.as_str(), ctx) {
                Ok(p) => Some(p),
                Err(e) => return Err(e),
            },
        };
        let agent_sock_paths = match expand_each(&self.agent_sock_paths, ctx) {
            Ok(v) => v,
            Err(e) => return Err(e),
        };
        Ok(Config {
            listen_path,
            log_level: self.log_level,
            log_file,
            agent_sock_paths,
            config_path: self.config_path,
            service: self.service,
        })
    }
}

/// The settings one source gives: the configuration file or the command
/// line. `None` leaves a setting to the sources below it.
pub struct ConfigLayer {
    pub listen_path: Option<String>,
    pub log_level: Option<LogLevel>,
    /// `Some(f)` sets the log file to `f`, where `f` may itself be `None`.
    pub log_file: Option<Option<String>>,
    pub agent_sock_paths: Option<Vec<String>>,
}

/// The setting from the first source that gives one: the command line, then
/// the file, then the default.
pub open spec fn layered<T>(args: Option<T>, file: Option<T>, default: T) -> T {
    match args {
        Some(v) => v,
        None => match file {
            Some(v) => v,
            None => default,
        },
    }
}

/// An optional vector, by its view.
pub open spec fn opt_seq<T>(o: Option<Vec<T>>) -> Option<Seq<T>> {
    match o {
        Some(v) => Some(v@),
        None => None,
    }
}

/// The first of two settings that is given.
fn pick<T>(first: Option<T>, second: Option<T>) -> (r: Option<T>)
    ensures
        r == (match first {
            Some(v) => Some(v),
            None => second,
        }),
{
    match first {
        Some(v) => Some(v),
        None => second,
    }
}

impl Config {
    /// The configuration from the settings of the file (`file`) and of the
    /// command line (`args`): a setting given on the command line overrides
    /// the file's, which overrides the default. The configuration file's own
    /// path and the service options come from the command line only.
    pub fn from_layers(file: ConfigLayer, args: ConfigLayer, config_path: String, service: ServiceArgs) -> (c: Config)
        ensures
            c.listen_path@ == layered(
                opt_text(args.listen_path),
                opt_text(file.listen_path),
                "~/.ssh/ssh-agent-mux.sock"@,
            ),
            c.log_level == layered(args.log_level, file.log_level, LogLevel::Warn),
            c.log_file == layered(args.log_file, file.log_file, None),
            c.agent_sock_paths@ == layered(
                opt_seq(args.agent_sock_paths),
                opt_seq(file.agent_sock_paths),
                Seq::empty(),
            ),
            c.config_path == config_path,
            c.service == service,
            args.listen_path matches Some(p) ==> c.listen_path == p,
            args.listen_path is None ==> (file.listen_path matches Some(p) ==> c.listen_path == p),
            args.listen_path is None && file.listen_path is None ==> c.listen_path@
                == "~/.ssh/ssh-agent-mux.sock"@,
            args.log_level matches Some(l) ==> c.log_level == l,
            args.log_level is None ==> (file.log_level matches Some(l) ==> c.log_level == l),
            args.log_level is None && file.log_level is None ==> c.log_level is Warn,
            args.log_file matches Some(f) ==> c.log_file == f,
            args.log_file is None ==> (file.log_file matches Some(f) ==> c.log_file == f),
            args.log_file is None && file.log_file is None ==> c.log_file is None,
            args.agent_sock_paths matches Some(v) ==> c.agent_sock_paths == v,
            args.agent_sock_paths is None ==> (file.agent_sock_paths matches Some(v)
                ==> c.agent_sock_paths == v),
            args.agent_sock_paths is None && file.agent_sock_paths is None ==> c.agent_sock_paths@.len()
                == 0,
    {
        let listen_path = match pick(args.listen_path, file.listen_path) {
            Some(p) => p,
            None => default_listen_path(),
        };
        let log_level = match pick(args.log_level, file.log_level) {
            Some(l) => l,
            None => default_log_level(),
        };
        let log_file = match pick(args.log_file, file.log_file) {
            Some(f) => f,
            None => None,
        };
        let agent_sock_paths = match pick(args.agent_sock_paths, file.agent_sock_paths) {
            Some(v) => v,
            None => Vec::new(),
        };
        Config { listen_path, log_level, log_file, agent_sock_paths, config_path, service }
    }
}

} // verus!
