//! Command-line option values.
use vstd::prelude::*;

use crate::clonable_command::{plain_command, ClonableCommand, ClonableCommandView};
use crate::ghci::parse::scan::{starts_with_at, str_at};
use crate::text::{chars_of, push_str};

verus! {

/// Whether to display backtraces in errors.
#[derive(Debug, Clone, Copy, PartialEq, Eq, Structural)]
pub enum RustBacktrace {
    /// Hide backtraces in errors.
    Off,
    /// Display backtraces in errors.
    On,
    /// Display full backtraces in errors, including less-useful stack frames.
    Full,
}

/// How a backtrace setting is written, as in `$RUST_BACKTRACE`.
pub open spec fn backtrace_text(b: RustBacktrace) -> Seq<char> {
    match b {
        RustBacktrace::Off => "0"@,
        RustBacktrace::On => "1"@,
        RustBacktrace::Full => "full"@,
    }
}

impl RustBacktrace {
    /// Every setting, in the order they are offered.
    pub fn value_variants() -> (r: Vec<RustBacktrace>)
        ensures
            r@ == seq![RustBacktrace::Off, RustBacktrace::On, RustBacktrace::Full],
    {
        let r = vec![RustBacktrace::Off, RustBacktrace::On, RustBacktrace::Full];
        assert(r@ =~= seq![RustBacktrace::Off, RustBacktrace::On, RustBacktrace::Full]);
        r
    }

    /// The value of `$RUST_BACKTRACE` that selects this setting.
    pub fn to_string(&self) -> (r: String)
        ensures
            r@ == backtrace_text(*self),
    {
        let mut r = String::new();
        match self {
            RustBacktrace::Off => push_str(&mut r, "0"),
            RustBacktrace::On => push_str(&mut r, "1"),
            RustBacktrace::Full => push_str(&mut r, "full"),
        }
        assert(r@ =~= backtrace_text(*self));
        r
    }

    /// Parse a value of `$RUST_BACKTRACE`: exactly one of `0`, `1` or `full`.
    pub fn from_str(input: &str) -> (r: Option<RustBacktrace>)
        ensures
            match r {
                Some(b) => input@ == backtrace_text(b),
                None => input@ != "0"@ && input@ != "1"@ && input@ != "full"@,
            },
    {
        proof {
            reveal_strlit("0");
            reveal_strlit("1");
            reveal_strlit("full");
        }
        let s = chars_of(input);
        if s.len() == 1 && str_at(&s, 0, "0") {
            assert(input@ =~= s@.subrange(0, 1));
            Some(RustBacktrace::Off)
        } else if s.len() == 1 && str_at(&s, 0, "1") {
            assert(input@ =~= s@.subrange(0, 1));
            Some(RustBacktrace::On)
        } else if s.len() == 4 && str_at(&s, 0, "full") {
            assert(input@ =~= s@.subrange(0, 4));
            Some(RustBacktrace::Full)
        } else {
            proof {
                if input@ == "0"@ {
                    assert(starts_with_at(s@, 0, "0"@)) by {
                        assert(s@.subrange(0, 1) =~= "0"@);
                    }
                }
                if input@ == "1"@ {
                    assert(starts_with_at(s@, 0, "1"@)) by {
                        assert(s@.subrange(0, 1) =~= "1"@);
                    }
                }
                if input@ == "full"@ {
                    assert(starts_with_at(s@, 0, "full"@)) by {
                        assert(s@.subrange(0, 4) =~= "full"@);
                    }
                }
            }
            None
        }
    }
}

/// Writing a setting and reading it back gives the same setting.
pub proof fn lemma_backtrace_round_trip(b: RustBacktrace, c: RustBacktrace)
    ensures
        backtrace_text(b) == backtrace_text(c) <==> b == c,
{
    reveal_strlit("0");
    reveal_strlit("1");
    reveal_strlit("full");
    if b != c {
        match (b, c) {
            (RustBacktrace::Off, RustBacktrace::On) => assert(backtrace_text(b)[0] != backtrace_text(c)[0]),
            (RustBacktrace::On, RustBacktrace::Off) => assert(backtrace_text(b)[0] != backtrace_text(c)[0]),
            _ => assert(backtrace_text(b).len() != backtrace_text(c).len()),
        }
    }
}

/// Default debounce delay for file events, in milliseconds.
pub const DEFAULT_DEBOUNCE_MS: u64 = 500;

/// Options for watching files.
#[derive(Debug, Clone)]
pub struct WatchOpts {
    /// Poll with this interval, in milliseconds, rather than use notification-based file
    /// watching.
    pub poll_ms: Option<u64>,
    /// Wait this long, in milliseconds, after receiving an event before attempting to reload.
    pub debounce_ms: u64,
    /// Paths to watch for changes; directories are watched recursively.
    pub paths: Vec<String>,
    /// Reload the `ghci` session when paths matching these globs change.
    pub reload_globs: Vec<String>,
    /// Restart the `ghci` session when paths matching these globs change.
    pub restart_globs: Vec<String>,
}

impl WatchOpts {
    /// The options when none are given: notification-based watching, a half-second debounce,
    /// no extra paths and no globs.
    pub fn new() -> (r: Self)
        ensures
            r.poll_ms is None,
            r.debounce_ms == DEFAULT_DEBOUNCE_MS,
            r.paths@.len() == 0,
            r.reload_globs@.len() == 0,
            r.restart_globs@.len() == 0,
    {
        WatchOpts {
            poll_ms: None,
            debounce_ms: DEFAULT_DEBOUNCE_MS,
            paths: Vec::new(),
            reload_globs: Vec::new(),
            restart_globs: Vec::new(),
        }
    }
}

/// The command a session starts with when none is given: `cabal repl`.
pub open spec fn default_session_command() -> ClonableCommandView {
    plain_command("cabal"@, seq!["repl"@])
}

/// The command that starts the `ghci` session: `ghci` with the file when a file is given, the
/// given command, or else `cabal repl`. (The command line cannot give both a file and a command.)
pub fn session_command(file: Option<String>, command: Option<ClonableCommand>) -> (r: ClonableCommand)
    requires
        !(file is Some && command is Some),
    ensures
        match (file, command) {
            (Some(f), _) => r@ == plain_command("ghci"@, seq![f@]),
            (None, Some(c)) => r@ == c@,
            (None, None) => r@ == default_session_command(),
        },
{
    match (file, command) {
        (Some(f), _) => {
            let mut program = String::new();
            push_str(&mut program, "ghci");
            proof {
                reveal_strlit("ghci");
            }
            let r = ClonableCommand::new(program).arg(f);
            assert(Seq::<Seq<char>>::empty().push(r@.args.last()) =~= r@.args);
            r
        },
        (None, Some(c)) => c,
        (None, None) => {
            let mut program = String::new();
            push_str(&mut program, "cabal");
            let mut arg = String::new();
            push_str(&mut arg, "repl");
            proof {
                reveal_strlit("cabal");
                reveal_strlit("repl");
            }
            let r = ClonableCommand::new(program).arg(arg);
            assert(Seq::<Seq<char>>::empty().push(r@.args.last()) =~= r@.args);
            r
        },
    }
}

} // verus!
