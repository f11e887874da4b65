//! A description of a command to run, which (unlike `std::process::Command`) can be cloned and
//! compared.
use vstd::prelude::*;

use crate::ghci::parse::scan::{trim, trim_range};
use crate::text::{chars_of, opt_view, string_of_range, views};

verus! {

#[verifier::external_type_specification]
#[verifier::external_body]
pub struct ExShellWordsParseError(shell_words::ParseError);

/// What `shell_words::split` gives for a command line: its words, or `None` when a quote is not
/// closed.
pub uninterp spec fn shell_split(line: Seq<char>) -> Option<Seq<Seq<char>>>;

/// What `shell_words::join` gives for a list of words: a command line that quotes each word.
pub uninterp spec fn shell_join(words: Seq<Seq<char>>) -> Seq<char>;

/// `shell_words::split`: splits a command line into words the way a Unix shell does, failing
/// when a quote is left open. Its result is claimed to be [`shell_split`] of the line, a
/// function of the line alone.
#[verifier::external_body]
fn split_words(line: &str) -> (r: Result<Vec<String>, shell_words::ParseError>)
    ensures
        match r {
            Ok(words) => shell_split(line@) == Some(views(words@)),
            Err(_) => shell_split(line@) is None,
        },
{
    shell_words::split(line)
}

/// `shell_words::join`: quotes each word and joins them with spaces. Its result is claimed to be
/// [`shell_join`] of the words, a function of the words alone, and, as the crate documents and
/// tests, splitting it gives the words back.
#[verifier::external_body]
fn join_words(words: &Vec<String>) -> (r: String)
    ensures
        r@ == shell_join(views(words@)),
        shell_split(r@) == Some(views(words@)),
{
    shell_words::join(words)
}

/// Like `std::process::Stdio`, but it implements [`Clone`].
///
/// Unlike `Stdio`, this value can't represent arbitrary files or file descriptors.
#[derive(Debug, Clone, Copy, PartialEq, Eq, Structural)]
pub enum ClonableStdio {
    /// The stream will be ignored. Equivalent to attaching the stream to `/dev/null`.
    Null,
    /// The child will inherit from the corresponding parent descriptor.
    Inherit,
    /// A new pipe should be arranged to connect the parent and child processes.
    Piped,
}

/// Why a command line could not be turned into a command.
#[derive(Debug, Clone, Copy, PartialEq, Eq, Structural)]
pub enum CommandError {
    /// The command line could not be split into words (a quote is not closed).
    Split,
    /// The command line has no words, so no program.
    NoProgram,
}

/// Like `std::process::Command`, but it implements [`Clone`].
#[derive(Debug, Clone, PartialEq, Eq)]
pub struct ClonableCommand {
    /// The program to be executed.
    pub program: String,
    args: Vec<String>,
    current_dir: Option<String>,
    stdin: Option<ClonableStdio>,
    stdout: Option<ClonableStdio>,
    stderr: Option<ClonableStdio>,
    /// Environment changes, in order: `None` clears the environment; a `None` value removes a
    /// variable.
    env: Option<Vec<(String, Option<String>)>>,
}

/// The contents of a [`ClonableCommand`].
pub struct ClonableCommandView {
    pub program: Seq<char>,
    pub args: Seq<Seq<char>>,
    pub current_dir: Option<Seq<char>>,
    pub stdin: Option<ClonableStdio>,
    pub stdout: Option<ClonableStdio>,
    pub stderr: Option<ClonableStdio>,
    /// The environment changes in order, each a variable and its new value (`None` removes it);
    /// `None` when the environment is cleared.
    pub env: Option<Seq<(Seq<char>, Option<Seq<char>>)>>,
}

/// The view of environment changes.
pub open spec fn env_view(e: Option<Vec<(String, Option<String>)>>) -> Option<
    Seq<(Seq<char>, Option<Seq<char>>)>,
> {
    match e {
        Some(v) => Some(v@.map_values(|kv: (String, Option<String>)| (kv.0@, opt_view(kv.1)))),
        None => None,
    }
}

impl View for ClonableCommand {
    type V = ClonableCommandView;

    closed spec fn view(&self) -> ClonableCommandView {
        ClonableCommandView {
            program: self.program@,
            args: views(self.args@),
            current_dir: opt_view(self.current_dir),
            stdin: self.stdin,
            stdout: self.stdout,
            stderr: self.stderr,
            env: env_view(self.env),
        }
    }
}

/// A command running `program` with the given arguments and everything else left as the parent
/// process has it.
pub open spec fn plain_command(program: Seq<char>, args: Seq<Seq<char>>) -> ClonableCommandView {
    ClonableCommandView {
        program,
        args,
        current_dir: None,
        stdin: None,
        stdout: None,
        stderr: None,
        env: Some(Seq::empty()),
    }
}

/// The command a list of words gives: the first is the program, the rest its arguments.
pub open spec fn command_of_words(words: Seq<Seq<char>>) -> Result<ClonableCommandView, CommandError> {
    if words.len() == 0 {
        Err(CommandError::NoProgram)
    } else {
        Ok(plain_command(words[0], words.drop_first()))
    }
}

impl ClonableCommand {
    /// Create a new command for the given program.
    pub fn new(program: String) -> (r: Self)
        ensures
            r@ == plain_command(program@, Seq::empty()),
    {
        let r = ClonableCommand {
            program,
            args: Vec::new(),
            current_dir: None,
            stdin: None,
            stdout: None,
            stderr: None,
            env: Some(Vec::new()),
        };
        assert(views(r.args@) =~= Seq::<Seq<char>>::empty());
        assert(env_view(r.env) =~= Some(Seq::<(Seq<char>, Option<Seq<char>>)>::empty()));
        assert(r@ =~= plain_command(r.program@, Seq::empty()));
        r
    }

    /// Add an argument to this command.
    pub fn arg(self, arg: String) -> (r: Self)
        ensures
            r@ == (ClonableCommandView { args: self@.args.push(arg@), ..self@ }),
    {
        let mut r = self;
        let ghost before = views(r.args@);
        r.args.push(arg);
        assert(views(r.args@) =~= before.push(arg@));
        r
    }

    /// Add arguments to this command, in order.
    pub fn args(self, args: Vec<String>) -> (r: Self)
        ensures
            r@ == (ClonableCommandView { args: self@.args + views(args@), ..self@ }),
    {
        let mut r = self;
        let ghost start = r@;
        let mut k: usize = 0;
        while k < args.len()
            invariant
                0 <= k <= args.len(),
                r@ == (ClonableCommandView { args: start.args + views(args@).take(k as int), ..start }),
            decreases args.len() - k,
        {
            r = r.arg(args[k].clone());
            assert(start.args + views(args@).take(k + 1) =~= (start.args + views(args@).take(
                k as int,
            )).push(args@[k as int]@));
            k += 1;
        }
        assert(views(args@).take(args.len() as int) =~= views(args@));
        r
    }

    /// The arguments.
    pub fn get_args(&self) -> (r: &Vec<String>)
        ensures
            views(r@) == self@.args,
    {
        &self.args
    }

    /// The working directory to run in, if set.
    pub fn get_current_dir(&self) -> (r: &Option<String>)
        ensures
            opt_view(*r) == self@.current_dir,
    {
        &self.current_dir
    }

    /// How standard input, output and error are set, if they are.
    pub fn get_stdio(&self) -> (r: (Option<ClonableStdio>, Option<ClonableStdio>, Option<ClonableStdio>))
        ensures
            r == (self@.stdin, self@.stdout, self@.stderr),
    {
        (self.stdin, self.stdout, self.stderr)
    }

    /// The environment changes, in order: `None` when the environment is cleared.
    pub fn get_env(&self) -> (r: &Option<Vec<(String, Option<String>)>>)
        ensures
            env_view(*r) == self@.env,
    {
        &self.env
    }

    /// A command from a list of words; see [`command_of_words`].
    pub fn from_words(words: Vec<String>) -> (r: Result<Self, CommandError>)
        ensures
            match command_of_words(views(words@)) {
                Ok(c) => r is Ok && r->Ok_0@ == c,
                Err(e) => r == Err::<Self, CommandError>(e),
            },
    {
        if words.len() == 0 {
            return Err(CommandError::NoProgram);
        }
        let mut words = words;
        let ghost ws = views(words@);
        let program = words.remove(0);
        assert(views(words@) =~= ws.drop_first());
        let c = ClonableCommand::new(program);
        let r = c.args(words);
        assert(Seq::<Seq<char>>::empty() + ws.drop_first() =~= ws.drop_first());
        Ok(r)
    }

    /// Parse a command line: it is trimmed and split into words the way a Unix shell does; the
    /// first word is the program.
    pub fn from_str(shell_command: &str) -> (r: Result<Self, CommandError>)
        ensures
            match shell_split(trim(shell_command@)) {
                Some(words) => match command_of_words(words) {
                    Ok(c) => r is Ok && r->Ok_0@ == c,
                    Err(e) => r == Err::<Self, CommandError>(e),
                },
                None => r == Err::<Self, CommandError>(CommandError::Split),
            },
    {
        let s = chars_of(shell_command);
        let (lo, hi) = trim_range(&s, 0, s.len());
        assert(s@.subrange(0, s.len() as int) =~= s@);
        let trimmed = string_of_range(&s, lo, hi);
        match split_words(trimmed.as_str()) {
            Ok(words) => Self::from_words(words),
            Err(_) => Err(CommandError::Split),
        }
    }

    /// The program and arguments as one command line, each word quoted for a Unix shell.
    pub fn to_string(&self) -> (r: String)
        ensures
            r@ == shell_join(seq![self@.program] + self@.args),
            shell_split(r@) == Some(seq![self@.program] + self@.args),
    {
        let mut words: Vec<String> = Vec::new();
        words.push(self.program.clone());
        let mut k: usize = 0;
        while k < self.args.len()
            invariant
                0 <= k <= self.args.len(),
                views(words@) == seq![self.program@] + views(self.args@).take(k as int),
            decreases self.args.len() - k,
        {
            let ghost before = views(words@);
            let a = self.args[k].clone();
            words.push(a);
            assert(views(words@) =~= before.push(self.args@[k as int]@));
            assert(views(self.args@).take(k + 1) =~= views(self.args@).take(k as int).push(
                self.args@[k as int]@,
            ));
            assert(views(words@) =~= seq![self.program@] + views(self.args@).take(k + 1));
            k += 1;
        }
        assert(views(self.args@).take(k as int) =~= views(self.args@));
        join_words(&words)
    }
}

/// Extension trait for commands.
pub trait CommandExt {
    /// Display the command as a string, suitable for user output: arguments and program names
    /// quoted for a Unix shell.
    fn display(&self) -> String;
}

impl CommandExt for ClonableCommand {
    fn display(&self) -> (r: String)
        ensures
            r@ == shell_join(seq![self@.program] + self@.args),
    {
        self.to_string()
    }
}

} // verus!
