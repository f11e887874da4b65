//! The lines written to a `ghci` session's standard input.
use vstd::prelude::*;

use super::ghci_command::GhciCommand;
use crate::text::{chars_of, push_char, push_str, string_of_range, views};

verus! {

/// The prompt `ghci` is told to print, so that its output can be split at each prompt.
pub const PROMPT: &'static str = "###~GHCIWATCH-PROMPT~###";

/// Reload the session.
pub const RELOAD_LINE: &'static str = ":reload\n";

/// Ask for the working directory and the module search paths.
pub const SHOW_PATHS_LINE: &'static str = ":show paths\n";

/// Ask for the loaded targets.
pub const SHOW_TARGETS_LINE: &'static str = ":show targets\n";

/// End the session.
pub const QUIT_LINE: &'static str = ":quit\n";

/// The first index at or after `i` that holds a newline, or the length of `s`.
pub open spec fn newline_from(s: Seq<char>, i: int) -> int
    decreases s.len() - i,
{
    if i < 0 || i >= s.len() || s[i] == '\n' {
        i
    } else {
        newline_from(s, i + 1)
    }
}

/// Where [`newline_from`] stops: within bounds, with no newline before it.
pub proof fn lemma_newline_from(s: Seq<char>, i: int)
    requires
        0 <= i <= s.len(),
    ensures
        i <= newline_from(s, i) <= s.len(),
        newline_from(s, i) < s.len() ==> s[newline_from(s, i)] == '\n',
        forall|j: int| i <= j < newline_from(s, i) ==> s[j] != '\n',
    decreases s.len() - i,
{
    if i < s.len() && s[i] != '\n' {
        lemma_newline_from(s, i + 1);
    }
}

/// The line `s[i..k]`, without the carriage return before its newline, if any.
pub open spec fn line_text(s: Seq<char>, i: int, k: int) -> Seq<char> {
    if i < k < s.len() && s[k - 1] == '\r' {
        s.subrange(i, k - 1)
    } else {
        s.subrange(i, k)
    }
}

/// The lines of `s` from `i` on, as `str::lines` splits them: at each newline, without the
/// newline or a carriage return just before it; a final line needs no newline, and a final
/// newline starts no new line.
pub open spec fn text_lines_from(s: Seq<char>, i: int) -> Seq<Seq<char>>
    decreases s.len() - i,
{
    if i < 0 || i >= s.len() {
        Seq::empty()
    } else {
        let k = newline_from(s, i);
        // The rest starts after the newline, or is empty when there is none.
        let next = if i <= k < s.len() {
            k + 1
        } else {
            s.len() as int
        };
        seq![line_text(s, i, k)] + text_lines_from(s, next)
    }
}

/// Each line followed by a newline.
pub open spec fn with_newlines(lines: Seq<Seq<char>>) -> Seq<Seq<char>> {
    lines.map_values(|l: Seq<char>| l + seq!['\n'])
}

/// The lines that run a command: each line of the command, followed by a newline.
pub fn command_lines(command: &GhciCommand) -> (r: Vec<String>)
    ensures
        views(r@) == with_newlines(text_lines_from(command@, 0)),
{
    let s = chars_of(command.as_str());
    let ghost all = with_newlines(text_lines_from(s@, 0));
    let mut r: Vec<String> = Vec::new();
    let mut i: usize = 0;
    assert(views(r@) + with_newlines(text_lines_from(s@, 0)) =~= all);
    while i < s.len()
        invariant
            0 <= i <= s.len(),
            all == with_newlines(text_lines_from(s@, 0)),
            views(r@) + with_newlines(text_lines_from(s@, i as int)) == all,
        decreases s.len() - i,
    {
        let mut k = i;
        while k < s.len() && s[k] != '\n'
            invariant
                i <= k <= s.len(),
                newline_from(s@, k as int) == newline_from(s@, i as int),
            decreases s.len() - k,
        {
            k += 1;
        }
        let end = if i < k && k < s.len() && s[k - 1] == '\r' {
            k - 1
        } else {
            k
        };
        let mut line = string_of_range(&s, i, end);
        push_char(&mut line, '\n');
        let ghost before = views(r@);
        let ghost l = line_text(s@, i as int, k as int);
        assert(line@ == l + seq!['\n']);
        r.push(line);
        assert(views(r@) =~= before.push(l + seq!['\n']));
        proof {
            lemma_newline_from(s@, i as int);
        }
        let ghost rest = if k < s.len() {
            text_lines_from(s@, k + 1)
        } else {
            text_lines_from(s@, s.len() as int)
        };
        assert(text_lines_from(s@, i as int) == seq![l] + rest);
        assert(with_newlines(seq![l] + rest) =~= seq![l + seq!['\n']] + with_newlines(rest));
        assert(views(r@) + with_newlines(rest) =~= before + with_newlines(seq![l] + rest));
        i = if k < s.len() {
            k + 1
        } else {
            k
        };
        assert(with_newlines(text_lines_from(s@, i as int)) == with_newlines(rest));
    }
    assert(with_newlines(text_lines_from(s@, i as int)) =~= Seq::<Seq<char>>::empty());
    assert(views(r@) =~= all);
    r
}

/// A line with a prefix and the given text, and a newline.
fn line_with(prefix: &str, text: &str) -> (r: String)
    ensures
        r@ == prefix@ + text@ + seq!['\n'],
{
    let mut r = String::new();
    push_str(&mut r, prefix);
    push_str(&mut r, text);
    push_char(&mut r, '\n');
    r
}

/// The lines that set the prompt and the continuation prompt to [`PROMPT`].
pub fn prompt_lines() -> (r: Vec<String>)
    ensures
        views(r@) == seq![
            ":set prompt "@ + PROMPT@ + seq!['\n'],
            ":set prompt-cont "@ + PROMPT@ + seq!['\n'],
        ],
{
    let mut r: Vec<String> = Vec::new();
    r.push(line_with(":set prompt ", PROMPT));
    r.push(line_with(":set prompt-cont ", PROMPT));
    assert(views(r@) =~= seq![
        ":set prompt "@ + PROMPT@ + seq!['\n'],
        ":set prompt-cont "@ + PROMPT@ + seq!['\n'],
    ]);
    r
}

/// The line that adds a module to the session. (`:add`, because `:load` unloads the modules
/// loaded before.)
pub fn add_module_line(path: &str) -> (r: String)
    ensures
        r@ == ":add "@ + path@ + seq!['\n'],
{
    line_with(":add ", path)
}

/// The line that adds a module to the session interpreted, so that its top-level bindings are
/// in scope even when it was loaded from bytecode.
pub fn interpret_module_line(path: &str) -> (r: String)
    ensures
        r@ == ":add *"@ + path@ + seq!['\n'],
{
    line_with(":add *", path)
}

/// The lines that evaluate a command in a module's top-level scope: bring the module into
/// scope, run the command's lines, and take the module out of scope again.
pub fn eval_lines(module_name: &str, command: &GhciCommand) -> (r: Vec<String>)
    ensures
        views(r@) == seq![":module + *"@ + module_name@ + seq!['\n']] + with_newlines(
            text_lines_from(command@, 0),
        ) + seq![":module - *"@ + module_name@ + seq!['\n']],
{
    let mut r: Vec<String> = Vec::new();
    r.push(line_with(":module + *", module_name));
    let mut lines = command_lines(command);
    let ghost first = views(r@);
    let ghost middle = views(lines@);
    r.append(&mut lines);
    assert(views(r@) =~= first + middle);
    let ghost before = views(r@);
    let last = line_with(":module - *", module_name);
    let ghost l = last@;
    r.push(last);
    assert(views(r@) =~= before.push(l));
    r
}

} // verus!
