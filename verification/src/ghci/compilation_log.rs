//! A log of the messages of one compilation, used to write the error log.
use vstd::prelude::*;

use super::parse::ghc_message::compilation_summary::{
    CompilationResult, CompilationSummary, ModulesLoaded,
};
use super::parse::ghc_message::severity::Severity;
use super::parse::ghc_message::{message_views, GhcDiagnostic, GhcDiagnosticView, GhcMessage, GhcMessageView};
use super::parse::module_and_files::{CompilingModule, ModuleView};
use super::parse::ghc_message::{messages_from, parse_ghc_messages, strip_ansi_escapes};
use super::parse::scan::SyntaxError;

verus! {

/// A log of messages from compilation, used to write the error log.
#[derive(Debug, Clone)]
pub struct CompilationLog {
    /// The compilation summary, once compilation has finished.
    pub summary: Option<CompilationSummary>,
    /// The diagnostics, in the order they were reported.
    pub diagnostics: Vec<GhcDiagnostic>,
    /// The modules compiled, in the order they were compiled.
    pub compiled_modules: Vec<CompilingModule>,
}

/// The contents of a [`CompilationLog`].
pub struct CompilationLogView {
    pub summary: Option<CompilationSummary>,
    pub diagnostics: Seq<GhcDiagnosticView>,
    pub compiled_modules: Seq<ModuleView>,
}

/// The views of a sequence of diagnostics.
pub open spec fn diagnostic_views(v: Seq<GhcDiagnostic>) -> Seq<GhcDiagnosticView> {
    v.map_values(|d: GhcDiagnostic| d@)
}

/// The views of a sequence of modules.
pub open spec fn module_views(v: Seq<CompilingModule>) -> Seq<ModuleView> {
    v.map_values(|m: CompilingModule| m@)
}

impl View for CompilationLog {
    type V = CompilationLogView;

    open spec fn view(&self) -> CompilationLogView {
        CompilationLogView {
            summary: self.summary,
            diagnostics: diagnostic_views(self.diagnostics@),
            compiled_modules: module_views(self.compiled_modules@),
        }
    }
}

/// The log after one more message: a compiled module or a diagnostic is appended, a summary
/// replaces the previous one, and anything else leaves the log as it is.
pub open spec fn log_message(log: CompilationLogView, m: GhcMessageView) -> CompilationLogView {
    match m {
        GhcMessageView::Compiling(module) => CompilationLogView {
            compiled_modules: log.compiled_modules.push(module),
            ..log
        },
        GhcMessageView::Diagnostic(d) => CompilationLogView {
            diagnostics: log.diagnostics.push(d),
            ..log
        },
        GhcMessageView::Summary(s) => CompilationLogView { summary: Some(s), ..log },
        _ => log,
    }
}

/// The log after the messages, in order.
pub open spec fn log_messages(log: CompilationLogView, ms: Seq<GhcMessageView>) -> CompilationLogView
    decreases ms.len(),
{
    if ms.len() == 0 {
        log
    } else {
        log_message(log_messages(log, ms.drop_last()), ms.last())
    }
}

/// Recording messages in two batches gives the same log as recording them all at once.
pub proof fn lemma_log_messages_append(
    log: CompilationLogView,
    a: Seq<GhcMessageView>,
    b: Seq<GhcMessageView>,
)
    ensures
        log_messages(log_messages(log, a), b) == log_messages(log, a + b),
    decreases b.len(),
{
    if b.len() == 0 {
        assert(a + b =~= a);
    } else {
        lemma_log_messages_append(log, a, b.drop_last());
        assert((a + b).drop_last() =~= a + b.drop_last());
        assert((a + b).last() == b.last());
    }
}

/// Does any of the diagnostics have error severity?
pub open spec fn has_errors(ds: Seq<GhcDiagnosticView>) -> bool {
    exists|k: int| 0 <= k < ds.len() && (#[trigger] ds[k]).severity == Severity::Error
}

/// The summary [`CompilationLog::fill_empty_summary`] puts in place of a missing one: failure
/// exactly when an error was reported, and no modules loaded.
pub open spec fn synthesized_summary(ds: Seq<GhcDiagnosticView>) -> CompilationSummary {
    CompilationSummary {
        result: if has_errors(ds) {
            CompilationResult::Failed
        } else {
            CompilationResult::Succeeded
        },
        modules_loaded: ModulesLoaded::Count(0),
    }
}

/// The log that [`CompilationLog::fill_empty_summary`] leaves: the summary it has, or else one
/// synthesized from its diagnostics.
pub open spec fn filled_log(log: CompilationLogView) -> CompilationLogView {
    CompilationLogView {
        summary: Some(
            match log.summary {
                Some(s) => s,
                None => synthesized_summary(log.diagnostics),
            },
        ),
        ..log
    }
}

/// Filling in a missing summary always leaves a summary (so the log has a result), keeps a
/// summary that is already there, and filling again changes nothing.
pub proof fn lemma_fill_empty_summary(log: CompilationLogView)
    ensures
        filled_log(log).summary is Some,
        log.summary is Some ==> filled_log(log) == log,
        filled_log(filled_log(log)) == filled_log(log),
{
}

impl CompilationLog {
    /// An empty log.
    pub fn new() -> (r: Self)
        ensures
            r@.summary is None,
            r@.diagnostics == Seq::<GhcDiagnosticView>::empty(),
            r@.compiled_modules == Seq::<ModuleView>::empty(),
    {
        let r = CompilationLog { summary: None, diagnostics: Vec::new(), compiled_modules: Vec::new() };
        assert(r@.diagnostics =~= Seq::<GhcDiagnosticView>::empty());
        assert(r@.compiled_modules =~= Seq::<ModuleView>::empty());
        r
    }

    /// If we start up in `--repl-no-load`, we don't get a compilation summary, but we don't want
    /// to leave the error log empty, so we synthesize an "All good (0 modules)" message.
    ///
    /// We usually infer the success status from the "Ok" or "Failed" message at the end of
    /// compilation. If we don't have that, we use the presence of error diagnostics as a proxy.
    pub fn fill_empty_summary(&mut self)
        ensures
            final(self)@ == filled_log(old(self)@),
            final(self)@.diagnostics == old(self)@.diagnostics,
            final(self)@.compiled_modules == old(self)@.compiled_modules,
            final(self)@.summary == match old(self)@.summary {
                Some(s) => Some(s),
                None => Some(synthesized_summary(old(self)@.diagnostics)),
            },
    {
        if self.summary.is_none() {
            let mut has_errors = false;
            let mut k: usize = 0;
            while k < self.diagnostics.len()
                invariant
                    0 <= k <= self.diagnostics.len(),
                    has_errors == exists|j: int|
                        0 <= j < k && (#[trigger] self@.diagnostics[j]).severity == Severity::Error,
                decreases self.diagnostics.len() - k,
            {
                assert(self@.diagnostics[k as int] == self.diagnostics@[k as int]@);
                if self.diagnostics[k].severity == Severity::Error {
                    has_errors = true;
                }
                k += 1;
            }
            let result = if has_errors {
                CompilationResult::Failed
            } else {
                CompilationResult::Succeeded
            };
            self.summary = Some(CompilationSummary { result, modules_loaded: ModulesLoaded::Count(0) });
        }
    }

    /// Get the result of compilation.
    pub fn result(&self) -> (r: Option<CompilationResult>)
        ensures
            r == match self@.summary {
                Some(s) => Some(s.result),
                None => None,
            },
    {
        match self.summary {
            Some(summary) => Some(summary.result),
            None => None,
        }
    }

    /// Record a message; see [`log_message`].
    pub fn push_message(&mut self, message: GhcMessage)
        ensures
            final(self)@ == log_message(old(self)@, message@),
    {
        match message {
            GhcMessage::Compiling(module) => {
                let ghost before = module_views(self.compiled_modules@);
                let ghost m = module@;
                self.compiled_modules.push(module);
                assert(module_views(self.compiled_modules@) =~= before.push(m));
            },
            GhcMessage::Diagnostic(diagnostic) => {
                let ghost before = diagnostic_views(self.diagnostics@);
                let ghost d = diagnostic@;
                self.diagnostics.push(diagnostic);
                assert(diagnostic_views(self.diagnostics@) =~= before.push(d));
            },
            GhcMessage::Summary(summary) => {
                self.summary = Some(summary);
            },
            _ => {},
        }
    }

    /// Record the messages in order; see [`log_messages`].
    pub fn extend(&mut self, messages: Vec<GhcMessage>)
        ensures
            final(self)@ == log_messages(old(self)@, message_views(messages@)),
    {
        let ghost ms = message_views(messages@);
        let ghost orig = messages@;
        let n = messages.len();
        let ghost start = self@;
        let mut messages = messages;
        let mut k: usize = 0;
        assert(messages@ =~= orig.subrange(0, orig.len() as int));
        while messages.len() > 0
            invariant
                0 <= k <= orig.len(),
                orig.len() == n,
                ms == message_views(orig),
                messages@ == orig.subrange(k as int, orig.len() as int),
                self@ == log_messages(start, ms.take(k as int)),
            decreases messages.len(),
        {
            let m = messages.remove(0);
            assert(m == orig[k as int]);
            assert(ms.take(k + 1).drop_last() =~= ms.take(k as int));
            assert(ms.take(k + 1).last() == m@);
            self.push_message(m);
            k += 1;
            assert(messages@ =~= orig.subrange(k as int, orig.len() as int));
        }
        assert(ms.take(ms.len() as int) =~= ms);
    }

    /// Parse what `ghci` wrote to stdout and then what it wrote to stderr into compiler messages,
    /// recording them in that order; parsing stops at the first output that fails to parse.
    pub fn log_output(&mut self, stdout: &str, stderr: &str) -> (r: Result<(), SyntaxError>)
        ensures
            match messages_from(strip_ansi_escapes(stdout@), 0) {
                None => r is Err && final(self)@ == old(self)@,
                Some(out) => match messages_from(strip_ansi_escapes(stderr@), 0) {
                    None => r is Err && final(self)@ == log_messages(old(self)@, out),
                    Some(err) => r is Ok && final(self)@ == log_messages(
                        log_messages(old(self)@, out),
                        err,
                    ),
                },
            },
    {
        let out = match parse_ghc_messages(stdout) {
            Ok(out) => out,
            Err(e) => return Err(e),
        };
        self.extend(out);
        let err = match parse_ghc_messages(stderr) {
            Ok(err) => err,
            Err(e) => return Err(e),
        };
        self.extend(err);
        Ok(())
    }
}

impl Default for CompilationLog {
    fn default() -> (r: Self)
        ensures
            r@.summary is None,
            r@.diagnostics == Seq::<GhcDiagnosticView>::empty(),
            r@.compiled_modules == Seq::<ModuleView>::empty(),
    {
        CompilationLog::new()
    }
}

} // verus!
