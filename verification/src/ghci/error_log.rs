//! The error log: `ghcid`-compatible output, which can be consumed by `ghcid` plugins in your
//! editor of choice.
use vstd::prelude::*;

use super::compilation_log::{diagnostic_views, CompilationLog, CompilationLogView};
use super::parse::ghc_message::compilation_summary::{
    modules_loaded_text, CompilationResult, CompilationSummary, ModulesLoaded,
};
use super::parse::ghc_message::{diagnostic_text, GhcDiagnosticView};
use crate::text::{opt_view, push_str};

verus! {

/// Message we write to the error log to indicate that ghciwatch is currently reloading or
/// restarting.
///
/// This helps LLM Agents figure out that the reason they're not seeing any errors is because
/// compilation hasn't finished yet.
pub const STILL_COMPILING: &'static str = "[ghciwatch is still compiling]";

/// The headline of the error log: `All good (N modules)` when compilation succeeded (`module`
/// when exactly one was loaded), and nothing otherwise, as `ghcid` writes it.
pub open spec fn headline(summary: Option<CompilationSummary>) -> Seq<char> {
    match summary {
        Some(s) => if s.result == CompilationResult::Succeeded {
            "All good ("@ + modules_loaded_text(s.modules_loaded) + (if s.modules_loaded
                == ModulesLoaded::Count(1) {
                " module"@
            } else {
                " modules"@
            }) + ")\n"@
        } else {
            Seq::empty()
        },
        None => Seq::empty(),
    }
}

/// The diagnostics, each as [`diagnostic_text`] writes it, one after the other.
pub open spec fn diagnostics_text(ds: Seq<GhcDiagnosticView>) -> Seq<char>
    decreases ds.len(),
{
    if ds.len() == 0 {
        Seq::empty()
    } else {
        diagnostics_text(ds.drop_last()) + diagnostic_text(ds.last())
    }
}

/// The contents of the error log for a compilation: the headline, then the diagnostics.
pub open spec fn error_log_text(log: CompilationLogView) -> Seq<char> {
    headline(log.summary) + diagnostics_text(log.diagnostics)
}

/// Every diagnostic of a compilation is written to the error log, in order: with no
/// diagnostics the log is just the headline, and one more diagnostic appends exactly its text
/// (so the log grows with each diagnostic); diagnostics added in two batches give the text of
/// the first batch followed by that of the second.
pub proof fn lemma_error_log_writes_every_diagnostic(
    log: CompilationLogView,
    d: GhcDiagnosticView,
    more: Seq<GhcDiagnosticView>,
)
    ensures
        error_log_text(CompilationLogView { diagnostics: Seq::empty(), ..log }) == headline(
            log.summary,
        ),
        error_log_text(CompilationLogView { diagnostics: log.diagnostics.push(d), ..log })
            == error_log_text(log) + diagnostic_text(d),
        error_log_text(CompilationLogView { diagnostics: log.diagnostics.push(d), ..log }).len()
            == error_log_text(log).len() + diagnostic_text(d).len(),
        error_log_text(CompilationLogView { diagnostics: log.diagnostics + more, ..log })
            == error_log_text(log) + diagnostics_text(more),
    decreases more.len(),
{
    let pushed = log.diagnostics.push(d);
    assert(pushed.drop_last() =~= log.diagnostics);
    assert(headline(log.summary) + diagnostics_text(log.diagnostics) + diagnostic_text(d)
        =~= headline(log.summary) + (diagnostics_text(log.diagnostics) + diagnostic_text(d)));
    assert(Seq::<char>::empty() =~= diagnostics_text(Seq::<GhcDiagnosticView>::empty()));
    assert(headline(log.summary) + Seq::<char>::empty() =~= headline(log.summary));
    if more.len() == 0 {
        assert(log.diagnostics + more =~= log.diagnostics);
        assert(error_log_text(log) + diagnostics_text(more) =~= error_log_text(log));
    } else {
        let init = more.drop_last();
        lemma_error_log_writes_every_diagnostic(log, d, init);
        assert((log.diagnostics + more).drop_last() =~= log.diagnostics + init);
        assert((log.diagnostics + more).last() == more.last());
        assert(error_log_text(log) + diagnostics_text(init) + diagnostic_text(more.last())
            =~= error_log_text(log) + (diagnostics_text(init) + diagnostic_text(more.last())));
        assert(headline(log.summary) + diagnostics_text(log.diagnostics + init) + diagnostic_text(
            more.last(),
        ) =~= headline(log.summary) + (diagnostics_text(log.diagnostics + init) + diagnostic_text(
            more.last(),
        )));
    }
}

/// The contents of the error log for a compilation; see [`error_log_text`].
pub fn error_log_contents(log: &CompilationLog) -> (r: String)
    ensures
        r@ == error_log_text(log@),
{
    let mut r = String::new();
    if let Some(summary) = log.summary {
        if let CompilationResult::Succeeded = summary.result {
            push_str(&mut r, "All good (");
            let count = summary.modules_loaded.to_string();
            push_str(&mut r, count.as_str());
            if summary.modules_loaded != ModulesLoaded::Count(1) {
                push_str(&mut r, " modules");
            } else {
                push_str(&mut r, " module");
            }
            push_str(&mut r, ")\n");
        }
    }
    assert(r@ =~= headline(log@.summary));
    let ghost head = r@;
    let ghost ds = diagnostic_views(log.diagnostics@);
    let mut k: usize = 0;
    while k < log.diagnostics.len()
        invariant
            0 <= k <= log.diagnostics.len(),
            ds == diagnostic_views(log.diagnostics@),
            r@ == head + diagnostics_text(ds.take(k as int)),
        decreases log.diagnostics.len() - k,
    {
        let text = log.diagnostics[k].to_string();
        let ghost before = r@;
        push_str(&mut r, text.as_str());
        assert(ds.take(k + 1).drop_last() =~= ds.take(k as int));
        assert(ds.take(k + 1).last() == log.diagnostics@[k as int]@);
        assert(r@ =~= head + diagnostics_text(ds.take(k + 1)));
        k += 1;
    }
    assert(ds.take(k as int) =~= ds);
    r
}

/// Error log writer settings: where the log goes, if anywhere.
#[derive(Debug, Clone)]
pub struct ErrorLog {
    path: Option<String>,
}

impl ErrorLog {
    /// The path of the log, if there is one.
    pub closed spec fn spec_path(&self) -> Option<Seq<char>> {
        opt_view(self.path)
    }

    /// Construct a new error log writer for the given path.
    pub fn new(path: Option<String>) -> (r: Self)
        ensures
            r.spec_path() == opt_view(path),
    {
        ErrorLog { path }
    }

    /// The path of the log, if there is one.
    pub fn path(&self) -> (r: &Option<String>)
        ensures
            opt_view(*r) == self.spec_path(),
    {
        &self.path
    }

    /// What to write, and where, for a compilation: nothing when there is no log path.
    pub fn contents(&self, log: &CompilationLog) -> (r: Option<(String, String)>)
        ensures
            match self.spec_path() {
                Some(p) => r matches Some((q, t)) && q@ == p && t@ == error_log_text(log@),
                None => r is None,
            },
    {
        match &self.path {
            Some(p) => Some((p.clone(), error_log_contents(log))),
            None => None,
        }
    }

    /// What to write, and where, while compilation is still going on: nothing when there is no
    /// log path.
    pub fn still_compiling(&self) -> (r: Option<(String, String)>)
        ensures
            match self.spec_path() {
                Some(p) => r matches Some((q, t)) && q@ == p && t@ == STILL_COMPILING@,
                None => r is None,
            },
    {
        match &self.path {
            Some(p) => {
                let mut text = String::new();
                push_str(&mut text, STILL_COMPILING);
                Some((p.clone(), text))
            },
            None => None,
        }
    }
}

} // verus!
