//! Parsers for GHC compiler output, and the messages they produce.
use vstd::prelude::*;

pub mod severity;
pub mod position;
pub mod compilation_summary;
pub mod compiling;
pub mod message_body;
pub mod path_colon;
pub mod loaded_configuration;
pub mod exception;
pub mod cant_find_file_diagnostic;
pub mod generic_diagnostic;
pub mod no_location_info_diagnostic;
pub mod module_import_cycle_diagnostic;
pub mod single_quoted;
pub mod not_found;

use self::compilation_summary::CompilationSummary;
use self::position::{position_range_text, PositionRange};
use self::severity::Severity;
use super::module_and_files::{Module, ModuleView};
use crate::ghci::parse::lines::{scan_until_newline, until_newline_at};
use crate::ghci::parse::scan::{SyntaxError, Step};
use crate::text::{chars_of, opt_view, push_char, push_str};

pub use self::compilation_summary::CompilationResult;

verus! {

/// An error or warning diagnostic message.
///
/// ```text
/// Foo.hs:81:1: Warning: Defined but not used: `bar'
/// ```
#[derive(Debug, Clone, PartialEq, Eq)]
pub struct GhcDiagnostic {
    /// The diagnostic's severity.
    pub severity: Severity,
    /// Path to the relevant file, like `src/Foo/Bar.hs`.
    pub path: Option<String>,
    /// Span for the diagnostic.
    pub span: PositionRange,
    /// The associated message.
    pub message: String,
}

/// The contents of a [`GhcDiagnostic`].
pub struct GhcDiagnosticView {
    pub severity: Severity,
    pub path: Option<Seq<char>>,
    pub span: (usize, usize, usize, usize),
    pub message: Seq<char>,
}

impl View for GhcDiagnostic {
    type V = GhcDiagnosticView;

    open spec fn view(&self) -> GhcDiagnosticView {
        GhcDiagnosticView {
            severity: self.severity,
            path: opt_view(self.path),
            span: self.span.spec_parts(),
            message: self.message@,
        }
    }
}

/// How a severity is written in a diagnostic: `warning` or `error`.
pub open spec fn severity_text(s: Severity) -> Seq<char> {
    match s {
        Severity::Warning => "warning"@,
        Severity::Error => "error"@,
    }
}

/// How a diagnostic is written: the path (or `<no location info>`), the span unless it is all
/// zero, the severity, and the message; a message that starts on a new line follows the
/// severity's colon directly, any other after a space.
pub open spec fn diagnostic_text(d: GhcDiagnosticView) -> Seq<char> {
    let path = match d.path {
        Some(p) => p,
        None => "<no location info>"@,
    };
    let span = if d.span == (0usize, 0usize, 0usize, 0usize) {
        Seq::empty()
    } else {
        seq![':'] + position_range_text(d.span)
    };
    let message = if d.message.len() > 0 && d.message[0] == '\n' {
        d.message
    } else {
        seq![' '] + d.message
    };
    path + span + ": "@ + severity_text(d.severity) + seq![':'] + message
}

impl Severity {
    /// The severity as written in a diagnostic; see [`severity_text`].
    pub fn to_string(&self) -> (r: String)
        ensures
            r@ == severity_text(*self),
    {
        let mut r = String::new();
        match self {
            Severity::Warning => push_str(&mut r, "warning"),
            Severity::Error => push_str(&mut r, "error"),
        }
        assert(r@ =~= severity_text(*self));
        r
    }
}

impl GhcDiagnostic {
    /// A copy of this diagnostic.
    pub fn duplicate(&self) -> (r: Self)
        ensures
            r@ == self@,
    {
        let path = match &self.path {
            Some(p) => Some(p.clone()),
            None => None,
        };
        GhcDiagnostic { severity: self.severity, path, span: self.span, message: self.message.clone() }
    }

    /// The diagnostic as GHC writes it; see [`diagnostic_text`].
    pub fn to_string(&self) -> (r: String)
        ensures
            r@ == diagnostic_text(self@),
    {
        let mut r = String::new();
        match &self.path {
            Some(p) => push_str(&mut r, p.as_str()),
            None => push_str(&mut r, "<no location info>"),
        }
        let ghost after_path = r@;
        if !self.span.is_zero() {
            push_char(&mut r, ':');
            let span = self.span.to_string();
            push_str(&mut r, span.as_str());
        }
        let ghost after_span = r@;
        push_str(&mut r, ": ");
        let sev = self.severity.to_string();
        push_str(&mut r, sev.as_str());
        push_char(&mut r, ':');
        let starts_with_newline = !self.message.as_str().is_empty() && self.message.as_str().get_char(0)
            == '\n';
        if !starts_with_newline {
            push_char(&mut r, ' ');
        }
        push_str(&mut r, self.message.as_str());
        assert(r@ =~= diagnostic_text(self@));
        r
    }
}

/// A message printed by GHC or GHCi while compiling.
///
/// These include progress updates on compilation, errors and warnings, or GHCi messages.
#[derive(Debug, Clone, PartialEq, Eq)]
pub enum GhcMessage {
    /// A module being compiled.
    ///
    /// ```text
    /// [1 of 2] Compiling Foo ( Foo.hs, interpreted )
    /// ```
    Compiling(Module),
    /// An error or warning diagnostic message.
    ///
    /// ```text
    /// Foo.hs:81:1: Warning: Defined but not used: `bar'
    /// ```
    Diagnostic(GhcDiagnostic),
    /// A configuration file being loaded.
    ///
    /// ```text
    /// Loaded GHCi configuration from foo.ghci
    /// ```
    LoadConfig {
        /// The path to the loaded configuration file.
        path: String,
    },
    /// Compilation finished.
    ///
    /// ```text
    /// Ok, 123 modules loaded.
    /// ```
    Summary(CompilationSummary),
    /// An exception reported by GHCi.
    ///
    /// ```text
    /// *** Exception: Uh oh!
    /// ```
    Exception(String),
}

/// The contents of a [`GhcMessage`].
pub enum GhcMessageView {
    Compiling(ModuleView),
    Diagnostic(GhcDiagnosticView),
    LoadConfig(Seq<char>),
    Summary(CompilationSummary),
    Exception(Seq<char>),
}

impl View for GhcMessage {
    type V = GhcMessageView;

    open spec fn view(&self) -> GhcMessageView {
        match self {
            GhcMessage::Compiling(m) => GhcMessageView::Compiling(m@),
            GhcMessage::Diagnostic(d) => GhcMessageView::Diagnostic(d@),
            GhcMessage::LoadConfig { path } => GhcMessageView::LoadConfig(path@),
            GhcMessage::Summary(s) => GhcMessageView::Summary(*s),
            GhcMessage::Exception(e) => GhcMessageView::Exception(e@),
        }
    }
}

/// The views of a sequence of messages.
pub open spec fn message_views(v: Seq<GhcMessage>) -> Seq<GhcMessageView> {
    v.map_values(|m: GhcMessage| m@)
}

impl GhcMessage {
    /// Extract the contained diagnostic, if any.
    pub fn into_diagnostic(self) -> (r: Option<GhcDiagnostic>)
        ensures
            match self {
                GhcMessage::Diagnostic(d) => r == Some(d),
                _ => r is None,
            },
    {
        match self {
            GhcMessage::Diagnostic(diagnostic) => Some(diagnostic),
            _ => None,
        }
    }
}

} // verus!

verus! {

/// The messages one step of the message parser gives at `i`, trying in order: a progress line, a
/// diagnostic with a location, a "can't find file" message, a diagnostic without a location, an
/// import cycle, a configuration line, a compilation summary, and finally any other line, which
/// gives no message.
pub open spec fn message_item_at(s: Seq<char>, i: int) -> Step<int, Seq<GhcMessageView>> {
    match compiling::compiling_at(s, i) {
        Step::Done(n, p) => Step::Done(n, seq![GhcMessageView::Compiling(p.module)]),
        Step::Cut => Step::Cut,
        Step::Backtrack => match generic_diagnostic::generic_diagnostic_at(s, i) {
            Some((n, d)) => Step::Done(n, seq![GhcMessageView::Diagnostic(d)]),
            None => match cant_find_file_diagnostic::cant_find_file_at(s, i) {
                Some((n, d)) => Step::Done(n, seq![GhcMessageView::Diagnostic(d)]),
                None => match no_location_info_diagnostic::no_location_info_at(s, i) {
                    Some((n, d)) => Step::Done(n, seq![GhcMessageView::Diagnostic(d)]),
                    None => match module_import_cycle_diagnostic::module_import_cycle_at(s, i) {
                        Some((n, v)) => Step::Done(n, v),
                        None => match loaded_configuration::loaded_configuration_at(s, i) {
                            Some((a, j, n)) => Step::Done(
                                n,
                                seq![GhcMessageView::LoadConfig(s.subrange(a, j))],
                            ),
                            None => match compilation_summary::compilation_summary_at(s, i) {
                                Some((n, m)) => Step::Done(n, seq![GhcMessageView::Summary(m)]),
                                None => match until_newline_at(s, i) {
                                    Some((_, n)) => Step::Done(n, Seq::empty()),
                                    None => Step::Backtrack,
                                },
                            },
                        },
                    },
                },
            },
        },
    }
}

/// The messages in `s` from `i` on: steps repeat until none applies, which must happen at the
/// end of the input. `None` when a step cuts, or stops before the end.
pub open spec fn messages_from(s: Seq<char>, i: int) -> Option<Seq<GhcMessageView>>
    decreases s.len() - i,
{
    if i < 0 || i > s.len() {
        None
    } else {
        match message_item_at(s, i) {
            Step::Done(n, v) => if i < n <= s.len() {
                match messages_from(s, n) {
                    Some(rest) => Some(v + rest),
                    None => None,
                }
            } else {
                None
            },
            Step::Cut => None,
            Step::Backtrack => if i == s.len() {
                Some(Seq::empty())
            } else {
                None
            },
        }
    }
}

fn scan_message_item(s: &Vec<char>, i: usize) -> (r: Step<usize, Vec<GhcMessage>>)
    requires
        i <= s.len(),
    ensures
        match r {
            Step::Done(n, v) => message_item_at(s@, i as int) == Step::<int, Seq<GhcMessageView>>::Done(
                n as int,
                message_views(v@),
            ) && n <= s.len(),
            Step::Backtrack => message_item_at(s@, i as int) is Backtrack,
            Step::Cut => message_item_at(s@, i as int) is Cut,
        },
{
    match compiling::scan_compiling(s, i) {
        Step::Done(n, p) => {
            let v = vec![GhcMessage::Compiling(p.module)];
            assert(message_views(v@) =~= seq![GhcMessageView::Compiling(p@.module)]);
            return Step::Done(n, v);
        },
        Step::Cut => return Step::Cut,
        Step::Backtrack => {},
    }
    if let Some((n, d)) = generic_diagnostic::scan_generic_diagnostic(s, i) {
        let v = vec![GhcMessage::Diagnostic(d)];
        assert(message_views(v@) =~= seq![GhcMessageView::Diagnostic(d@)]);
        return Step::Done(n, v);
    }
    if let Some((n, d)) = cant_find_file_diagnostic::scan_cant_find_file(s, i) {
        let v = vec![GhcMessage::Diagnostic(d)];
        assert(message_views(v@) =~= seq![GhcMessageView::Diagnostic(d@)]);
        return Step::Done(n, v);
    }
    if let Some((n, d)) = no_location_info_diagnostic::scan_no_location_info(s, i) {
        let v = vec![GhcMessage::Diagnostic(d)];
        assert(message_views(v@) =~= seq![GhcMessageView::Diagnostic(d@)]);
        return Step::Done(n, v);
    }
    if let Some((n, v)) = module_import_cycle_diagnostic::scan_module_import_cycle(s, i) {
        return Step::Done(n, v);
    }
    if let Some((n, path)) = loaded_configuration::scan_loaded_configuration(s, i) {
        let v = vec![GhcMessage::LoadConfig { path }];
        assert(message_views(v@) =~= seq![GhcMessageView::LoadConfig(path@)]);
        return Step::Done(n, v);
    }
    if let Some((n, m)) = compilation_summary::scan_compilation_summary(s, i) {
        let v = vec![GhcMessage::Summary(m)];
        assert(message_views(v@) =~= seq![GhcMessageView::Summary(m)]);
        return Step::Done(n, v);
    }
    match scan_until_newline(s, i) {
        Some((_, n)) => {
            let v: Vec<GhcMessage> = Vec::new();
            assert(message_views(v@) =~= Seq::<GhcMessageView>::empty());
            Step::Done(n, v)
        },
        None => Step::Backtrack,
    }
}

/// Parse the messages in compiler output (with no ANSI escapes left); see [`messages_from`].
pub fn parse_messages_inner(input: &str) -> (r: Result<Vec<GhcMessage>, SyntaxError>)
    ensures
        match messages_from(input@, 0) {
            Some(v) => r is Ok && message_views(r->Ok_0@) == v,
            None => r is Err,
        },
{
    let s = chars_of(input);
    let mut out: Vec<GhcMessage> = Vec::new();
    let mut i: usize = 0;
    loop
        invariant
            i <= s.len(),
            s@ == input@,
            messages_from(s@, 0) == match messages_from(s@, i as int) {
                Some(rest) => Some(message_views(out@) + rest),
                None => None::<Seq<GhcMessageView>>,
            },
        decreases s.len() - i,
    {
        match scan_message_item(&s, i) {
            Step::Done(n, v) => {
                if n <= i {
                    return Err(SyntaxError);
                }
                let ghost before = message_views(out@);
                let ghost added = message_views(v@);
                let mut v = v;
                out.append(&mut v);
                proof {
                    assert(message_views(out@) =~= before + added);
                    match messages_from(s@, n as int) {
                        Some(rest) => {
                            assert(before + (added + rest) =~= message_views(out@) + rest);
                        },
                        None => {},
                    }
                }
                i = n;
            },
            Step::Cut => return Err(SyntaxError),
            Step::Backtrack => {
                if i == s.len() {
                    assert(message_views(out@) + Seq::<GhcMessageView>::empty() =~= message_views(out@));
                    return Ok(out);
                } else {
                    return Err(SyntaxError);
                }
            },
        }
    }
}

/// What `strip_ansi_escapes::strip_str` gives for a text: the text without its ANSI escape
/// sequences.
pub uninterp spec fn strip_ansi_escapes(text: Seq<char>) -> Seq<char>;

/// `strip_ansi_escapes::strip_str`, which removes ANSI escape sequences (colors and the like). Its
/// result is claimed to be [`strip_ansi_escapes`] of the input, a function of the input alone;
/// nothing more is claimed of it.
#[verifier::external_body]
pub(crate) fn strip_str(text: &str) -> (r: String)
    ensures
        r@ == strip_ansi_escapes(text@),
{
    strip_ansi_escapes::strip_str(text)
}

/// Parse [`GhcMessage`]s from lines of compiler output, after removing ANSI escapes.
pub fn parse_ghc_messages(lines: &str) -> (r: Result<Vec<GhcMessage>, SyntaxError>)
    ensures
        match messages_from(strip_ansi_escapes(lines@), 0) {
            Some(v) => r is Ok && message_views(r->Ok_0@) == v,
            None => r is Err,
        },
{
    let uncolored = strip_str(lines);
    parse_messages_inner(uncolored.as_str())
}

} // verus!
